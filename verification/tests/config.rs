use autofix::config::{
    list_ollama_models, needs_reload, ollama_tags_url, pick_ollama_model, AgentRole, Config,
    ConfigError, ConfigFile, PermissionMode, ProviderKind, ThinkMode,
};
use autofix::json::parse_json;
use autofix::workers::plan_worker;

fn config() -> Config {
    Config {
        config_file: "autofix_config.json".to_string(),
        role: AgentRole::Master,
        provider: ProviderKind::Ollama,
        model: None,
        base_url: None,
        api_key: None,
        workspace: ".".to_string(),
        task_file: None,
        worker_id: None,
        worker_name: None,
        session_id: None,
        resume_session: None,
        memory_file: "memory.json".to_string(),
        skills_dir: "skills".to_string(),
        system: None,
        dangerously_allow_shell: false,
        auto_write: false,
        auto_worktree: false,
        approval_mode: PermissionMode::Ask,
        shell_approval: None,
        write_approval: None,
        max_tool_rounds: 6,
        autonomous: false,
        unlimited_tool_rounds: false,
        think: ThinkMode::Auto,
        hide_thinking: false,
        stop_sequences: vec![],
        active_skills: vec![],
        tui: false,
        full_system_access: false,
        banner_title: "AutoFix".to_string(),
        banner_subtitle: "An autonomous coding agent".to_string(),
        banner_tip: "tip".to_string(),
        banner_onboarding: vec![],
    }
}

fn empty_file() -> ConfigFile {
    ConfigFile {
        role: None,
        provider: None,
        model: None,
        base_url: None,
        api_key: None,
        workspace: None,
        task_file: None,
        worker_id: None,
        worker_name: None,
        session_id: None,
        memory_file: None,
        skills_dir: None,
        system: None,
        dangerously_allow_shell: None,
        auto_write: None,
        auto_worktree: None,
        approval_mode: None,
        shell_approval: None,
        write_approval: None,
        max_tool_rounds: None,
        autonomous: None,
        unlimited_tool_rounds: None,
        think: None,
        hide_thinking: None,
        stop_sequences: None,
        active_skills: None,
        tui: None,
        full_system_access: None,
        banner_title: None,
        banner_subtitle: None,
        banner_tip: None,
        banner_onboarding: None,
    }
}

fn ws() -> Result<String, String> {
    Ok("/work".to_string())
}

#[test]
fn config_file_overrides_what_it_names() {
    let mut c = config();
    c.model = Some("kept".to_string());
    let mut file = empty_file();
    file.provider = Some(ProviderKind::Gemini);
    file.stop_sequences = Some(vec!["END".to_string()]);
    file.shell_approval = Some(PermissionMode::Deny);
    file.max_tool_rounds = Some(9);
    c.apply_config_file(file);
    assert_eq!(c.provider, ProviderKind::Gemini);
    assert_eq!(c.stop_sequences, ["END"]);
    assert_eq!(c.shell_approval, Some(PermissionMode::Deny));
    assert_eq!(c.max_tool_rounds, 9);
    assert_eq!(c.model.as_deref(), Some("kept"));
    assert_eq!(c.memory_file, "memory.json");
    let before = format!("{c:?}");
    c.apply_config_file_if_present(None);
    assert_eq!(format!("{c:?}"), before);
}

#[test]
fn saved_settings_come_back() {
    let mut c = config();
    c.provider = ProviderKind::Anthropic;
    c.model = Some("m".to_string());
    c.stop_sequences = vec!["a".to_string(), "b".to_string()];
    c.session_id = Some("mine".to_string());
    let file = c.snapshot_config_file();
    assert_eq!(file.session_id, None);
    let mut d = config();
    d.apply_config_file(file);
    d.session_id = Some("mine".to_string());
    assert_eq!(format!("{d:?}"), format!("{c:?}"));
}

#[test]
fn permissions_follow_flags_and_modes() {
    let mut c = config();
    assert_eq!(c.shell_permission(), PermissionMode::Ask);
    c.approval_mode = PermissionMode::Deny;
    c.shell_approval = Some(PermissionMode::Allow);
    assert_eq!(c.shell_permission(), PermissionMode::Allow);
    assert_eq!(c.write_permission(), PermissionMode::Deny);
    c.auto_write = true;
    assert_eq!(c.write_permission(), PermissionMode::Allow);
    c.auto_write = false;
    c.shell_approval = Some(PermissionMode::Deny);
    c.dangerously_allow_shell = true;
    assert_eq!(c.shell_permission(), PermissionMode::Allow);
    c.dangerously_allow_shell = false;
    c.full_system_access = true;
    assert_eq!(c.shell_permission(), PermissionMode::Allow);
    assert_eq!(c.write_permission(), PermissionMode::Allow);
    assert_eq!(c.access_label(), "full-system");
}

#[test]
fn autonomy_raises_the_round_limit() {
    let mut c = config();
    assert_eq!(c.effective_max_tool_rounds(), 6);
    c.autonomous = true;
    assert_eq!(c.effective_max_tool_rounds(), 50);
    c.max_tool_rounds = 70;
    assert_eq!(c.effective_max_tool_rounds(), 70);
}

#[test]
fn onboarding_points_at_the_commands() {
    let mut c = config();
    assert_eq!(
        c.banner_onboarding(),
        [
            "/help commands",
            "/models local models",
            "/search web search",
            "/agents spawn task isolation",
            "/permissions safety",
            "/terminal real shell",
            "/exit quit"
        ]
    );
    c.banner_onboarding = vec!["mine".to_string()];
    assert_eq!(c.banner_onboarding(), ["mine"]);
}

#[test]
fn config_paths_prefer_the_current_name() {
    let mut c = config();
    assert_eq!(c.legacy_config_file(), "config.json");
    c.config_file = "/etc/x/autofix_config.json".to_string();
    assert_eq!(c.legacy_config_file(), "/etc/x/config.json");
    assert_eq!(c.config_path(true, true).as_deref(), Some("/etc/x/autofix_config.json"));
    assert_eq!(c.config_path(false, true).as_deref(), Some("/etc/x/config.json"));
    assert_eq!(c.config_path(false, false), None);
    assert!(c.config_file_exists(false, true));
    assert!(!c.config_file_exists(false, false));
    c.workspace = "/w".to_string();
    assert_eq!(c.resolve_workspace_path(&"a/b".to_string()), "/w/a/b");
    assert_eq!(c.resolve_workspace_path(&"/a".to_string()), "/a");
    assert_eq!(c.memory_file(), "memory.json");
    assert_eq!(c.skills_dir(), "skills");
    c.set_active_skills(vec!["x".to_string()]);
    assert_eq!(c.active_skills(), ["x"]);
    assert!(c.show_thinking());
    assert!(!c.is_worker());
}

#[test]
fn providers_resolve_to_their_defaults() {
    let expected = [
        (ProviderKind::Openai, "https://api.openai.com/v1/chat/completions", "gpt-4.1-mini"),
        (
            ProviderKind::Anthropic,
            "https://api.anthropic.com/v1/messages",
            "sonnet",
        ),
        (ProviderKind::Gemini, "https://generativelanguage.googleapis.com/v1beta", "gemini-1.5-pro"),
        (
            ProviderKind::Openrouter,
            "https://openrouter.ai/api/v1/chat/completions",
            "openai/gpt-4.1-mini",
        ),
    ];
    for (kind, url, model) in expected {
        let mut c = config();
        c.provider = kind;
        let c = c.begin_resolve(ws(), Some("key".to_string()), "sonnet").unwrap();
        assert_eq!(c.base_url(), url);
        assert_eq!(c.model(), model);
        assert_eq!(c.api_key.as_deref(), Some("key"));
        assert_eq!(c.workspace, "/work");
        assert_eq!(c.memory_file, "/work/memory.json");
        assert_eq!(c.skills_dir, "/work/skills");
        assert!(!c.needs_local_model());
    }
}

#[test]
fn ollama_needs_no_key_but_a_model() {
    let c = config().begin_resolve(ws(), Some("unused".to_string()), "sonnet").unwrap();
    assert_eq!(c.api_key, None);
    assert_eq!(c.base_url(), "http://localhost:11434/api/chat");
    assert!(c.needs_local_model());
    let c = c.finish_resolve(&vec!["gemma".to_string(), "lfm2".to_string()]).unwrap();
    assert_eq!(c.model(), "lfm2");
    let none = config().begin_resolve(ws(), None, "sonnet").unwrap().finish_resolve(&vec![]);
    assert!(matches!(none, Err(ConfigError::NoLocalModels)));
}

#[test]
fn each_missing_setting_is_named() {
    let denied = config().begin_resolve(Err("no such file".to_string()), None, "sonnet").unwrap_err();
    assert_eq!(denied.message(), "workspace '.' is not accessible: no such file");

    let mut c = config();
    c.role = AgentRole::Worker;
    let err = c.begin_resolve(ws(), None, "sonnet").unwrap_err();
    assert_eq!(err.message(), "worker mode requires --task-file");

    let mut c = config();
    c.provider = ProviderKind::Openai;
    let err = c.begin_resolve(ws(), None, "sonnet").unwrap_err();
    assert_eq!(
        err.message(),
        "missing API key; pass --api-key or set the provider-specific env var"
    );

    let mut c = config();
    c.provider = ProviderKind::CustomOpenai;
    let err = c.begin_resolve(ws(), Some("k".to_string()), "sonnet").unwrap_err();
    assert_eq!(err.message(), "--base-url is required for custom-openai");

    let mut c = config();
    c.provider = ProviderKind::CustomOpenai;
    c.base_url = Some("http://x".to_string());
    let err = c.begin_resolve(ws(), Some("k".to_string()), "sonnet").unwrap_err();
    assert_eq!(err.message(), "--model is required for custom-openai");
    assert!(ConfigError::NoLocalModels.message().starts_with("Ollama is running"));
}

#[test]
fn workers_are_confined() {
    let mut c = config();
    c.role = AgentRole::Worker;
    c.task_file = Some("task.md".to_string());
    c.full_system_access = true;
    c.tui = true;
    c.approval_mode = PermissionMode::Deny;
    let c = c.begin_resolve(ws(), None, "sonnet").unwrap();
    assert!(!c.full_system_access && !c.tui && c.autonomous);
    assert_eq!(c.task_file.as_deref(), Some("/work/task.md"));
    assert_eq!(c.shell_permission(), PermissionMode::Allow);
    assert_eq!(c.write_permission(), PermissionMode::Allow);
    assert_eq!(c.effective_max_tool_rounds(), 50);
}

#[test]
fn key_variables_belong_to_providers() {
    assert_eq!(ProviderKind::Openai.api_key_variable(), Some("OPENAI_API_KEY"));
    assert_eq!(ProviderKind::CustomOpenai.api_key_variable(), Some("CUSTOM_API_KEY"));
    assert_eq!(ProviderKind::Ollama.api_key_variable(), None);
}

#[test]
fn local_models_are_picked_by_family() {
    let list = |names: &[&str]| names.iter().map(|s| s.to_string()).collect::<Vec<_>>();
    assert_eq!(pick_ollama_model(&list(&["a", "xlfm", "lfm:1", "lfm"])).unwrap(), "lfm");
    assert_eq!(pick_ollama_model(&list(&["a", "xlfm", "lfm:1"])).unwrap(), "lfm:1");
    assert_eq!(pick_ollama_model(&list(&["a", "xlfm"])).unwrap(), "xlfm");
    assert_eq!(pick_ollama_model(&list(&["b", "a"])).unwrap(), "b");
}

#[test]
fn model_lists_are_read_and_sorted() {
    let tags = parse_json(r#"{"models":[{"name":"b","size":1},{"name":"a"}]}"#).unwrap();
    assert_eq!(list_ollama_models(&tags), Some(vec!["a".to_string(), "b".to_string()]));
    for bad in [r#"{}"#, r#"{"models":[{"size":1}]}"#, r#"{"models":3}"#, "[]"] {
        assert_eq!(list_ollama_models(&parse_json(bad).unwrap()), None);
    }
    assert_eq!(ollama_tags_url("http://h:1/api/chat"), "http://h:1/api/tags");
    assert_eq!(ollama_tags_url("http://h:1//"), "http://h:1/api/tags");
}

#[test]
fn changed_files_are_read_again() {
    assert!(!needs_reload(None, None));
    assert!(needs_reload(None, Some(1)));
    assert!(!needs_reload(Some(1), Some(1)));
    assert!(needs_reload(Some(1), Some(2)));
    assert!(!needs_reload(Some(1), None));
}

#[test]
fn limits_can_be_lifted() {
    let mut c = config();
    assert_eq!(c.tool_round_limit(), Some(6));
    c.unlimited_tool_rounds = true;
    assert_eq!(c.tool_round_limit(), None);
    let mut d = config();
    d.apply_config_file(c.snapshot_config_file());
    assert_eq!(d.tool_round_limit(), None);
}

#[test]
fn moving_takes_what_lies_below_along() {
    let mut c = config();
    c.workspace = "/r".to_string();
    c.memory_file = "/r/memory.json".to_string();
    c.skills_dir = "/shared/skills".to_string();
    c.move_to("/w/t".to_string());
    assert_eq!(c.workspace, "/w/t");
    assert_eq!(c.memory_file, "/w/t/memory.json");
    assert_eq!(c.skills_dir, "/shared/skills");
}

#[test]
fn workers_have_their_own_place() {
    let mut master = config();
    master.provider = ProviderKind::Openai;
    master.memory_file = "/r/memory.json".to_string();
    let w = plan_worker("/r/.git/autofix", "/r", "w", "t", 1);
    let mut c = config();
    c.apply_config_file(w.settings(&master));
    assert_eq!(c.role, AgentRole::Worker);
    assert_eq!(c.provider, ProviderKind::Openai);
    assert_eq!(c.workspace, w.workspace);
    assert_eq!(c.task_file, Some(w.task_file));
    assert_eq!(c.worker_id, Some("w-1".to_string()));
    assert_eq!(c.memory_file, "memory.json");
    assert_eq!(c.skills_dir, "skills");
}
