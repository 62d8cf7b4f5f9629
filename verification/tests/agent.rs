use autofix::agent::{
    compose_prompt_with_attachments, default_system_prompt, Agent, InputKind, Next,
    PromptAttachment,
};
use autofix::commands::{
    ends_typing, format_stop_sequences, handle_config_command, model_missing_text, model_set_text,
    onboarding_text, parse_permission_mode, parse_think_mode, run_shell_command, terminal_opening,
    terminal_shell, tui_help_text, tui_model_missing_text, Effect, TuiEffect,
};
use autofix::config::{AgentRole, Config, PermissionMode, ProviderKind, ThinkMode};
use autofix::context::{Context, MemoryEffect, SkillsEffect};
use autofix::json::{key_of, parse_json, text_of};
use autofix::provider::{Message, Role};
use autofix::tools::{approve, ending_of, extract_tool_calls, read_call, Approval};
use autofix::tui::{title_lines, Color, Speaker, TuiState};

fn config(provider: ProviderKind) -> Config {
    Config {
        config_file: "autofix_config.json".to_string(),
        role: AgentRole::Master,
        provider,
        model: Some("m".to_string()),
        base_url: Some("http://host".to_string()),
        api_key: None,
        workspace: "/w".to_string(),
        task_file: None,
        worker_id: None,
        worker_name: None,
        session_id: None,
        resume_session: None,
        memory_file: "/w/memory.json".to_string(),
        skills_dir: "/w/skills".to_string(),
        system: None,
        dangerously_allow_shell: false,
        auto_write: false,
        auto_worktree: false,
        approval_mode: PermissionMode::Ask,
        shell_approval: None,
        write_approval: None,
        max_tool_rounds: 2,
        autonomous: false,
        unlimited_tool_rounds: false,
        think: ThinkMode::Auto,
        hide_thinking: false,
        stop_sequences: vec![],
        active_skills: vec![],
        tui: true,
        full_system_access: false,
        banner_title: "AutoFix".to_string(),
        banner_subtitle: "sub".to_string(),
        banner_tip: "tip".to_string(),
        banner_onboarding: vec![],
    }
}

fn agent() -> Agent {
    Agent::new(config(ProviderKind::Ollama), Context::none())
}

fn info(effect: Effect) -> String {
    match effect {
        Effect::Info(text) => text,
        other => panic!("{other:?}"),
    }
}

fn error(effect: Effect) -> String {
    match effect {
        Effect::Error(text) => text,
        other => panic!("{other:?}"),
    }
}

#[test]
fn agents_begin_with_their_instructions() {
    let a = agent();
    assert_eq!(a.messages.len(), 1);
    assert_eq!(a.messages[0].role, Role::System);
    assert_eq!(a.messages[0].content, default_system_prompt());
    assert!(default_system_prompt().contains("Linux kernel backporting agent"));
    assert_eq!(a.tools.workspace, "/w");
    assert_eq!(a.tools.shell_permission(), PermissionMode::Ask);
    assert!(a.is_tui_enabled() && !a.is_worker_mode());
    let mut c = config(ProviderKind::Openai);
    c.system = Some("be brief".to_string());
    assert_eq!(Agent::new(c, Context::none()).messages[0].content, "be brief");
}

#[test]
fn inputs_are_told_apart() {
    let mut a = agent();
    assert_eq!(a.read_input("  "), InputKind::Blank);
    assert_eq!(a.read_input("/help"), InputKind::Command);
    assert_eq!(a.read_input("!ls"), InputKind::Command);
    assert_eq!(a.read_input("hello"), InputKind::Prompt);
    a.shell_mode = true;
    assert_eq!(a.read_input("ls"), InputKind::Shell);
    assert_eq!(a.read_input("/chat"), InputKind::Command);
}

#[test]
fn attachments_go_with_one_prompt() {
    let mut a = agent();
    assert_eq!(a.attachment_status_text(), None);
    assert_eq!(
        a.attach_file("/w/a.txt".to_string(), "body".to_string()),
        "queued file attachment: /w/a.txt"
    );
    assert_eq!(
        a.attach_image("/w/i.png".to_string(), 12),
        "queued image attachment: /w/i.png (12 bytes)"
    );
    assert_eq!(
        a.attachment_status_text().as_deref(),
        Some("pending prompt attachments: file:/w/a.txt, image:/w/i.png")
    );
    a.ask("go");
    assert_eq!(
        a.messages[1].content,
        "[attached file: /w/a.txt]\n```text\nbody\n```\n\n[attached image: /w/i.png]\nlocal image reference (12 bytes)\n\ngo"
    );
    assert_eq!(a.attachment_status_text(), None);
    a.ask("again");
    assert_eq!(a.messages[2].content, "again");
    assert_eq!(compose_prompt_with_attachments("x", &vec![]), "x");
    let one = PromptAttachment::Image { path: "p".to_string(), size_bytes: 1 };
    assert_eq!(one.summary(), "image:p");
}

#[test]
fn rounds_end_at_their_limit() {
    let mut a = agent();
    a.ask("go");
    let mut exchange = a.begin_exchange();
    let mut rounds = 0;
    loop {
        let next = a.take_answer("<think>x</think>```json\n{\"tool\":\"list_files\"}\n```").unwrap();
        match next {
            Next::Run(calls) => assert_eq!(calls.len(), 1),
            Next::Done | Next::Again => panic!("no call was found"),
        }
        rounds += 1;
        if !a.take_results(&mut exchange, &vec!["one".to_string(), "two".to_string()]) {
            break;
        }
    }
    assert_eq!(rounds, 3);
    assert_eq!(a.messages.len(), 2 + 2 * 3);
    assert_eq!(a.messages[2].content, "```json\n{\"tool\":\"list_files\"}\n```");
    assert_eq!(a.messages[3].content, "Tool result:\none\n\ntwo");
    assert_eq!(a.messages[3].role, Role::User);
}

#[test]
fn plain_answers_end_the_exchange() {
    let mut a = agent();
    assert!(matches!(a.take_answer(" <think>hm</think> done ").unwrap(), Next::Done));
    assert_eq!(a.messages[1].content, "done");
    assert_eq!(a.messages[1].role, Role::Assistant);
    assert!(a.take_answer("```json\nnope\n```").is_err());
    assert_eq!(a.messages.len(), 3);
    assert_eq!(a.keep_answer("<think>x</think>y"), "y");
}

#[test]
fn other_settings_keep_the_conversation() {
    let mut a = agent();
    a.ask("hi");
    let mut c = config(ProviderKind::Gemini);
    c.model = Some("g".to_string());
    c.system = Some("new".to_string());
    c.approval_mode = PermissionMode::Allow;
    a.adopt_config(c, Context::none());
    assert_eq!(a.messages[0].content, "new");
    assert_eq!(a.messages[1].content, "hi");
    assert_eq!(a.provider.model(), "g");
    assert_eq!(a.tools.write_permission(), PermissionMode::Allow);
    a.messages.clear();
    a.adopt_config(config(ProviderKind::Ollama), Context::none());
    assert_eq!(a.messages.len(), 1);
}

#[test]
fn saved_conversations_are_taken_up() {
    let mut a = agent();
    let user = Message { role: Role::User, content: "u".to_string() };
    a.take_up(&vec![user.clone()]);
    assert_eq!(a.messages.len(), 2);
    assert_eq!(a.messages[0].role, Role::System);
    let system = Message { role: Role::System, content: "s".to_string() };
    a.take_up(&vec![system, user]);
    assert_eq!(a.messages[0].content, "s");
    assert_eq!(a.messages.len(), 2);
    a.start_over();
    assert_eq!(a.messages.len(), 1);
    assert_eq!(a.messages[0].content, default_system_prompt());
}

#[test]
fn modes_have_their_words() {
    assert_eq!(parse_think_mode("true"), Some(ThinkMode::On));
    assert_eq!(parse_think_mode("nothink"), Some(ThinkMode::Off));
    assert_eq!(parse_think_mode("high"), Some(ThinkMode::High));
    assert_eq!(parse_think_mode("High"), None);
    assert_eq!(parse_permission_mode("prompt"), Some(PermissionMode::Ask));
    assert_eq!(parse_permission_mode("always"), Some(PermissionMode::Allow));
    assert_eq!(parse_permission_mode("never"), Some(PermissionMode::Deny));
    assert_eq!(parse_permission_mode(""), None);
}

#[test]
fn stop_sequences_are_shown_in_quotes() {
    assert_eq!(format_stop_sequences(&[]), "none");
    assert_eq!(
        format_stop_sequences(&["a\"b".to_string(), "\n".to_string()]),
        r#""a\"b", "\n""#
    );
}

#[test]
fn stop_command_keeps_provider_and_settings_in_step() {
    let mut a = agent();
    assert_eq!(info(a.handle_command("/stop")), "stop sequences: none");
    assert_eq!(info(a.handle_command("/stop add  END ")), "stop sequences: \" END\"");
    assert_eq!(a.provider.stop_sequences(), [" END"]);
    assert_eq!(a.config.stop_sequences, [" END"]);
    assert_eq!(info(a.handle_command("/stop set a, b,,c ")), r#"stop sequences: "a", "b", "c""#);
    assert_eq!(a.config.stop_sequences, ["a", "b", "c"]);
    assert_eq!(info(a.handle_command("/stop clear")), "stop sequences cleared");
    assert!(a.config.stop_sequences.is_empty() && a.provider.stop_sequences().is_empty());
    assert!(error(a.handle_command("/stop add")).starts_with("usage: /stop"));
    assert!(error(a.handle_command("/stop drop x")).starts_with("usage: /stop"));
}

#[test]
fn thinking_command_changes_mode_and_trace() {
    let mut a = agent();
    assert_eq!(info(a.handle_command("/thinking")), "think=Auto show_thinking=true");
    assert!(a.shows_thinking());
    assert_eq!(info(a.handle_command("/thinking off")), "think set to Off");
    assert_eq!(a.provider.think(), ThinkMode::Off);
    assert_eq!(a.config.think, ThinkMode::Off);
    assert!(!a.shows_thinking());
    info(a.handle_command("/thinking on"));
    assert_eq!(info(a.handle_command("/thinking hide")), "thinking trace hidden in the TUI");
    assert!(a.config.hide_thinking && !a.shows_thinking());
    info(a.handle_command("/thinking show"));
    assert!(!a.config.hide_thinking);
    info(a.handle_command("/hide-thinking"));
    assert!(a.config.hide_thinking);
    info(a.handle_command("/show-thinking"));
    assert!(!a.config.hide_thinking);
    assert!(error(a.handle_command("/thinking maybe")).starts_with("usage: /thinking"));
}

#[test]
fn permissions_command_sets_shell_and_write() {
    let mut a = agent();
    assert_eq!(info(a.handle_command("/permissions")), "permissions shell=Ask write=Ask");
    assert_eq!(
        info(a.handle_command("/permissions allow")),
        "shell and write permissions set to Allow"
    );
    assert_eq!(info(a.handle_command("/permissions shell deny")), "shell permission set to Deny");
    assert_eq!(a.tools.write_permission(), PermissionMode::Allow);
    assert_eq!(info(a.handle_command("/permissions write ask")), "write permission set to Ask");
    assert_eq!(a.tools.shell_permission(), PermissionMode::Deny);
    assert_eq!(error(a.handle_command("/permissions x")), "usage: /permissions [ask|allow|deny]");
    assert!(error(a.handle_command("/permissions shell x")).contains("shell [ask|allow|deny]"));
    assert!(error(a.handle_command("/permissions write x")).contains("write [ask|allow|deny]"));
    assert!(error(a.handle_command("/permissions a b c")).starts_with("usage: /permissions,"));
}

#[test]
fn model_commands_ask_the_local_server() {
    let mut a = agent();
    assert!(matches!(a.handle_command("/models"), Effect::ListModels));
    let models = vec!["a".to_string(), "m".to_string()];
    assert_eq!(a.mark_models(&models), ["  a", "* m"]);
    match a.handle_command("/use-model a") {
        Effect::CheckModel { name } => assert_eq!(name, "a"),
        other => panic!("{other:?}"),
    }
    assert!(!a.choose_model("zzz", &models));
    assert_eq!(a.provider.model(), "m");
    assert!(a.choose_model("a", &models));
    assert_eq!(a.provider.model(), "a");
    assert_eq!(a.config.model(), "a");
    assert_eq!(error(a.handle_command("/use-model")), "usage: /use-model <model-name>");
    let mut b = Agent::new(config(ProviderKind::Openai), Context::none());
    assert_eq!(info(b.handle_command("/use-model gpt")), "model set to gpt");
    assert_eq!(b.config.model(), "gpt");
    assert_eq!(
        error(b.handle_command("/models")),
        "/models is available for the Ollama provider"
    );
    assert_eq!(model_set_text("x"), "model set to x");
    assert!(model_missing_text("x").contains("Use /models"));
    assert_eq!(tui_model_missing_text("x"), "model 'x' is not installed locally");
}

#[test]
fn shell_commands_switch_and_run() {
    let mut a = agent();
    info(a.handle_command("/shell"));
    assert!(a.shell_mode);
    assert_eq!(info(a.handle_command("/chat")), "chat mode enabled");
    assert!(!a.shell_mode);
    match a.handle_command("/shell ls -l") {
        Effect::RunShell { command } => assert_eq!(command, "ls -l"),
        other => panic!("{other:?}"),
    }
    match a.handle_command("!! echo hi ") {
        Effect::RunShell { command } => assert_eq!(command, "echo hi"),
        other => panic!("{other:?}"),
    }
    assert_eq!(error(a.handle_command("!")), "no shell command provided");
    assert_eq!(error(run_shell_command("  ")), "no shell command provided");
}

#[test]
fn tool_commands_carry_their_argument() {
    let mut a = agent();
    assert!(matches!(a.handle_command("/exit"), Effect::Quit));
    assert!(matches!(a.handle_command("/quit"), Effect::Quit));
    assert!(matches!(a.handle_command("/help"), Effect::Help));
    assert!(matches!(a.handle_command("/clear"), Effect::Clear));
    assert!(matches!(a.handle_command("/list"), Effect::ListFiles { path: None }));
    assert!(matches!(a.handle_command("/list  src "), Effect::ListFiles { path: Some(p) } if p == "src"));
    assert!(matches!(a.handle_command("/read a b"), Effect::ReadFile { path } if path == "a b"));
    assert!(matches!(a.handle_command("/write x"), Effect::WriteFile { path } if path == "x"));
    assert!(matches!(a.handle_command("/terminal zsh"), Effect::Terminal { shell } if shell == "zsh"));
    assert!(matches!(a.handle_command("/search rust"), Effect::Search { query } if query == "rust"));
    assert_eq!(error(a.handle_command("/search ")), "usage: /search <query>");
    assert!(matches!(a.handle_command("/session list"), Effect::Session { arg } if arg == "list"));
    assert!(matches!(a.handle_command("/history"), Effect::Session { arg } if arg == "history"));
    assert_eq!(error(a.handle_command("/bogus x")), "unknown command: /bogus");
    assert_eq!(a.messages.len(), 1);
}

#[test]
fn provider_command_tells_the_state() {
    let mut a = agent();
    assert_eq!(
        info(a.handle_command("/provider")),
        "provider=Ollama model=m base_url=http://host think=Auto show_thinking=true stops=none permissions=shell:Ask,write:Ask access=workspace"
    );
    assert_eq!(
        a.config_summary(true),
        "config file: autofix_config.json\nloaded: yes\nprovider=Ollama\nmodel=m\nworkspace=/w\nautonomous=false\nmax_tool_rounds=2"
    );
    assert!(a.config_summary(false).contains("loaded: no"));
    assert_eq!(a.reload_summary(), "reloaded config from autofix_config.json");
    assert!(matches!(handle_config_command("show"), Effect::ShowConfig));
    assert!(matches!(handle_config_command(""), Effect::ShowConfig));
    assert!(matches!(handle_config_command("reload"), Effect::ReloadConfig));
    assert_eq!(info(handle_config_command("x")), "usage: /config [show|reload]");
}

#[test]
fn attach_command_is_checked() {
    let mut a = agent();
    assert_eq!(info(a.handle_command("/attach show")), "attachments: none");
    a.attach_image("p".to_string(), 1);
    assert_eq!(info(a.handle_command("/attach show")), "pending prompt attachments: image:p");
    assert_eq!(info(a.handle_command("/attach clear")), "attachments cleared");
    assert!(a.prompt_attachments.is_empty());
    assert_eq!(error(a.handle_command("/attach file")), "usage: /attach file <path>");
    assert_eq!(error(a.handle_command("/attach image ")), "usage: /attach image <path>");
    assert!(error(a.handle_command("/attach")).starts_with("usage: /attach [show"));
    assert!(matches!(a.handle_command("/attach file  a b"), Effect::AttachFile { path } if path == "a b"));
    assert!(matches!(a.handle_command("/attach image i"), Effect::AttachImage { path } if path == "i"));
}

#[test]
fn full_screen_commands_fill_the_transcript() {
    let mut a = agent();
    let mut s = TuiState::new("hi".to_string());
    let mut last = |a: &mut Agent, input: &str| {
        let effect = a.handle_tui_command(input, &mut s);
        let item = s.transcript.last().map(|i| (i.speaker, i.content.clone()));
        (effect, item.unwrap())
    };
    let (effect, item) = last(&mut a, "/help");
    assert!(matches!(effect, TuiEffect::Done));
    assert_eq!(item, (Speaker::System, tui_help_text().to_string()));
    let (_, item) = last(&mut a, "/provider");
    assert!(item.1.starts_with("provider=Ollama\nmodel=m\n"));
    assert!(item.1.ends_with("\naccess=workspace"));
    let (_, item) = last(&mut a, "/thinking");
    assert_eq!(item.1, "think=Auto\nshow_thinking=true");
    let (_, item) = last(&mut a, "/thinking low");
    assert_eq!(item.1, "think=Low");
    let (_, item) = last(&mut a, "/thinking hide");
    assert_eq!(item.1, "thinking trace hidden");
    let (_, item) = last(&mut a, "/thinking show");
    assert_eq!(item.1, "thinking trace visible");
    let (_, item) = last(&mut a, "/thinking x");
    assert_eq!(item.0, Speaker::Error);
    let (_, item) = last(&mut a, "/use-model");
    assert_eq!(item, (Speaker::Error, "usage: /use-model <model>".to_string()));
    let (_, item) = last(&mut a, "/shell");
    assert_eq!(item.1, "unsupported TUI command: /shell. Use /help.");
    let (_, item) = last(&mut a, "/config x");
    assert_eq!(item.1, "usage: /config [show|reload]");
    let (_, item) = last(&mut a, "/attach show");
    assert_eq!(item.1, "attachments: none");
    assert!(matches!(last(&mut a, "/models").0, TuiEffect::ListModels));
    assert!(matches!(last(&mut a, "/use-model x").0, TuiEffect::CheckModel { name } if name == "x"));
    assert!(matches!(last(&mut a, "/config").0, TuiEffect::ShowConfig));
    assert!(matches!(last(&mut a, "/config reload").0, TuiEffect::ReloadConfig));
    assert!(matches!(last(&mut a, "/attach file f").0, TuiEffect::AttachFile { path } if path == "f"));
    assert!(matches!(last(&mut a, "/attach image f").0, TuiEffect::AttachImage { path } if path == "f"));
    assert!(matches!(last(&mut a, "/attach file").0, TuiEffect::Error(_)));
    assert!(matches!(last(&mut a, "/exit").0, TuiEffect::Quit));
    assert!(matches!(a.handle_tui_command("/clear", &mut s), TuiEffect::Done));
    assert!(s.transcript.is_empty());
    let mut b = Agent::new(config(ProviderKind::Openai), Context::none());
    b.handle_tui_command("/models", &mut s);
    b.handle_tui_command("/use-model gpt", &mut s);
    assert_eq!(s.transcript[0].speaker, Speaker::Error);
    assert_eq!(s.transcript[1].content, "model set to gpt");
}

#[test]
fn greetings_warn_of_full_access() {
    let lines = vec!["a".to_string(), "b".to_string()];
    assert_eq!(
        onboarding_text(false, &lines),
        "# Welcome\n- Paste a kernel commit ID, patch context, or target backport task to begin.\n- a\n- b"
    );
    assert!(onboarding_text(true, &lines).contains("WARNING: full system access is enabled."));
    assert!(onboarding_text(false, &vec![]).contains("\n- /search web search\n"));
}

#[test]
fn terminals_open_the_named_shell() {
    assert_eq!(terminal_shell("zsh", Some("bash".to_string())), "zsh");
    assert_eq!(terminal_shell("", Some("bash".to_string())), "bash");
    assert_eq!(terminal_shell("", None), "/bin/sh");
    assert_eq!(
        terminal_opening("sh", "/w"),
        "opening terminal shell `sh` in /w; exit the shell to return"
    );
    assert!(ends_typing(".\n") && ends_typing(". ") && !ends_typing(" .") && !ends_typing(".."));
}

#[test]
fn title_panel_names_the_model() {
    let a = agent();
    let lines = title_lines(&a.config, a.provider.model());
    assert_eq!(lines[0].spans[0].text, "AutoFix");
    assert_eq!(lines[1].spans[2].text, "m");
    assert_eq!(lines[1].spans[4].text, "workspace");
    assert_eq!(lines[1].spans[4].look.fg, Some(Color::Blue));
}

#[test]
fn trusted_agents_are_not_asked() {
    let mut c = config(ProviderKind::Ollama);
    c.full_system_access = true;
    let a = Agent::new(c, Context::none());
    assert_eq!(approve(a.tools.shell_permission, "no"), Approval::Approved);
    assert_eq!(approve(a.tools.write_permission, "no"), Approval::Approved);
    assert_eq!(a.tools.resolve_path("/etc", Ok("/".to_string())).unwrap(), "/etc");
    assert_eq!(approve(agent().tools.shell_permission, "no"), Approval::Cancelled);
}

#[test]
fn workers_stay_in_their_workspace() {
    let mut c = config(ProviderKind::Ollama);
    c.role = AgentRole::Worker;
    c.task_file = Some("task.md".to_string());
    c.full_system_access = true;
    let a = Agent::new(
        c.begin_resolve(Ok("/w".to_string()), None, "sonnet").unwrap(),
        Context::none(),
    );
    assert_eq!(approve(a.tools.shell_permission, "no"), Approval::Approved);
    assert_eq!(approve(a.tools.write_permission, "no"), Approval::Approved);
    assert!(a.tools.resolve_path("/etc", Ok("/".to_string())).is_err());
    assert!(a.tools.resolve_path("..", Ok("/".to_string())).is_err());
    assert!(a.tools.resolve_path("src", Ok("/w".to_string())).is_ok());
}

#[test]
fn requests_follow_the_settings() {
    for kind in [ProviderKind::Ollama, ProviderKind::Openai, ProviderKind::Anthropic] {
        let a = Agent::new(config(kind), Context::none());
        let r = a.provider.request(&a.messages, false);
        assert_eq!(text_of(key_of(Some(&r.body), "model")), Some("m".to_string()));
    }
}

fn context() -> Context {
    Context {
        guide: "obey the tree".to_string(),
        plan: "# PLAN".to_string(),
        notes: vec!["keep context small".to_string(), "ask first".to_string()],
        skills: vec!["# one".to_string(), "  ".to_string(), "# two".to_string()],
    }
}

#[test]
fn agents_are_told_their_context() {
    let mut c = config(ProviderKind::Ollama);
    c.system = Some("be brief".to_string());
    let a = Agent::new(c, context());
    assert_eq!(a.messages.len(), 1);
    assert_eq!(a.messages[0].role, Role::System);
    assert_eq!(
        a.messages[0].content,
        "be brief\n\nWorkspace instructions:\nobey the tree\n\nSession plan:\n# PLAN\n\nMemory notes:\n- keep context small\n- ask first\n\nSkill:\n# one\n\nSkill:\n# two"
    );
}

#[test]
fn memory_changes_what_is_told() {
    let mut a = agent();
    let bare = a.messages[0].content.clone();
    a.ask("hi");
    assert!(matches!(a.handle_memory("add  be kind "), MemoryEffect::Save(t) if t == "memory note added"));
    assert_eq!(a.messages[0].content, format!("{bare}\n\nMemory notes:\n- be kind"));
    assert_eq!(a.messages[1].content, "hi");
    assert!(matches!(a.handle_memory(""), MemoryEffect::Info(t) if t == "memory notes:\n- be kind"));
    assert!(matches!(a.handle_memory("clear"), MemoryEffect::Save(t) if t == "memory cleared"));
    assert_eq!(a.messages[0].content, bare);
    assert!(a.context.notes.is_empty());
}

#[test]
fn skills_are_switched_in_the_settings() {
    let mut a = agent();
    assert!(matches!(a.handle_skills("enable kernel"), SkillsEffect::Save(t) if t == "skill enabled: kernel"));
    assert_eq!(a.config.active_skills, ["kernel"]);
    assert!(matches!(a.handle_skills("disable kernel"), SkillsEffect::Save(t) if t == "skill disabled: kernel"));
    assert!(a.config.active_skills.is_empty());
    a.adopt_context(context());
    assert!(a.messages[0].content.contains("# two"));
}

#[test]
fn unlimited_rounds_never_end() {
    let mut c = config(ProviderKind::Ollama);
    c.unlimited_tool_rounds = true;
    let mut a = Agent::new(c, Context::none());
    let mut exchange = a.begin_exchange();
    for _ in 0..100 {
        assert!(a.take_results(&mut exchange, &vec!["ok".to_string()]));
    }
}

#[test]
fn documented_commands_are_known() {
    let inputs = [
        "/help", "/provider", "/models", "/use-model x", "/clear", "/exit", "/list", "/read a",
        "/write a", "/config", "/config reload", "/memory", "/memory add x", "/skills",
        "/skills list", "/attach show", "/search x", "/session", "/session list", "/history",
        "/interrupt", "/worktree", "/worktree auto", "/agents", "/agents read x", "/shell",
        "/shell ls", "!ls", "/chat", "/exit-shell", "/terminal", "/permissions", "/thinking",
        "/stop",
    ];
    for input in inputs {
        let effect = agent().handle_command(input);
        assert!(
            !matches!(&effect, Effect::Error(t) if t.starts_with("unknown command")),
            "{input}"
        );
    }
    assert!(matches!(agent().handle_command("/memory add a b"), Effect::Memory { arg } if arg == "add a b"));
    assert!(matches!(agent().handle_command("/skills"), Effect::Skills { arg } if arg.is_empty()));
    assert!(matches!(agent().handle_command("/worktree prune"), Effect::Worktree { arg } if arg == "prune"));
    assert!(matches!(agent().handle_command("/agents"), Effect::Agents { .. }));
    assert!(matches!(agent().handle_command("/interrupt"), Effect::Interrupt));
    assert_eq!(error(agent().handle_command("/nothing")), "unknown command: /nothing");
}

#[test]
fn unlimited_work_ends_explicitly() {
    let mut c = config(ProviderKind::Ollama);
    c.unlimited_tool_rounds = true;
    let mut a = Agent::new(c, Context::none());
    assert!(matches!(a.take_answer("just talk"), Ok(Next::Again)));
    a.go_on();
    assert_eq!(a.messages.last().unwrap().role, Role::User);
    assert!(a.messages.last().unwrap().content.starts_with("Continue."));
    let empty = r#"{"type":"tool_calls","calls":[]}"#;
    assert!(matches!(a.take_answer(empty), Ok(Next::Again)));
    let calls = r#"{"type":"tool_calls","calls":[{"tool":"list_workers"}]}"#;
    assert!(matches!(a.take_answer(calls), Ok(Next::Run(list)) if list.len() == 1));
    for end in [
        r#"{"type":"final","summary":"s"}"#,
        r#"{"type":"blocked","reason":"r"}"#,
        r#"{"type":"needs_worker","task":"t"}"#,
        "so:\n```json\n{\"type\":\"final\",\"summary\":\"s\"}\n```",
    ] {
        assert!(matches!(a.take_answer(end), Ok(Next::Done)), "{end}");
    }
    assert!(a.take_answer("```json\n{oops\n```").is_err());
    let mut b = agent();
    assert!(matches!(b.take_answer("just talk"), Ok(Next::Done)));
    assert!(matches!(b.take_answer(empty), Ok(Next::Done)));
}

#[test]
fn prompts_describe_the_protocol() {
    let prompt = default_system_prompt();
    let mut tools = 0;
    let mut ends = 0;
    for line in prompt.lines() {
        if line.starts_with(r#"{"type":"tool_calls""#) {
            assert_eq!(extract_tool_calls(line).unwrap().len(), 2);
        } else if let Some(end) = line.strip_prefix("- {") {
            assert!(ending_of(&format!("{{{end}")).is_some(), "{line}");
            ends += 1;
        } else if let Some((_, example)) = line.split_once(r#": {"tool""#) {
            let value = parse_json(&format!(r#"{{"tool"{example}"#)).unwrap();
            assert!(read_call(&value).is_some(), "{line}");
            tools += 1;
        }
    }
    assert_eq!((tools, ends), (8, 3));
}
