//! Settings: what the command line and the config file say, what they resolve to and
//! what follows from them.
use crate::json::{as_text, at_key, key_of, seen, text_of, Json, JsonModel};
use crate::paths::{
    is_absolute, is_absolute_path, join_path, joined_path, parent, parent_of, relative, relative_to,
};
use crate::sorting::{in_order, sort_texts};
use crate::text::{
    before, begins, char_count, copies, copy_opt, ends, finishes, has_text, holds_text, same,
    starts, texts, trim_end, trim_end_of, CharClass,
};
use vstd::prelude::*;
use vstd::string::*;

verus! {

broadcast use {vstd::seq::group_seq_axioms, vstd::string::group_string_axioms};

/// The services that answer prompts.
#[derive(Debug, Clone, Copy, PartialEq, Eq, Structural)]
pub enum ProviderKind {
    Openai,
    Anthropic,
    Gemini,
    Ollama,
    Openrouter,
    CustomOpenai,
}

/// How much a model is asked to think.
#[derive(Debug, Clone, Copy, PartialEq, Eq, Structural)]
pub enum ThinkMode {
    Auto,
    On,
    Off,
    Low,
    Medium,
    High,
}

/// Whether a risky action is asked about, allowed or denied.
#[derive(Debug, Clone, Copy, PartialEq, Eq, Structural)]
pub enum PermissionMode {
    Ask,
    Allow,
    Deny,
}

/// Whether the process leads a session or serves one.
#[derive(Debug, Clone, Copy, PartialEq, Eq, Structural)]
pub enum AgentRole {
    Master,
    Worker,
}

/// The name of a provider.
pub open spec fn provider_word(value: ProviderKind) -> Seq<char> {
    match value {
        ProviderKind::Openai => "Openai"@,
        ProviderKind::Anthropic => "Anthropic"@,
        ProviderKind::Gemini => "Gemini"@,
        ProviderKind::Ollama => "Ollama"@,
        ProviderKind::Openrouter => "Openrouter"@,
        ProviderKind::CustomOpenai => "CustomOpenai"@,
    }
}

impl ProviderKind {
    /// The name of a provider.
    pub fn name(self) -> (r: &'static str)
        ensures
            r@ == provider_word(self),
    {
        match self {
            ProviderKind::Openai => "Openai",
            ProviderKind::Anthropic => "Anthropic",
            ProviderKind::Gemini => "Gemini",
            ProviderKind::Ollama => "Ollama",
            ProviderKind::Openrouter => "Openrouter",
            ProviderKind::CustomOpenai => "CustomOpenai",
        }
    }
}

/// The name of a way to think.
pub open spec fn think_word(value: ThinkMode) -> Seq<char> {
    match value {
        ThinkMode::Auto => "Auto"@,
        ThinkMode::On => "On"@,
        ThinkMode::Off => "Off"@,
        ThinkMode::Low => "Low"@,
        ThinkMode::Medium => "Medium"@,
        ThinkMode::High => "High"@,
    }
}

impl ThinkMode {
    /// The name of a way to think.
    pub fn name(self) -> (r: &'static str)
        ensures
            r@ == think_word(self),
    {
        match self {
            ThinkMode::Auto => "Auto",
            ThinkMode::On => "On",
            ThinkMode::Off => "Off",
            ThinkMode::Low => "Low",
            ThinkMode::Medium => "Medium",
            ThinkMode::High => "High",
        }
    }
}

/// The name of a permission.
pub open spec fn permission_word(value: PermissionMode) -> Seq<char> {
    match value {
        PermissionMode::Ask => "Ask"@,
        PermissionMode::Allow => "Allow"@,
        PermissionMode::Deny => "Deny"@,
    }
}

impl PermissionMode {
    /// The name of a permission.
    pub fn name(self) -> (r: &'static str)
        ensures
            r@ == permission_word(self),
    {
        match self {
            PermissionMode::Ask => "Ask",
            PermissionMode::Allow => "Allow",
            PermissionMode::Deny => "Deny",
        }
    }
}

/// All settings of a process.
#[derive(Debug, Clone)]
pub struct Config {
    pub config_file: String,
    pub role: AgentRole,
    pub provider: ProviderKind,
    pub model: Option<String>,
    pub base_url: Option<String>,
    pub api_key: Option<String>,
    pub workspace: String,
    pub task_file: Option<String>,
    pub worker_id: Option<String>,
    pub worker_name: Option<String>,
    pub session_id: Option<String>,
    pub resume_session: Option<String>,
    pub memory_file: String,
    pub skills_dir: String,
    pub system: Option<String>,
    pub dangerously_allow_shell: bool,
    pub auto_write: bool,
    pub auto_worktree: bool,
    pub approval_mode: PermissionMode,
    pub shell_approval: Option<PermissionMode>,
    pub write_approval: Option<PermissionMode>,
    pub max_tool_rounds: usize,
    pub autonomous: bool,
    pub unlimited_tool_rounds: bool,
    pub think: ThinkMode,
    pub hide_thinking: bool,
    pub stop_sequences: Vec<String>,
    pub active_skills: Vec<String>,
    pub tui: bool,
    pub full_system_access: bool,
    pub banner_title: String,
    pub banner_subtitle: String,
    pub banner_tip: String,
    pub banner_onboarding: Vec<String>,
}

/// The settings a config file gives. What it leaves out stays as it was.
#[derive(Debug, Clone)]
pub struct ConfigFile {
    pub role: Option<AgentRole>,
    pub provider: Option<ProviderKind>,
    pub model: Option<String>,
    pub base_url: Option<String>,
    pub api_key: Option<String>,
    pub workspace: Option<String>,
    pub task_file: Option<String>,
    pub worker_id: Option<String>,
    pub worker_name: Option<String>,
    pub session_id: Option<String>,
    pub memory_file: Option<String>,
    pub skills_dir: Option<String>,
    pub system: Option<String>,
    pub dangerously_allow_shell: Option<bool>,
    pub auto_write: Option<bool>,
    pub auto_worktree: Option<bool>,
    pub approval_mode: Option<PermissionMode>,
    pub shell_approval: Option<PermissionMode>,
    pub write_approval: Option<PermissionMode>,
    pub max_tool_rounds: Option<usize>,
    pub autonomous: Option<bool>,
    pub unlimited_tool_rounds: Option<bool>,
    pub think: Option<ThinkMode>,
    pub hide_thinking: Option<bool>,
    pub stop_sequences: Option<Vec<String>>,
    pub active_skills: Option<Vec<String>>,
    pub tui: Option<bool>,
    pub full_system_access: Option<bool>,
    pub banner_title: Option<String>,
    pub banner_subtitle: Option<String>,
    pub banner_tip: Option<String>,
    pub banner_onboarding: Option<Vec<String>>,
}

/// A value, or what stood before where none is given.
pub open spec fn given<T>(new: Option<T>, old_value: T) -> T {
    match new {
        Some(value) => value,
        None => old_value,
    }
}

/// An optional value, or what stood before where none is given.
pub open spec fn given_opt<T>(new: Option<T>, old_value: Option<T>) -> Option<T> {
    match new {
        Some(value) => Some(value),
        None => old_value,
    }
}

/// The settings after a config file was read over them: each setting of the file
/// replaces the one before, the others stay.
pub open spec fn overlaid(c: Config, file: ConfigFile) -> Config {
    Config {
        config_file: c.config_file,
        resume_session: c.resume_session,
        role: given(file.role, c.role),
        provider: given(file.provider, c.provider),
        model: given_opt(file.model, c.model),
        base_url: given_opt(file.base_url, c.base_url),
        api_key: given_opt(file.api_key, c.api_key),
        workspace: given(file.workspace, c.workspace),
        task_file: given_opt(file.task_file, c.task_file),
        worker_id: given_opt(file.worker_id, c.worker_id),
        worker_name: given_opt(file.worker_name, c.worker_name),
        session_id: given_opt(file.session_id, c.session_id),
        memory_file: given(file.memory_file, c.memory_file),
        skills_dir: given(file.skills_dir, c.skills_dir),
        system: given_opt(file.system, c.system),
        dangerously_allow_shell: given(file.dangerously_allow_shell, c.dangerously_allow_shell),
        auto_write: given(file.auto_write, c.auto_write),
        auto_worktree: given(file.auto_worktree, c.auto_worktree),
        approval_mode: given(file.approval_mode, c.approval_mode),
        shell_approval: given_opt(file.shell_approval, c.shell_approval),
        write_approval: given_opt(file.write_approval, c.write_approval),
        max_tool_rounds: given(file.max_tool_rounds, c.max_tool_rounds),
        autonomous: given(file.autonomous, c.autonomous),
        unlimited_tool_rounds: given(file.unlimited_tool_rounds, c.unlimited_tool_rounds),
        think: given(file.think, c.think),
        hide_thinking: given(file.hide_thinking, c.hide_thinking),
        stop_sequences: given(file.stop_sequences, c.stop_sequences),
        active_skills: given(file.active_skills, c.active_skills),
        tui: given(file.tui, c.tui),
        full_system_access: given(file.full_system_access, c.full_system_access),
        banner_title: given(file.banner_title, c.banner_title),
        banner_subtitle: given(file.banner_subtitle, c.banner_subtitle),
        banner_tip: given(file.banner_tip, c.banner_tip),
        banner_onboarding: given(file.banner_onboarding, c.banner_onboarding),
    }
}

/// Whether a config file holds the settings of `c`: all that a file can hold but the
/// session, which each process has of its own.
pub open spec fn holds_settings(file: ConfigFile, c: Config) -> bool {
    &&& file.role == Some(c.role)
    &&& file.provider == Some(c.provider)
    &&& file.model == c.model
    &&& file.base_url == c.base_url
    &&& file.api_key == c.api_key
    &&& file.workspace == Some(c.workspace)
    &&& file.task_file == c.task_file
    &&& file.worker_id == c.worker_id
    &&& file.worker_name == c.worker_name
    &&& file.session_id is None
    &&& file.memory_file == Some(c.memory_file)
    &&& file.skills_dir == Some(c.skills_dir)
    &&& file.system == c.system
    &&& file.dangerously_allow_shell == Some(c.dangerously_allow_shell)
    &&& file.auto_write == Some(c.auto_write)
    &&& file.auto_worktree == Some(c.auto_worktree)
    &&& file.approval_mode == Some(c.approval_mode)
    &&& file.shell_approval == c.shell_approval
    &&& file.write_approval == c.write_approval
    &&& file.max_tool_rounds == Some(c.max_tool_rounds)
    &&& file.autonomous == Some(c.autonomous)
    &&& file.unlimited_tool_rounds == Some(c.unlimited_tool_rounds)
    &&& file.think == Some(c.think)
    &&& file.hide_thinking == Some(c.hide_thinking)
    &&& file.stop_sequences matches Some(list) && list@ == c.stop_sequences@
    &&& file.active_skills matches Some(list) && list@ == c.active_skills@
    &&& file.tui == Some(c.tui)
    &&& file.full_system_access == Some(c.full_system_access)
    &&& file.banner_title == Some(c.banner_title)
    &&& file.banner_subtitle == Some(c.banner_subtitle)
    &&& file.banner_tip == Some(c.banner_tip)
    &&& file.banner_onboarding matches Some(list) && list@ == c.banner_onboarding@
}

/// Whether two settings agree in all that a config file can hold, the session aside.
pub open spec fn same_settings(a: Config, b: Config) -> bool {
    &&& a.role == b.role
    &&& a.provider == b.provider
    &&& a.model == b.model
    &&& a.base_url == b.base_url
    &&& a.api_key == b.api_key
    &&& a.workspace == b.workspace
    &&& a.task_file == b.task_file
    &&& a.worker_id == b.worker_id
    &&& a.worker_name == b.worker_name
    &&& a.memory_file == b.memory_file
    &&& a.skills_dir == b.skills_dir
    &&& a.system == b.system
    &&& a.dangerously_allow_shell == b.dangerously_allow_shell
    &&& a.auto_write == b.auto_write
    &&& a.auto_worktree == b.auto_worktree
    &&& a.approval_mode == b.approval_mode
    &&& a.shell_approval == b.shell_approval
    &&& a.write_approval == b.write_approval
    &&& a.max_tool_rounds == b.max_tool_rounds
    &&& a.autonomous == b.autonomous
    &&& a.unlimited_tool_rounds == b.unlimited_tool_rounds
    &&& a.think == b.think
    &&& a.hide_thinking == b.hide_thinking
    &&& a.stop_sequences@ == b.stop_sequences@
    &&& a.active_skills@ == b.active_skills@
    &&& a.tui == b.tui
    &&& a.full_system_access == b.full_system_access
    &&& a.banner_title == b.banner_title
    &&& a.banner_subtitle == b.banner_subtitle
    &&& a.banner_tip == b.banner_tip
    &&& a.banner_onboarding@ == b.banner_onboarding@
}

/// Takes a value over, if there is one.
fn take<T>(slot: &mut T, value: Option<T>)
    ensures
        *final(slot) == given(value, *old(slot)),
{
    if let Some(v) = value {
        *slot = v;
    }
}

/// Takes an optional value over, if there is one.
fn take_opt<T>(slot: &mut Option<T>, value: Option<T>)
    ensures
        *final(slot) == given_opt(value, *old(slot)),
{
    if let Some(v) = value {
        *slot = Some(v);
    }
}

impl Config {
    /// Reads a config file over the settings.
    pub fn apply_config_file(&mut self, file: ConfigFile)
        ensures
            *final(self) == overlaid(*old(self), file),
    {
        take(&mut self.role, file.role);
        take(&mut self.provider, file.provider);
        take_opt(&mut self.model, file.model);
        take_opt(&mut self.base_url, file.base_url);
        take_opt(&mut self.api_key, file.api_key);
        take(&mut self.workspace, file.workspace);
        take_opt(&mut self.task_file, file.task_file);
        take_opt(&mut self.worker_id, file.worker_id);
        take_opt(&mut self.worker_name, file.worker_name);
        take_opt(&mut self.session_id, file.session_id);
        take(&mut self.memory_file, file.memory_file);
        take(&mut self.skills_dir, file.skills_dir);
        take_opt(&mut self.system, file.system);
        take(&mut self.dangerously_allow_shell, file.dangerously_allow_shell);
        take(&mut self.auto_write, file.auto_write);
        take(&mut self.auto_worktree, file.auto_worktree);
        take(&mut self.approval_mode, file.approval_mode);
        take_opt(&mut self.shell_approval, file.shell_approval);
        take_opt(&mut self.write_approval, file.write_approval);
        take(&mut self.max_tool_rounds, file.max_tool_rounds);
        take(&mut self.autonomous, file.autonomous);
        take(&mut self.unlimited_tool_rounds, file.unlimited_tool_rounds);
        take(&mut self.think, file.think);
        take(&mut self.hide_thinking, file.hide_thinking);
        take(&mut self.stop_sequences, file.stop_sequences);
        take(&mut self.active_skills, file.active_skills);
        take(&mut self.tui, file.tui);
        take(&mut self.full_system_access, file.full_system_access);
        take(&mut self.banner_title, file.banner_title);
        take(&mut self.banner_subtitle, file.banner_subtitle);
        take(&mut self.banner_tip, file.banner_tip);
        take(&mut self.banner_onboarding, file.banner_onboarding);
    }

    /// Reads a config file over the settings, if there is one.
    pub fn apply_config_file_if_present(&mut self, file: Option<ConfigFile>)
        ensures
            *final(self) == (match file {
                Some(f) => overlaid(*old(self), f),
                None => *old(self),
            }),
    {
        if let Some(f) = file {
            self.apply_config_file(f);
        }
    }

    /// The settings as a config file.
    pub fn snapshot_config_file(&self) -> (r: ConfigFile)
        ensures
            holds_settings(r, *self),
    {
        ConfigFile {
            role: Some(self.role),
            provider: Some(self.provider),
            model: copy_opt(&self.model),
            base_url: copy_opt(&self.base_url),
            api_key: copy_opt(&self.api_key),
            workspace: Some(self.workspace.clone()),
            task_file: copy_opt(&self.task_file),
            worker_id: copy_opt(&self.worker_id),
            worker_name: copy_opt(&self.worker_name),
            session_id: None,
            memory_file: Some(self.memory_file.clone()),
            skills_dir: Some(self.skills_dir.clone()),
            system: copy_opt(&self.system),
            dangerously_allow_shell: Some(self.dangerously_allow_shell),
            auto_write: Some(self.auto_write),
            auto_worktree: Some(self.auto_worktree),
            approval_mode: Some(self.approval_mode),
            shell_approval: self.shell_approval,
            write_approval: self.write_approval,
            max_tool_rounds: Some(self.max_tool_rounds),
            autonomous: Some(self.autonomous),
            unlimited_tool_rounds: Some(self.unlimited_tool_rounds),
            think: Some(self.think),
            hide_thinking: Some(self.hide_thinking),
            stop_sequences: Some(copies(&self.stop_sequences)),
            active_skills: Some(copies(&self.active_skills)),
            tui: Some(self.tui),
            full_system_access: Some(self.full_system_access),
            banner_title: Some(self.banner_title.clone()),
            banner_subtitle: Some(self.banner_subtitle.clone()),
            banner_tip: Some(self.banner_tip.clone()),
            banner_onboarding: Some(copies(&self.banner_onboarding)),
        }
    }
}


// ---------------------------------------------------------------------------
// What the settings mean
// ---------------------------------------------------------------------------

/// How shell commands are approved.
pub open spec fn shell_mode(c: Config) -> PermissionMode {
    if c.full_system_access || c.dangerously_allow_shell {
        PermissionMode::Allow
    } else {
        given(c.shell_approval, c.approval_mode)
    }
}

/// How writes are approved.
pub open spec fn write_mode(c: Config) -> PermissionMode {
    if c.full_system_access || c.auto_write {
        PermissionMode::Allow
    } else {
        given(c.write_approval, c.approval_mode)
    }
}

/// The number of tool rounds that one prompt may take.
pub open spec fn tool_rounds(c: Config) -> nat {
    if c.autonomous && c.max_tool_rounds < 50 {
        50
    } else {
        c.max_tool_rounds as nat
    }
}

/// The number of tool rounds that one prompt may take, where there is a limit.
pub open spec fn round_limit(c: Config) -> Option<nat> {
    if c.unlimited_tool_rounds {
        None
    } else {
        Some(tool_rounds(c))
    }
}

/// The lines that greet a user who configured none.
pub open spec fn default_onboarding() -> Seq<Seq<char>> {
    seq![
        "/help commands"@,
        "/models local models"@,
        "/search web search"@,
        "/agents spawn task isolation"@,
        "/permissions safety"@,
        "/terminal real shell"@,
        "/exit quit"@,
    ]
}

/// The path of the config file of earlier releases, beside the one in use.
pub open spec fn legacy_path(config_file: Seq<char>) -> Seq<char> {
    match parent(config_file) {
        Some(dir) => joined_path(dir, "config.json"@),
        None => "config.json"@,
    }
}

impl Config {
    /// The model, once it is resolved.
    pub fn model(&self) -> (r: &str)
        requires
            self.model is Some,
        ensures
            r@ == self.model->0@,
    {
        match &self.model {
            Some(model) => model.as_str(),
            None => "",
        }
    }

    /// The address of the provider, once it is resolved.
    pub fn base_url(&self) -> (r: &str)
        requires
            self.base_url is Some,
        ensures
            r@ == self.base_url->0@,
    {
        match &self.base_url {
            Some(url) => url.as_str(),
            None => "",
        }
    }

    /// Whether traces of thinking are shown.
    pub fn show_thinking(&self) -> (r: bool)
        ensures
            r == !self.hide_thinking,
    {
        !self.hide_thinking
    }

    /// Whether the process serves a session.
    pub fn is_worker(&self) -> (r: bool)
        ensures
            r == (self.role == AgentRole::Worker),
    {
        self.role == AgentRole::Worker
    }

    /// How shell commands are approved.
    pub fn shell_permission(&self) -> (r: PermissionMode)
        ensures
            r == shell_mode(*self),
            self.full_system_access || self.dangerously_allow_shell ==> r == PermissionMode::Allow,
            !self.full_system_access && !self.dangerously_allow_shell ==> (
            self.shell_approval matches Some(mode) ==> r == mode) && (self.shell_approval is None
                ==> r == self.approval_mode),
    {
        if self.full_system_access || self.dangerously_allow_shell {
            PermissionMode::Allow
        } else {
            match self.shell_approval {
                Some(mode) => mode,
                None => self.approval_mode,
            }
        }
    }

    /// How writes are approved.
    pub fn write_permission(&self) -> (r: PermissionMode)
        ensures
            r == write_mode(*self),
            self.full_system_access || self.auto_write ==> r == PermissionMode::Allow,
            !self.full_system_access && !self.auto_write ==> (self.write_approval matches Some(mode)
                ==> r == mode) && (self.write_approval is None ==> r == self.approval_mode),
    {
        if self.full_system_access || self.auto_write {
            PermissionMode::Allow
        } else {
            match self.write_approval {
                Some(mode) => mode,
                None => self.approval_mode,
            }
        }
    }

    /// What the interface calls the reach of the tools.
    pub fn access_label(&self) -> (r: &'static str)
        ensures
            r@ == access_name(self.full_system_access),
    {
        if self.full_system_access {
            "full-system"
        } else {
            "workspace"
        }
    }

    /// The lines that greet the user.
    pub fn banner_onboarding(&self) -> (r: Vec<String>)
        ensures
            texts(r@) == (if self.banner_onboarding@.len() == 0 {
                default_onboarding()
            } else {
                texts(self.banner_onboarding@)
            }),
    {
        if self.banner_onboarding.len() == 0 {
            let mut lines: Vec<String> = Vec::new();
            lines.push("/help commands".to_owned());
            lines.push("/models local models".to_owned());
            lines.push("/search web search".to_owned());
            lines.push("/agents spawn task isolation".to_owned());
            lines.push("/permissions safety".to_owned());
            lines.push("/terminal real shell".to_owned());
            lines.push("/exit quit".to_owned());
            assert(texts(lines@) =~= default_onboarding());
            lines
        } else {
            copies(&self.banner_onboarding)
        }
    }

    /// The number of tool rounds that one prompt may take.
    pub fn effective_max_tool_rounds(&self) -> (r: usize)
        ensures
            r == tool_rounds(*self),
    {
        if self.autonomous && self.max_tool_rounds < 50 {
            50
        } else {
            self.max_tool_rounds
        }
    }

    /// The number of tool rounds that one prompt may take, where there is a limit.
    pub fn tool_round_limit(&self) -> (r: Option<usize>)
        ensures
            match r {
                Some(n) => round_limit(*self) == Some(n as nat),
                None => round_limit(*self) is None,
            },
    {
        if self.unlimited_tool_rounds {
            None
        } else {
            Some(self.effective_max_tool_rounds())
        }
    }

    /// The file of persistent notes.
    pub fn memory_file(&self) -> (r: &String)
        ensures
            *r == self.memory_file,
    {
        &self.memory_file
    }

    /// The directory of skills.
    pub fn skills_dir(&self) -> (r: &String)
        ensures
            *r == self.skills_dir,
    {
        &self.skills_dir
    }

    /// The names of the active skills.
    pub fn active_skills(&self) -> (r: &[String])
        ensures
            r@ == self.active_skills@,
    {
        self.active_skills.as_slice()
    }

    /// Replaces the active skills.
    pub fn set_active_skills(&mut self, skills: Vec<String>)
        ensures
            *final(self) == (Config { active_skills: skills, ..*old(self) }),
    {
        self.active_skills = skills;
    }

    /// A path as it stands, or as seen from the workspace where it is relative.
    pub fn resolve_workspace_path(&self, path: &String) -> (r: String)
        ensures
            r@ == joined_path(self.workspace@, path@),
    {
        if is_absolute(path) {
            path.clone()
        } else {
            join_path(&self.workspace, path)
        }
    }

    /// The path of the config file of earlier releases.
    pub fn legacy_config_file(&self) -> (r: String)
        ensures
            r@ == legacy_path(self.config_file@),
    {
        match parent_of(&self.config_file) {
            Some(dir) => join_path(&dir, "config.json"),
            None => "config.json".to_owned(),
        }
    }

    /// Whether there is a config file, given whether the one in use and the one of
    /// earlier releases exist.
    pub fn config_file_exists(&self, primary: bool, legacy: bool) -> (r: bool)
        ensures
            r == (primary || legacy),
    {
        primary || legacy
    }

    /// The config file to read, given which of the two exist.
    pub fn config_path(&self, primary: bool, legacy: bool) -> (r: Option<String>)
        ensures
            r is None <==> !primary && !legacy,
            primary ==> r == Some(self.config_file),
            !primary && legacy ==> r->0@ == legacy_path(self.config_file@),
    {
        if primary {
            Some(self.config_file.clone())
        } else if legacy {
            Some(self.legacy_config_file())
        } else {
            None
        }
    }
}

/// What the interface calls the reach of the tools.
pub open spec fn access_name(full: bool) -> Seq<char> {
    if full {
        "full-system"@
    } else {
        "workspace"@
    }
}

// ---------------------------------------------------------------------------
// Resolving
// ---------------------------------------------------------------------------

/// Why settings cannot be resolved.
#[derive(Debug)]
pub enum ConfigError {
    /// The workspace cannot be reached, with what the system said.
    WorkspaceInaccessible { workspace: String, reason: String },
    /// A worker was given no task.
    MissingTaskFile,
    /// The provider needs a key and none was given.
    MissingApiKey,
    /// A custom provider was given no address.
    MissingBaseUrl,
    /// A custom provider was given no model.
    MissingModel,
    /// The local server has no model to offer.
    NoLocalModels,
}

/// What the user reads of an error.
pub open spec fn config_error_text(e: ConfigError) -> Seq<char> {
    match e {
        ConfigError::WorkspaceInaccessible { workspace, reason } => "workspace '"@ + workspace@
            + "' is not accessible: "@ + reason@,
        ConfigError::MissingTaskFile => "worker mode requires --task-file"@,
        ConfigError::MissingApiKey =>
            "missing API key; pass --api-key or set the provider-specific env var"@,
        ConfigError::MissingBaseUrl => "--base-url is required for custom-openai"@,
        ConfigError::MissingModel => "--model is required for custom-openai"@,
        ConfigError::NoLocalModels =>
            "Ollama is running but has no local models. Pull one first, for example: ollama pull lfm"@,
    }
}

impl ConfigError {
    /// What the user reads of the error.
    pub fn message(&self) -> (r: String)
        ensures
            r@ == config_error_text(*self),
    {
        match self {
            ConfigError::WorkspaceInaccessible { workspace, reason } => {
                let mut out = "workspace '".to_owned();
                out.append(workspace.as_str());
                out.append("' is not accessible: ");
                out.append(reason.as_str());
                out
            },
            ConfigError::MissingTaskFile => "worker mode requires --task-file".to_owned(),
            ConfigError::MissingApiKey => {
                "missing API key; pass --api-key or set the provider-specific env var".to_owned()
            },
            ConfigError::MissingBaseUrl => "--base-url is required for custom-openai".to_owned(),
            ConfigError::MissingModel => "--model is required for custom-openai".to_owned(),
            ConfigError::NoLocalModels => {
                "Ollama is running but has no local models. Pull one first, for example: ollama pull lfm".to_owned()
            },
        }
    }
}

/// The environment variable that holds the key of a provider.
pub open spec fn key_variable(kind: ProviderKind) -> Option<Seq<char>> {
    match kind {
        ProviderKind::Openai => Some("OPENAI_API_KEY"@),
        ProviderKind::Anthropic => Some("ANTHROPIC_API_KEY"@),
        ProviderKind::Gemini => Some("GEMINI_API_KEY"@),
        ProviderKind::Openrouter => Some("OPENROUTER_API_KEY"@),
        ProviderKind::CustomOpenai => Some("CUSTOM_API_KEY"@),
        ProviderKind::Ollama => None,
    }
}

/// The address of a provider, where it has one of its own.
pub open spec fn home_url(kind: ProviderKind) -> Option<Seq<char>> {
    match kind {
        ProviderKind::Openai => Some("https://api.openai.com/v1/chat/completions"@),
        ProviderKind::Anthropic => Some("https://api.anthropic.com/v1/messages"@),
        ProviderKind::Gemini => Some("https://generativelanguage.googleapis.com/v1beta"@),
        ProviderKind::Ollama => Some("http://localhost:11434/api/chat"@),
        ProviderKind::Openrouter => Some("https://openrouter.ai/api/v1/chat/completions"@),
        ProviderKind::CustomOpenai => None,
    }
}

/// The model of a provider that is taken unless another is named, given the one that is
/// usual with Anthropic.
pub open spec fn usual_model(kind: ProviderKind, anthropic: Seq<char>) -> Option<Seq<char>> {
    match kind {
        ProviderKind::Openai => Some("gpt-4.1-mini"@),
        ProviderKind::Anthropic => Some(anthropic),
        ProviderKind::Gemini => Some("gemini-1.5-pro"@),
        ProviderKind::Openrouter => Some("openai/gpt-4.1-mini"@),
        ProviderKind::Ollama => None,
        ProviderKind::CustomOpenai => None,
    }
}

/// An optional text as characters.
pub open spec fn opt_text(s: Option<String>) -> Option<Seq<char>> {
    match s {
        Some(t) => Some(t@),
        None => None,
    }
}

fn owned(s: Option<&'static str>) -> (r: Option<String>)
    ensures
        s is Some <==> r is Some,
        s is Some ==> r->0@ == s->0@,
{
    match s {
        Some(t) => Some(t.to_owned()),
        None => None,
    }
}

impl ProviderKind {
    /// The environment variable that holds the key of the provider.
    pub fn api_key_variable(self) -> (r: Option<&'static str>)
        ensures
            r is Some <==> key_variable(self) is Some,
            r is Some ==> key_variable(self) == Some(r->0@),
    {
        match self {
            ProviderKind::Openai => Some("OPENAI_API_KEY"),
            ProviderKind::Anthropic => Some("ANTHROPIC_API_KEY"),
            ProviderKind::Gemini => Some("GEMINI_API_KEY"),
            ProviderKind::Openrouter => Some("OPENROUTER_API_KEY"),
            ProviderKind::CustomOpenai => Some("CUSTOM_API_KEY"),
            ProviderKind::Ollama => None,
        }
    }

    /// The address of the provider, where it has one of its own.
    pub fn default_base_url(self) -> (r: Option<&'static str>)
        ensures
            r is Some <==> home_url(self) is Some,
            r is Some ==> home_url(self) == Some(r->0@),
    {
        match self {
            ProviderKind::Openai => Some("https://api.openai.com/v1/chat/completions"),
            ProviderKind::Anthropic => Some("https://api.anthropic.com/v1/messages"),
            ProviderKind::Gemini => Some("https://generativelanguage.googleapis.com/v1beta"),
            ProviderKind::Ollama => Some("http://localhost:11434/api/chat"),
            ProviderKind::Openrouter => Some("https://openrouter.ai/api/v1/chat/completions"),
            ProviderKind::CustomOpenai => None,
        }
    }

    /// The model that is taken unless another is named, given the one that is usual with
    /// Anthropic.
    pub fn default_model(self, anthropic: &str) -> (r: Option<String>)
        ensures
            opt_text(r) == usual_model(self, anthropic@),
    {
        match self {
            ProviderKind::Openai => Some("gpt-4.1-mini".to_owned()),
            ProviderKind::Anthropic => Some(anthropic.to_owned()),
            ProviderKind::Gemini => Some("gemini-1.5-pro".to_owned()),
            ProviderKind::Openrouter => Some("openai/gpt-4.1-mini".to_owned()),
            ProviderKind::Ollama => None,
            ProviderKind::CustomOpenai => None,
        }
    }
}

/// The key that is used: the one given, or the one that the environment holds for a
/// provider that needs one.
pub open spec fn key_in_use(c: Config, variable: Option<String>) -> Option<String> {
    if c.api_key is Some || c.provider == ProviderKind::Ollama {
        c.api_key
    } else {
        variable
    }
}

/// What keeps settings with a workspace that can be reached from being resolved.
pub open spec fn config_fault(c: Config, variable: Option<String>) -> Option<ConfigError> {
    if c.role == AgentRole::Worker && c.task_file is None {
        Some(ConfigError::MissingTaskFile)
    } else if c.provider != ProviderKind::Ollama && key_in_use(c, variable) is None {
        Some(ConfigError::MissingApiKey)
    } else if c.base_url is None && home_url(c.provider) is None {
        Some(ConfigError::MissingBaseUrl)
    } else if c.model is None && c.provider == ProviderKind::CustomOpenai {
        Some(ConfigError::MissingModel)
    } else {
        None
    }
}

/// What a worker may do: it works alone, in its workspace, without asking.
pub open spec fn confined(c: Config) -> bool {
    &&& !c.tui
    &&& !c.auto_worktree
    &&& c.autonomous
    &&& !c.full_system_access
    &&& !c.dangerously_allow_shell
    &&& !c.auto_write
    &&& c.shell_approval == Some(PermissionMode::Allow)
    &&& c.write_approval == Some(PermissionMode::Allow)
}

/// What a worker's settings are taken from: its own restrictions, and for the master
/// the settings themselves.
pub open spec fn same_rights(a: Config, b: Config) -> bool {
    &&& a.tui == b.tui
    &&& a.auto_worktree == b.auto_worktree
    &&& a.autonomous == b.autonomous
    &&& a.full_system_access == b.full_system_access
    &&& a.dangerously_allow_shell == b.dangerously_allow_shell
    &&& a.auto_write == b.auto_write
    &&& a.shell_approval == b.shell_approval
    &&& a.write_approval == b.write_approval
}

/// Whether `a` is `c` resolved as far as no list of models is needed, in a workspace
/// whose true path is `workspace`.
pub open spec fn settled_from(
    c: Config,
    workspace: Seq<char>,
    variable: Option<String>,
    anthropic: Seq<char>,
    a: Config,
) -> bool {
    &&& a.workspace@ == workspace
    &&& a.memory_file@ == joined_path(workspace, c.memory_file@)
    &&& a.skills_dir@ == joined_path(workspace, c.skills_dir@)
    &&& opt_text(a.task_file) == (match c.task_file {
        Some(path) => Some(joined_path(workspace, path@)),
        None => None,
    })
    &&& if c.role == AgentRole::Worker {
        confined(a)
    } else {
        same_rights(a, c)
    }
    &&& a.api_key == key_in_use(c, variable)
    &&& opt_text(a.base_url) == (match c.base_url {
        Some(url) => Some(url@),
        None => home_url(c.provider),
    })
    &&& opt_text(a.model) == (match c.model {
        Some(model) => Some(model@),
        None => usual_model(c.provider, anthropic),
    })
    &&& a.config_file == c.config_file
    &&& a.role == c.role
    &&& a.provider == c.provider
    &&& a.worker_id == c.worker_id
    &&& a.worker_name == c.worker_name
    &&& a.session_id == c.session_id
    &&& a.resume_session == c.resume_session
    &&& a.system == c.system
    &&& a.approval_mode == c.approval_mode
    &&& a.max_tool_rounds == c.max_tool_rounds
    &&& a.unlimited_tool_rounds == c.unlimited_tool_rounds
    &&& a.think == c.think
    &&& a.hide_thinking == c.hide_thinking
    &&& a.stop_sequences == c.stop_sequences
    &&& a.active_skills == c.active_skills
    &&& a.banner_title == c.banner_title
    &&& a.banner_subtitle == c.banner_subtitle
    &&& a.banner_tip == c.banner_tip
    &&& a.banner_onboarding == c.banner_onboarding
}

impl Config {
    /// Resolves the settings as far as no list of models is needed. `workspace` is the
    /// true path of the workspace, or what the system said instead; `variable` is the
    /// key that the environment holds for the provider.
    pub fn begin_resolve(
        self,
        workspace: Result<String, String>,
        variable: Option<String>,
        anthropic: &str,
    ) -> (r: Result<Config, ConfigError>)
        ensures
            match workspace {
                Err(reason) => r == Err::<Config, ConfigError>(
                    ConfigError::WorkspaceInaccessible { workspace: self.workspace, reason },
                ),
                Ok(path) => match config_fault(self, variable) {
                    Some(e) => r == Err::<Config, ConfigError>(e),
                    None => r is Ok && settled_from(self, path@, variable, anthropic@, r->Ok_0),
                },
            },
    {
        let mut c = self;
        let path = match workspace {
            Ok(path) => path,
            Err(reason) => {
                return Err(
                    ConfigError::WorkspaceInaccessible { workspace: c.workspace, reason },
                );
            },
        };
        c.workspace = path;
        c.memory_file = c.resolve_workspace_path(&c.memory_file);
        c.skills_dir = c.resolve_workspace_path(&c.skills_dir);
        let task = match &c.task_file {
            Some(task) => Some(c.resolve_workspace_path(task)),
            None => None,
        };
        c.task_file = task;
        if c.is_worker() {
            c.tui = false;
            c.auto_worktree = false;
            c.autonomous = true;
            c.full_system_access = false;
            c.dangerously_allow_shell = false;
            c.auto_write = false;
            c.shell_approval = Some(PermissionMode::Allow);
            c.write_approval = Some(PermissionMode::Allow);
            if c.task_file.is_none() {
                return Err(ConfigError::MissingTaskFile);
            }
        }
        if c.provider != ProviderKind::Ollama {
            if c.api_key.is_none() {
                c.api_key = variable;
            }
            if c.api_key.is_none() {
                return Err(ConfigError::MissingApiKey);
            }
        }
        if c.base_url.is_none() {
            c.base_url = owned(c.provider.default_base_url());
            if c.base_url.is_none() {
                return Err(ConfigError::MissingBaseUrl);
            }
        }
        if c.model.is_none() {
            c.model = c.provider.default_model(anthropic);
            if c.provider == ProviderKind::CustomOpenai {
                return Err(ConfigError::MissingModel);
            }
        }
        Ok(c)
    }

    /// Whether a model has still to be picked from those that the local server has.
    pub fn needs_local_model(&self) -> (r: bool)
        ensures
            r == (self.model is None && self.provider == ProviderKind::Ollama),
    {
        self.model.is_none() && self.provider == ProviderKind::Ollama
    }

    /// Resolves what is left: the model, from those that the local server has.
    pub fn finish_resolve(self, models: &Vec<String>) -> (r: Result<Config, ConfigError>)
        requires
            self.model is None,
        ensures
            match r {
                Ok(c) => models@.len() > 0 && opt_text(c.model) == Some(picked(texts(models@)))
                    && c == (Config { model: c.model, ..self }),
                Err(e) => models@.len() == 0 && e == ConfigError::NoLocalModels,
            },
    {
        let mut c = self;
        match pick_ollama_model(models) {
            Ok(model) => {
                c.model = Some(model);
                Ok(c)
            },
            Err(e) => Err(e),
        }
    }
}

// ---------------------------------------------------------------------------
// Local models
// ---------------------------------------------------------------------------

/// How well the name of a model fits the family that is taken by default.
#[derive(Clone, Copy)]
enum Fit {
    Exact,
    Tagged,
    Within,
}

/// The names that are `lfm`.
pub open spec fn is_lfm(name: Seq<char>) -> bool {
    name == "lfm"@
}

/// The names that are `lfm` with a tag.
pub open spec fn is_tagged_lfm(name: Seq<char>) -> bool {
    begins(name, "lfm:"@)
}

/// The names that hold `lfm`.
pub open spec fn names_lfm(name: Seq<char>) -> bool {
    holds_text(name, "lfm"@)
}

/// The first name in a list that satisfies `p`.
pub open spec fn first_that(names: Seq<Seq<char>>, p: spec_fn(Seq<char>) -> bool) -> Option<
    Seq<char>,
>
    decreases names.len(),
{
    if names.len() == 0 {
        None
    } else if p(names[0]) {
        Some(names[0])
    } else {
        first_that(names.skip(1), p)
    }
}

/// The model that is taken from a list: the first that is `lfm`, else the first that is
/// `lfm` with a tag, else the first that holds `lfm`, else the first.
pub open spec fn picked(names: Seq<Seq<char>>) -> Seq<char> {
    match first_that(names, |n: Seq<char>| is_lfm(n)) {
        Some(name) => name,
        None => match first_that(names, |n: Seq<char>| is_tagged_lfm(n)) {
            Some(name) => name,
            None => match first_that(names, |n: Seq<char>| names_lfm(n)) {
                Some(name) => name,
                None => names[0],
            },
        },
    }
}

impl Fit {
    spec fn takes(self) -> spec_fn(Seq<char>) -> bool {
        match self {
            Fit::Exact => |n: Seq<char>| is_lfm(n),
            Fit::Tagged => |n: Seq<char>| is_tagged_lfm(n),
            Fit::Within => |n: Seq<char>| names_lfm(n),
        }
    }

    fn admits(self, name: &str) -> (r: bool)
        ensures
            r == (self.takes())(name@),
    {
        match self {
            Fit::Exact => same(name, "lfm"),
            Fit::Tagged => starts(name, "lfm:"),
            Fit::Within => has_text(name, "lfm"),
        }
    }
}

fn first_fit(models: &Vec<String>, fit: Fit) -> (r: Option<String>)
    ensures
        opt_text(r) == first_that(texts(models@), fit.takes()),
{
    let mut i: usize = 0;
    let ghost all = texts(models@);
    assert(all.skip(0) =~= all);
    while i < models.len()
        invariant
            i <= models@.len(),
            all == texts(models@),
            first_that(all, fit.takes()) == first_that(all.skip(i as int), fit.takes()),
        decreases models@.len() - i,
    {
        assert(all.skip(i as int)[0] == models@[i as int]@);
        assert(all.skip(i as int).skip(1) =~= all.skip(i + 1));
        if fit.admits(&models[i]) {
            return Some(models[i].clone());
        }
        i += 1;
    }
    None
}

/// The model that is taken from those that the local server has.
pub fn pick_ollama_model(models: &Vec<String>) -> (r: Result<String, ConfigError>)
    ensures
        match r {
            Ok(model) => models@.len() > 0 && model@ == picked(texts(models@)),
            Err(e) => models@.len() == 0 && e == ConfigError::NoLocalModels,
        },
{
    if models.len() == 0 {
        return Err(ConfigError::NoLocalModels);
    }
    if let Some(model) = first_fit(models, Fit::Exact) {
        return Ok(model);
    }
    if let Some(model) = first_fit(models, Fit::Tagged) {
        return Ok(model);
    }
    if let Some(model) = first_fit(models, Fit::Within) {
        return Ok(model);
    }
    Ok(models[0].clone())
}

/// The names in a list of models; nothing where one of them has none.
pub open spec fn model_names(models: Seq<JsonModel>) -> Option<Seq<Seq<char>>>
    decreases models.len(),
{
    if models.len() == 0 {
        Some(seq![])
    } else {
        match (model_names(models.drop_last()), as_text(at_key(models.last(), "name"@))) {
            (Some(names), Some(name)) => Some(names.push(name)),
            _ => None,
        }
    }
}

/// The names in the reply of the local server; nothing where it is no list of models.
pub open spec fn tag_names(tags: JsonModel) -> Option<Seq<Seq<char>>> {
    match at_key(tags, "models"@) {
        JsonModel::Array(models) => model_names(models),
        _ => None,
    }
}

proof fn lemma_no_names(models: Seq<JsonModel>, n: int)
    requires
        0 <= n <= models.len(),
        model_names(models.take(n)) is None,
    ensures
        model_names(models) is None,
    decreases models.len() - n,
{
    if n < models.len() {
        assert(models.take(n + 1).drop_last() =~= models.take(n));
        lemma_no_names(models, n + 1);
    } else {
        assert(models.take(n) =~= models);
    }
}

fn names_of_models(models: &Vec<Json>) -> (r: Option<Vec<String>>)
    ensures
        match r {
            Some(names) => model_names(Json::Array(*models)@->Array_0) == Some(texts(names@)),
            None => model_names(Json::Array(*models)@->Array_0) is None,
        },
{
    let ghost all = Json::Array(*models)@->Array_0;
    let mut names: Vec<String> = Vec::new();
    let mut i: usize = 0;
    assert(all.take(0) =~= seq![]);
    assert(texts(names@) =~= seq![]);
    while i < models.len()
        invariant
            i <= models@.len(),
            all == Json::Array(*models)@->Array_0,
            all.len() == models@.len(),
            forall|j: int| 0 <= j < all.len() ==> #[trigger] all[j] == models@[j]@,
            model_names(all.take(i as int)) == Some(texts(names@)),
        decreases models@.len() - i,
    {
        let ghost had = texts(names@);
        assert(all.take(i + 1).drop_last() =~= all.take(i as int));
        assert(all.take(i + 1).last() == all[i as int]);
        match text_of(key_of(Some(&models[i]), "name")) {
            Some(name) => {
                let ghost n = name@;
                names.push(name);
                assert(texts(names@) =~= had.push(n));
            },
            None => {
                proof {
                    lemma_no_names(all, i + 1);
                }
                return None;
            },
        }
        i += 1;
    }
    assert(all.take(all.len() as int) =~= all);
    Some(names)
}

/// The models that the local server has, in order, given its reply; nothing where the
/// reply is no list of models.
pub fn list_ollama_models(tags: &Json) -> (r: Option<Vec<String>>)
    ensures
        match r {
            Some(names) => tag_names(tags@) matches Some(found) && in_order(texts(names@))
                && texts(names@).to_multiset() == found.to_multiset(),
            None => tag_names(tags@) is None,
        },
{
    match key_of(Some(tags), "models") {
        Some(Json::Array(models)) => match names_of_models(models) {
            Some(names) => Some(sort_texts(names)),
            None => None,
        },
        _ => None,
    }
}

/// Where the local server lists its models, seen from where it chats.
pub open spec fn tags_url(base_url: Seq<char>) -> Seq<char> {
    if ends(base_url, "/api/chat"@) {
        base_url.take(base_url.len() - "/api/chat"@.len()) + "/api/tags"@
    } else {
        trim_end(base_url, CharClass::Is('/')) + "/api/tags"@
    }
}

/// Where the local server lists its models, seen from where it chats.
pub fn ollama_tags_url(base_url: &str) -> (r: String)
    ensures
        r@ == tags_url(base_url@),
{
    if finishes(base_url, "/api/chat") {
        let n: usize = char_count(base_url) - char_count("/api/chat");
        let mut out = before(base_url, n);
        out.append("/api/tags");
        out
    } else {
        let mut out = trim_end_of(base_url, CharClass::Is('/'));
        out.append("/api/tags");
        out
    }
}

/// A path of one workspace as it is in another: one that lies below the workspace moves
/// with it.
pub open spec fn relocated(path: Seq<char>, from: Seq<char>, to: Seq<char>) -> Seq<char> {
    match relative(path, from) {
        Some(rest) => joined_path(to, rest),
        None => path,
    }
}

fn relocate(path: &str, from: &str, to: &str) -> (r: String)
    ensures
        r@ == relocated(path@, from@, to@),
{
    match relative_to(path, from) {
        Some(rest) => join_path(to, &rest),
        None => path.to_owned(),
    }
}

impl Config {
    /// Moves to another workspace, with the notes and the skills where they lie below the
    /// one before.
    pub fn move_to(&mut self, workspace: String)
        ensures
            final(self).workspace == workspace,
            final(self).memory_file@ == relocated(
                old(self).memory_file@,
                old(self).workspace@,
                workspace@,
            ),
            final(self).skills_dir@ == relocated(
                old(self).skills_dir@,
                old(self).workspace@,
                workspace@,
            ),
            *final(self) == (Config {
                workspace: final(self).workspace,
                memory_file: final(self).memory_file,
                skills_dir: final(self).skills_dir,
                ..*old(self)
            }),
    {
        self.memory_file = relocate(&self.memory_file, &self.workspace, &workspace);
        self.skills_dir = relocate(&self.skills_dir, &self.workspace, &workspace);
        self.workspace = workspace;
    }
}

/// Whether a config file is read again: it is there, and was changed since it was read.
/// Given are the times at which it was changed, where it is there.
pub fn needs_reload(loaded: Option<u64>, now: Option<u64>) -> (r: bool)
    ensures
        r == (now is Some && now != loaded),
{
    match (loaded, now) {
        (_, None) => false,
        (None, Some(_)) => true,
        (Some(before), Some(after)) => before != after,
    }
}

// ---------------------------------------------------------------------------
// Laws
// ---------------------------------------------------------------------------

/// Whether `d` has no optional setting that `c` lacks.
pub open spec fn lacks_what_lacks(d: Config, c: Config) -> bool {
    &&& c.model is None ==> d.model is None
    &&& c.base_url is None ==> d.base_url is None
    &&& c.api_key is None ==> d.api_key is None
    &&& c.task_file is None ==> d.task_file is None
    &&& c.worker_id is None ==> d.worker_id is None
    &&& c.worker_name is None ==> d.worker_name is None
    &&& c.system is None ==> d.system is None
    &&& c.shell_approval is None ==> d.shell_approval is None
    &&& c.write_approval is None ==> d.write_approval is None
}

/// Saving settings and reading the file gives them back, over any settings that have no
/// optional one that was absent when saving. The session and the place of the config
/// file stay those of the reader.
pub proof fn law_saved_settings_come_back(c: Config, file: ConfigFile, d: Config)
    requires
        holds_settings(file, c),
        lacks_what_lacks(d, c),
    ensures
        same_settings(overlaid(d, file), c),
        overlaid(d, file).session_id == d.session_id,
        overlaid(d, file).config_file == d.config_file,
        overlaid(d, file).resume_session == d.resume_session,
{
}

/// A file that is read twice says no more than when it is read once.
pub proof fn law_reading_twice_is_reading_once(c: Config, file: ConfigFile)
    ensures
        overlaid(overlaid(c, file), file) == overlaid(c, file),
{
}

/// With full system access neither a shell command nor a write is asked about.
pub proof fn law_full_access_never_asks(c: Config)
    requires
        c.full_system_access,
    ensures
        shell_mode(c) == PermissionMode::Allow,
        write_mode(c) == PermissionMode::Allow,
{
}

/// The flags of earlier releases still lift the approval they are about.
pub proof fn law_legacy_flags_allow(c: Config)
    ensures
        c.dangerously_allow_shell ==> shell_mode(c) == PermissionMode::Allow,
        c.auto_write ==> write_mode(c) == PermissionMode::Allow,
{
}

/// A worker stays in its workspace, whatever its settings say, never asks, has a task
/// and at least fifty tool rounds.
pub proof fn law_workers_are_confined(
    c: Config,
    workspace: Seq<char>,
    variable: Option<String>,
    anthropic: Seq<char>,
    a: Config,
)
    requires
        c.role == AgentRole::Worker,
        config_fault(c, variable) is None,
        settled_from(c, workspace, variable, anthropic, a),
    ensures
        a.role == AgentRole::Worker,
        !a.full_system_access,
        !a.tui,
        a.task_file is Some,
        shell_mode(a) == PermissionMode::Allow,
        write_mode(a) == PermissionMode::Allow,
        tool_rounds(a) >= 50,
{
}

/// Resolved settings have an address, a key where the provider needs one, a model
/// unless one has to be picked from the local server, and files that do not depend on
/// the directory the process runs in.
pub proof fn law_resolved_settings_are_complete(
    c: Config,
    workspace: Seq<char>,
    variable: Option<String>,
    anthropic: Seq<char>,
    a: Config,
)
    requires
        is_absolute_path(workspace),
        config_fault(c, variable) is None,
        settled_from(c, workspace, variable, anthropic, a),
    ensures
        a.base_url is Some,
        a.model is Some || a.provider == ProviderKind::Ollama,
        a.api_key is Some || a.provider == ProviderKind::Ollama,
        is_absolute_path(a.workspace@),
        is_absolute_path(a.memory_file@),
        is_absolute_path(a.skills_dir@),
        a.task_file is Some ==> is_absolute_path(a.task_file->0@),
{
}

/// The model that is picked is one of those that the local server has.
pub proof fn law_picked_model_is_installed(names: Seq<Seq<char>>)
    requires
        names.len() > 0,
    ensures
        names.contains(picked(names)),
{
    lemma_first_that(names, |n: Seq<char>| is_lfm(n));
    lemma_first_that(names, |n: Seq<char>| is_tagged_lfm(n));
    lemma_first_that(names, |n: Seq<char>| names_lfm(n));
    assert(names.contains(names[0]));
}

proof fn lemma_first_that(names: Seq<Seq<char>>, p: spec_fn(Seq<char>) -> bool)
    ensures
        first_that(names, p) matches Some(name) ==> names.contains(name) && p(name),
    decreases names.len(),
{
    if names.len() > 0 {
        assert(names.contains(names[0]));
        lemma_first_that(names.skip(1), p);
        if first_that(names.skip(1), p) is Some {
            let name = first_that(names.skip(1), p)->0;
            let i = choose|i: int| 0 <= i < names.skip(1).len() && names.skip(1)[i] == name;
            assert(names[i + 1] == name);
        }
    }
}

/// Each setting that a config file gives is taken from it.
pub proof fn law_given_settings_are_taken(c: Config, file: ConfigFile)
    ensures
        file.role is Some ==> overlaid(c, file).role == file.role->0,
        file.provider is Some ==> overlaid(c, file).provider == file.provider->0,
        file.model is Some ==> overlaid(c, file).model == file.model,
        file.base_url is Some ==> overlaid(c, file).base_url == file.base_url,
        file.api_key is Some ==> overlaid(c, file).api_key == file.api_key,
        file.workspace is Some ==> overlaid(c, file).workspace == file.workspace->0,
        file.task_file is Some ==> overlaid(c, file).task_file == file.task_file,
        file.worker_id is Some ==> overlaid(c, file).worker_id == file.worker_id,
        file.worker_name is Some ==> overlaid(c, file).worker_name == file.worker_name,
        file.session_id is Some ==> overlaid(c, file).session_id == file.session_id,
        file.memory_file is Some ==> overlaid(c, file).memory_file == file.memory_file->0,
        file.skills_dir is Some ==> overlaid(c, file).skills_dir == file.skills_dir->0,
        file.system is Some ==> overlaid(c, file).system == file.system,
        file.dangerously_allow_shell is Some ==> overlaid(c, file).dangerously_allow_shell == file.dangerously_allow_shell->0,
        file.auto_write is Some ==> overlaid(c, file).auto_write == file.auto_write->0,
        file.auto_worktree is Some ==> overlaid(c, file).auto_worktree == file.auto_worktree->0,
        file.approval_mode is Some ==> overlaid(c, file).approval_mode == file.approval_mode->0,
        file.shell_approval is Some ==> overlaid(c, file).shell_approval == file.shell_approval,
        file.write_approval is Some ==> overlaid(c, file).write_approval == file.write_approval,
        file.max_tool_rounds is Some ==> overlaid(c, file).max_tool_rounds == file.max_tool_rounds->0,
        file.autonomous is Some ==> overlaid(c, file).autonomous == file.autonomous->0,
        file.unlimited_tool_rounds is Some ==> overlaid(c, file).unlimited_tool_rounds == file.unlimited_tool_rounds->0,
        file.think is Some ==> overlaid(c, file).think == file.think->0,
        file.hide_thinking is Some ==> overlaid(c, file).hide_thinking == file.hide_thinking->0,
        file.stop_sequences is Some ==> overlaid(c, file).stop_sequences == file.stop_sequences->0,
        file.active_skills is Some ==> overlaid(c, file).active_skills == file.active_skills->0,
        file.tui is Some ==> overlaid(c, file).tui == file.tui->0,
        file.full_system_access is Some ==> overlaid(c, file).full_system_access == file.full_system_access->0,
        file.banner_title is Some ==> overlaid(c, file).banner_title == file.banner_title->0,
        file.banner_subtitle is Some ==> overlaid(c, file).banner_subtitle == file.banner_subtitle->0,
        file.banner_tip is Some ==> overlaid(c, file).banner_tip == file.banner_tip->0,
        file.banner_onboarding is Some ==> overlaid(c, file).banner_onboarding == file.banner_onboarding->0,
{
}

/// Each setting that a config file leaves out stays as it was, and so do the place of the
/// config file and the session to resume.
pub proof fn law_left_out_settings_stay(c: Config, file: ConfigFile)
    ensures
        file.role is None ==> overlaid(c, file).role == c.role,
        file.provider is None ==> overlaid(c, file).provider == c.provider,
        file.model is None ==> overlaid(c, file).model == c.model,
        file.base_url is None ==> overlaid(c, file).base_url == c.base_url,
        file.api_key is None ==> overlaid(c, file).api_key == c.api_key,
        file.workspace is None ==> overlaid(c, file).workspace == c.workspace,
        file.task_file is None ==> overlaid(c, file).task_file == c.task_file,
        file.worker_id is None ==> overlaid(c, file).worker_id == c.worker_id,
        file.worker_name is None ==> overlaid(c, file).worker_name == c.worker_name,
        file.session_id is None ==> overlaid(c, file).session_id == c.session_id,
        file.memory_file is None ==> overlaid(c, file).memory_file == c.memory_file,
        file.skills_dir is None ==> overlaid(c, file).skills_dir == c.skills_dir,
        file.system is None ==> overlaid(c, file).system == c.system,
        file.dangerously_allow_shell is None ==> overlaid(c, file).dangerously_allow_shell == c.dangerously_allow_shell,
        file.auto_write is None ==> overlaid(c, file).auto_write == c.auto_write,
        file.auto_worktree is None ==> overlaid(c, file).auto_worktree == c.auto_worktree,
        file.approval_mode is None ==> overlaid(c, file).approval_mode == c.approval_mode,
        file.shell_approval is None ==> overlaid(c, file).shell_approval == c.shell_approval,
        file.write_approval is None ==> overlaid(c, file).write_approval == c.write_approval,
        file.max_tool_rounds is None ==> overlaid(c, file).max_tool_rounds == c.max_tool_rounds,
        file.autonomous is None ==> overlaid(c, file).autonomous == c.autonomous,
        file.unlimited_tool_rounds is None ==> overlaid(c, file).unlimited_tool_rounds == c.unlimited_tool_rounds,
        file.think is None ==> overlaid(c, file).think == c.think,
        file.hide_thinking is None ==> overlaid(c, file).hide_thinking == c.hide_thinking,
        file.stop_sequences is None ==> overlaid(c, file).stop_sequences == c.stop_sequences,
        file.active_skills is None ==> overlaid(c, file).active_skills == c.active_skills,
        file.tui is None ==> overlaid(c, file).tui == c.tui,
        file.full_system_access is None ==> overlaid(c, file).full_system_access == c.full_system_access,
        file.banner_title is None ==> overlaid(c, file).banner_title == c.banner_title,
        file.banner_subtitle is None ==> overlaid(c, file).banner_subtitle == c.banner_subtitle,
        file.banner_tip is None ==> overlaid(c, file).banner_tip == c.banner_tip,
        file.banner_onboarding is None ==> overlaid(c, file).banner_onboarding == c.banner_onboarding,
        overlaid(c, file).config_file == c.config_file,
        overlaid(c, file).resume_session == c.resume_session,
{
}

/// What a config file saves of settings is each of them.
pub proof fn law_saved_files_hold_each_setting(c: Config, file: ConfigFile)
    requires
        holds_settings(file, c),
    ensures
        file.role == Some(c.role),
        file.provider == Some(c.provider),
        file.model == c.model,
        file.base_url == c.base_url,
        file.api_key == c.api_key,
        file.workspace == Some(c.workspace),
        file.task_file == c.task_file,
        file.worker_id == c.worker_id,
        file.worker_name == c.worker_name,
        file.session_id is None,
        file.memory_file == Some(c.memory_file),
        file.skills_dir == Some(c.skills_dir),
        file.system == c.system,
        file.dangerously_allow_shell == Some(c.dangerously_allow_shell),
        file.auto_write == Some(c.auto_write),
        file.auto_worktree == Some(c.auto_worktree),
        file.approval_mode == Some(c.approval_mode),
        file.shell_approval == c.shell_approval,
        file.write_approval == c.write_approval,
        file.max_tool_rounds == Some(c.max_tool_rounds),
        file.autonomous == Some(c.autonomous),
        file.unlimited_tool_rounds == Some(c.unlimited_tool_rounds),
        file.think == Some(c.think),
        file.hide_thinking == Some(c.hide_thinking),
        file.stop_sequences is Some && file.stop_sequences->0@ == c.stop_sequences@,
        file.active_skills is Some && file.active_skills->0@ == c.active_skills@,
        file.tui == Some(c.tui),
        file.full_system_access == Some(c.full_system_access),
        file.banner_title == Some(c.banner_title),
        file.banner_subtitle == Some(c.banner_subtitle),
        file.banner_tip == Some(c.banner_tip),
        file.banner_onboarding is Some && file.banner_onboarding->0@ == c.banner_onboarding@,
{
}

/// Where neither full access nor the flag of its own allows an action, it is approved as the
/// setting for it says, whatever that is, and as the common setting says where it has none.
pub proof fn law_explicit_approvals_are_honoured(c: Config, mode: PermissionMode)
    requires
        !c.full_system_access,
    ensures
        !c.auto_write && c.write_approval == Some(mode) ==> write_mode(c) == mode,
        !c.auto_write && c.write_approval is None ==> write_mode(c) == c.approval_mode,
        !c.dangerously_allow_shell && c.shell_approval == Some(mode) ==> shell_mode(c) == mode,
        !c.dangerously_allow_shell && c.shell_approval is None ==> shell_mode(c)
            == c.approval_mode,
{
}

/// How writes are approved depends on no setting for the shell, and the other way round.
pub proof fn law_approvals_are_apart(c: Config, d: Config)
    ensures
        d == (Config {
            shell_approval: d.shell_approval,
            dangerously_allow_shell: d.dangerously_allow_shell,
            ..c
        }) ==> write_mode(d) == write_mode(c),
        d == (Config { write_approval: d.write_approval, auto_write: d.auto_write, ..c })
            ==> shell_mode(d) == shell_mode(c),
{
}

/// A prompt takes as many tool rounds as the settings say, but at least fifty where the agent
/// works on its own, and has no limit where the settings say so.
pub proof fn law_rounds_follow_the_settings(c: Config)
    ensures
        !c.autonomous ==> tool_rounds(c) == c.max_tool_rounds,
        c.autonomous && c.max_tool_rounds >= 50 ==> tool_rounds(c) == c.max_tool_rounds,
        c.autonomous && c.max_tool_rounds < 50 ==> tool_rounds(c) == 50,
        c.unlimited_tool_rounds ==> round_limit(c) is None,
        !c.unlimited_tool_rounds && !c.autonomous ==> round_limit(c) == Some(
            c.max_tool_rounds as nat,
        ),
        !c.unlimited_tool_rounds && c.autonomous ==> round_limit(c) == Some(
            if c.max_tool_rounds < 50 {
                50nat
            } else {
                c.max_tool_rounds as nat
            },
        ),
{
}

/// Settings are refused for what they lack and for nothing else: a worker for its task, a
/// provider that needs one for its key, a custom provider for its address and its model, in
/// that order.
pub proof fn law_settings_are_refused_for_what_they_lack(c: Config, variable: Option<String>)
    ensures
        ({
            let task = c.role == AgentRole::Worker && c.task_file is None;
            let key = c.provider != ProviderKind::Ollama && c.api_key is None && variable is None;
            let url = c.provider == ProviderKind::CustomOpenai && c.base_url is None;
            let model = c.provider == ProviderKind::CustomOpenai && c.model is None;
            &&& task ==> config_fault(c, variable) == Some(ConfigError::MissingTaskFile)
            &&& !task && key ==> config_fault(c, variable) == Some(ConfigError::MissingApiKey)
            &&& !task && !key && url ==> config_fault(c, variable) == Some(
                ConfigError::MissingBaseUrl,
            )
            &&& !task && !key && !url && model ==> config_fault(c, variable) == Some(
                ConfigError::MissingModel,
            )
            &&& !task && !key && !url && !model ==> config_fault(c, variable) is None
        }),
{
}

/// A key, an address and a model that are given are used, whatever the environment and the
/// provider have; those that are not given are the environment's and the provider's own.
pub proof fn law_given_values_are_used(
    c: Config,
    workspace: Seq<char>,
    variable: Option<String>,
    anthropic: Seq<char>,
    a: Config,
)
    requires
        settled_from(c, workspace, variable, anthropic, a),
    ensures
        c.api_key is Some ==> a.api_key == c.api_key,
        c.api_key is None && c.provider != ProviderKind::Ollama ==> a.api_key == variable,
        c.base_url is Some ==> a.base_url is Some && a.base_url->0@ == c.base_url->0@,
        c.model is Some ==> a.model is Some && a.model->0@ == c.model->0@,
        c.base_url is None && c.provider == ProviderKind::Openai ==> a.base_url->0@
            == "https://api.openai.com/v1/chat/completions"@,
        c.base_url is None && c.provider == ProviderKind::Anthropic ==> a.base_url->0@
            == "https://api.anthropic.com/v1/messages"@,
        c.base_url is None && c.provider == ProviderKind::Gemini ==> a.base_url->0@
            == "https://generativelanguage.googleapis.com/v1beta"@,
        c.base_url is None && c.provider == ProviderKind::Ollama ==> a.base_url->0@
            == "http://localhost:11434/api/chat"@,
        c.base_url is None && c.provider == ProviderKind::Openrouter ==> a.base_url->0@
            == "https://openrouter.ai/api/v1/chat/completions"@,
        c.model is None && c.provider == ProviderKind::Openai ==> a.model->0@ == "gpt-4.1-mini"@,
        c.model is None && c.provider == ProviderKind::Anthropic ==> a.model->0@ == anthropic,
        c.model is None && c.provider == ProviderKind::Gemini ==> a.model->0@ == "gemini-1.5-pro"@,
        c.model is None && c.provider == ProviderKind::Openrouter ==> a.model->0@
            == "openai/gpt-4.1-mini"@,
        c.model is None && c.provider == ProviderKind::Ollama ==> a.model is None,
{
}

/// Resolving changes no setting but those that it resolves and, for a worker, its rights.
pub proof fn law_resolving_leaves_the_rest(
    c: Config,
    workspace: Seq<char>,
    variable: Option<String>,
    anthropic: Seq<char>,
    a: Config,
)
    requires
        settled_from(c, workspace, variable, anthropic, a),
    ensures
        a.workspace@ == workspace,
        a.config_file == c.config_file,
        a.role == c.role,
        a.provider == c.provider,
        a.worker_id == c.worker_id,
        a.worker_name == c.worker_name,
        a.session_id == c.session_id,
        a.resume_session == c.resume_session,
        a.system == c.system,
        a.approval_mode == c.approval_mode,
        a.max_tool_rounds == c.max_tool_rounds,
        a.unlimited_tool_rounds == c.unlimited_tool_rounds,
        a.think == c.think,
        a.hide_thinking == c.hide_thinking,
        a.stop_sequences == c.stop_sequences,
        a.active_skills == c.active_skills,
        a.banner_title == c.banner_title,
        a.banner_subtitle == c.banner_subtitle,
        a.banner_tip == c.banner_tip,
        a.banner_onboarding == c.banner_onboarding,
        c.role == AgentRole::Master ==> a.tui == c.tui && a.auto_worktree == c.auto_worktree
            && a.autonomous == c.autonomous && a.full_system_access == c.full_system_access
            && a.dangerously_allow_shell == c.dangerously_allow_shell && a.auto_write
            == c.auto_write && a.shell_approval == c.shell_approval && a.write_approval
            == c.write_approval,
        c.role == AgentRole::Worker ==> !a.auto_worktree && a.autonomous
            && !a.dangerously_allow_shell && !a.auto_write,
        is_absolute_path(c.memory_file@) ==> a.memory_file@ == c.memory_file@,
        is_absolute_path(c.skills_dir@) ==> a.skills_dir@ == c.skills_dir@,
        c.task_file is None ==> a.task_file is None,
        c.task_file is Some && is_absolute_path(c.task_file->0@) ==> a.task_file is Some
            && a.task_file->0@ == c.task_file->0@,
        workspace.len() > 0 && workspace.last() != '/' && !is_absolute_path(c.memory_file@)
            ==> a.memory_file@ == workspace + "/"@ + c.memory_file@,
        workspace.len() > 0 && workspace.last() != '/' && !is_absolute_path(c.skills_dir@)
            ==> a.skills_dir@ == workspace + "/"@ + c.skills_dir@,
        workspace.len() > 0 && workspace.last() != '/' && c.task_file is Some && !is_absolute_path(
            c.task_file->0@,
        ) ==> a.task_file is Some && a.task_file->0@ == workspace + "/"@ + c.task_file->0@,
{
}

/// Each provider's key has a variable of its own; Ollama needs none.
pub proof fn law_keys_have_their_variables()
    ensures
        key_variable(ProviderKind::Openai) == Some("OPENAI_API_KEY"@),
        key_variable(ProviderKind::Anthropic) == Some("ANTHROPIC_API_KEY"@),
        key_variable(ProviderKind::Gemini) == Some("GEMINI_API_KEY"@),
        key_variable(ProviderKind::Openrouter) == Some("OPENROUTER_API_KEY"@),
        key_variable(ProviderKind::CustomOpenai) == Some("CUSTOM_API_KEY"@),
        key_variable(ProviderKind::Ollama) is None,
{
}

proof fn lemma_first_that_is(names: Seq<Seq<char>>, p: spec_fn(Seq<char>) -> bool, i: int)
    requires
        0 <= i <= names.len(),
        forall|j: int| 0 <= j < i ==> !p(#[trigger] names[j]),
        i < names.len() ==> p(names[i]),
    ensures
        i < names.len() ==> first_that(names, p) == Some(names[i]),
        i == names.len() ==> first_that(names, p) is None,
    decreases names.len(),
{
    if i > 0 {
        assert(!p(names[0]));
        let rest = names.skip(1);
        assert forall|j: int| 0 <= j < i - 1 implies !p(#[trigger] rest[j]) by {
            assert(rest[j] == names[j + 1]);
        }
        lemma_first_that_is(rest, p, i - 1);
    }
}

/// Of the models that the local server has, `lfm` is taken; without it the first that is `lfm`
/// with a tag; without those the first whose name holds `lfm`; and the first of all where none
/// does.
pub proof fn law_picked_model_fits_best(names: Seq<Seq<char>>, i: int)
    requires
        0 <= i < names.len(),
    ensures
        names[i] == "lfm"@ ==> picked(names) == "lfm"@,
        !names.contains("lfm"@) && begins(names[i], "lfm:"@) && (forall|j: int|
            0 <= j < i ==> !begins(#[trigger] names[j], "lfm:"@)) ==> picked(names) == names[i],
        !names.contains("lfm"@) && (forall|j: int|
            0 <= j < names.len() ==> !begins(#[trigger] names[j], "lfm:"@)) && holds_text(
            names[i],
            "lfm"@,
        ) && (forall|j: int| 0 <= j < i ==> !holds_text(#[trigger] names[j], "lfm"@)) ==> picked(
            names,
        ) == names[i],
        !names.contains("lfm"@) && (forall|j: int|
            0 <= j < names.len() ==> !begins(#[trigger] names[j], "lfm:"@) && !holds_text(
                names[j],
                "lfm"@,
            )) ==> picked(names) == names[0],
{
    let n = names.len() as int;
    lemma_first_that(names, |n: Seq<char>| is_lfm(n));
    if names[i] == "lfm"@ {
        lemma_first_that_found(names, |n: Seq<char>| is_lfm(n), i);
    }
    if !names.contains("lfm"@) {
        if begins(names[i], "lfm:"@) && (forall|j: int|
            0 <= j < i ==> !begins(#[trigger] names[j], "lfm:"@)) {
            lemma_first_that_is(names, |n: Seq<char>| is_tagged_lfm(n), i);
        }
        if forall|j: int| 0 <= j < names.len() ==> !begins(#[trigger] names[j], "lfm:"@) {
            lemma_first_that_is(names, |n: Seq<char>| is_tagged_lfm(n), n);
            if holds_text(names[i], "lfm"@) && (forall|j: int|
                0 <= j < i ==> !holds_text(#[trigger] names[j], "lfm"@)) {
                lemma_first_that_is(names, |n: Seq<char>| names_lfm(n), i);
            }
            if forall|j: int| 0 <= j < names.len() ==> !holds_text(#[trigger] names[j], "lfm"@) {
                lemma_first_that_is(names, |n: Seq<char>| names_lfm(n), n);
            }
        }
    }
}

proof fn lemma_first_that_found(names: Seq<Seq<char>>, p: spec_fn(Seq<char>) -> bool, i: int)
    requires
        0 <= i < names.len(),
        p(names[i]),
    ensures
        first_that(names, p) is Some,
    decreases names.len(),
{
    if i > 0 {
        assert(names.skip(1)[i - 1] == names[i]);
        lemma_first_that_found(names.skip(1), p, i - 1);
    }
}

/// The names of the models are read from the reply of the local server one by one and in
/// order; where one of them has none, or there is no list, nothing is read.
pub proof fn law_model_names_are_read(
    tags: JsonModel,
    shorter: JsonModel,
    models: Seq<JsonModel>,
    model: JsonModel,
)
    requires
        at_key(tags, "models"@) == JsonModel::Array(models.push(model)),
        at_key(shorter, "models"@) == JsonModel::Array(models),
    ensures
        models.len() == 0 ==> tag_names(shorter) == Some(Seq::<Seq<char>>::empty()),
        tag_names(shorter) is Some && at_key(model, "name"@) is Text ==> tag_names(tags) == Some(
            tag_names(shorter)->0.push(at_key(model, "name"@)->Text_0),
        ),
        tag_names(shorter) is None || !(at_key(model, "name"@) is Text) ==> tag_names(tags) is None,
{
    assert(models.push(model).drop_last() =~= models);
}

/// A reply without a list of models names none.
pub proof fn law_other_replies_name_no_models(tags: JsonModel)
    requires
        !(at_key(tags, "models"@) is Array),
    ensures
        tag_names(tags) is None,
{
}

/// The local server lists its models beside where it chats, whether the address leads there or
/// to the server, with slashes behind it or not.
pub proof fn law_models_are_listed_beside_the_chat(base: Seq<char>, slashes: nat)
    requires
        base.len() > 0,
        base.last() != '/',
    ensures
        tags_url(base + "/api/chat"@) == base + "/api/tags"@,
        !ends(base + Seq::new(slashes, |i: int| '/'), "/api/chat"@) ==> tags_url(
            base + Seq::new(slashes, |i: int| '/'),
        ) == base + "/api/tags"@,
{
    let whole = base + "/api/chat"@;
    let n = base.len() as int;
    assert(whole.subrange(n, whole.len() as int) =~= "/api/chat"@);
    assert(whole.take(n) =~= base);
    let plain = base + Seq::new(slashes, |i: int| '/');
    crate::text::lemma_trim_end_is(plain, CharClass::Is('/'), n);
    assert(plain.take(n) =~= base);
}

/// A path below a workspace moves with it, and another stays.
pub proof fn law_paths_move_with_the_workspace(
    path: Seq<char>,
    from: Seq<char>,
    to: Seq<char>,
    rest: Seq<char>,
)
    ensures
        relative(path, from) == Some(rest) ==> relocated(path, from, to) == joined_path(to, rest),
        relative(path, from) is None ==> relocated(path, from, to) == path,
{
}

/// The config file of earlier releases lies beside the one in use.
pub proof fn law_the_legacy_file_lies_beside(file: Seq<char>, dir: Seq<char>)
    ensures
        parent(file) == Some(dir) && dir.len() > 0 && dir.last() != '/' ==> legacy_path(file) == dir
            + "/"@ + "config.json"@,
        parent(file) is None ==> legacy_path(file) == "config.json"@,
{
    reveal_strlit("config.json");
}

/// What the user reads of an error names what is missing and the workspace that cannot be
/// reached.
pub proof fn law_errors_name_what_is_missing(workspace: String, reason: String)
    ensures
        config_error_text(ConfigError::WorkspaceInaccessible { workspace, reason })
            == "workspace '"@ + workspace@ + "' is not accessible: "@ + reason@,
        config_error_text(ConfigError::MissingTaskFile) == "worker mode requires --task-file"@,
        config_error_text(ConfigError::MissingApiKey)
            == "missing API key; pass --api-key or set the provider-specific env var"@,
        config_error_text(ConfigError::MissingBaseUrl)
            == "--base-url is required for custom-openai"@,
        config_error_text(ConfigError::MissingModel) == "--model is required for custom-openai"@,
        config_error_text(ConfigError::NoLocalModels)
            == "Ollama is running but has no local models. Pull one first, for example: ollama pull lfm"@,
        access_name(true) == "full-system"@,
        access_name(false) == "workspace"@,
{
}

/// Each provider, way of thinking and permission is told by its own name.
pub proof fn law_settings_have_names()
    ensures
        provider_word(ProviderKind::Openai) == "Openai"@,
        provider_word(ProviderKind::Anthropic) == "Anthropic"@,
        provider_word(ProviderKind::Gemini) == "Gemini"@,
        provider_word(ProviderKind::Ollama) == "Ollama"@,
        provider_word(ProviderKind::Openrouter) == "Openrouter"@,
        provider_word(ProviderKind::CustomOpenai) == "CustomOpenai"@,
        think_word(ThinkMode::Auto) == "Auto"@,
        think_word(ThinkMode::On) == "On"@,
        think_word(ThinkMode::Off) == "Off"@,
        think_word(ThinkMode::Low) == "Low"@,
        think_word(ThinkMode::Medium) == "Medium"@,
        think_word(ThinkMode::High) == "High"@,
        permission_word(PermissionMode::Ask) == "Ask"@,
        permission_word(PermissionMode::Allow) == "Allow"@,
        permission_word(PermissionMode::Deny) == "Deny"@,
{
}

/// A user who configured no greeting is greeted with the commands to begin with.
pub proof fn law_the_usual_greeting_names_commands()
    ensures
        default_onboarding().len() == 7,
        default_onboarding()[0] == "/help commands"@,
        default_onboarding()[1] == "/models local models"@,
        default_onboarding()[2] == "/search web search"@,
        default_onboarding()[3] == "/agents spawn task isolation"@,
        default_onboarding()[4] == "/permissions safety"@,
        default_onboarding()[5] == "/terminal real shell"@,
        default_onboarding()[6] == "/exit quit"@,
{
}

}
