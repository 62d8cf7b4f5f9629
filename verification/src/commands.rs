//! Commands: what they change of the agent, and what they call for.
use crate::agent::{in_step, pending, Agent, Attachment, Mind, PromptAttachment};
use crate::config::{
    access_name, given, opt_text, permission_word, provider_word, think_word, tool_rounds, Config,
    PermissionMode, ProviderKind, ThinkMode,
};
use crate::provider::Provider;
use crate::text::{
    after, before, begins, copies, decimal, find, find_in, join, joined, number, pieces, same,
    size_number, split_char, split_words, starts, texts, trim_end, trim_end_of, trim_start,
    trim_start_of, trim_white, trimmed, words, CharClass,
};
use crate::tools::ToolRuntime;
use crate::tui::{is_sound, with_entry, Entry, Screen, Speaker, TuiState};
use vstd::prelude::*;
use vstd::string::*;

verus! {

broadcast use {vstd::seq::group_seq_axioms, vstd::string::group_string_axioms};

// ---------------------------------------------------------------------------
// Words
// ---------------------------------------------------------------------------

/// The way to think that a word names.
pub open spec fn think_mode(word: Seq<char>) -> Option<ThinkMode> {
    if word == "auto"@ {
        Some(ThinkMode::Auto)
    } else if word == "on"@ || word == "true"@ {
        Some(ThinkMode::On)
    } else if word == "off"@ || word == "false"@ || word == "nothink"@ {
        Some(ThinkMode::Off)
    } else if word == "low"@ {
        Some(ThinkMode::Low)
    } else if word == "medium"@ {
        Some(ThinkMode::Medium)
    } else if word == "high"@ {
        Some(ThinkMode::High)
    } else {
        None
    }
}

/// The way to think that a word names.
pub fn parse_think_mode(value: &str) -> (r: Option<ThinkMode>)
    ensures
        r == think_mode(value@),
{
    if same(value, "auto") {
        Some(ThinkMode::Auto)
    } else if same(value, "on") || same(value, "true") {
        Some(ThinkMode::On)
    } else if same(value, "off") || same(value, "false") || same(value, "nothink") {
        Some(ThinkMode::Off)
    } else if same(value, "low") {
        Some(ThinkMode::Low)
    } else if same(value, "medium") {
        Some(ThinkMode::Medium)
    } else if same(value, "high") {
        Some(ThinkMode::High)
    } else {
        None
    }
}

/// The permission that a word names.
pub open spec fn permission_mode(word: Seq<char>) -> Option<PermissionMode> {
    if word == "ask"@ || word == "prompt"@ {
        Some(PermissionMode::Ask)
    } else if word == "allow"@ || word == "auto"@ || word == "always"@ {
        Some(PermissionMode::Allow)
    } else if word == "deny"@ || word == "never"@ {
        Some(PermissionMode::Deny)
    } else {
        None
    }
}

/// The permission that a word names.
pub fn parse_permission_mode(value: &str) -> (r: Option<PermissionMode>)
    ensures
        r == permission_mode(value@),
{
    if same(value, "ask") || same(value, "prompt") {
        Some(PermissionMode::Ask)
    } else if same(value, "allow") || same(value, "auto") || same(value, "always") {
        Some(PermissionMode::Allow)
    } else if same(value, "deny") || same(value, "never") {
        Some(PermissionMode::Deny)
    } else {
        None
    }
}

/// What `format!` makes of a text under `{:?}`.
pub uninterp spec fn debug_text(s: Seq<char>) -> Seq<char>;

/// `format!` with `{:?}` on a text: the text in quotes, with escapes. It depends on the
/// text alone.
#[verifier::external_body]
fn debug_string(s: &str) -> (r: String)
    ensures
        r@ == debug_text(s@),
{
    format!("{:?}", s)
}

/// Stop sequences as they are shown, given each of them in quotes.
pub open spec fn shown_stops(quoted: Seq<Seq<char>>) -> Seq<char> {
    if quoted.len() == 0 {
        "none"@
    } else {
        joined(quoted, ", "@)
    }
}

/// Stop sequences in quotes.
pub open spec fn quoted_stops(stops: Seq<Seq<char>>) -> Seq<Seq<char>> {
    stops.map_values(|s: Seq<char>| debug_text(s))
}

/// Stop sequences as they are shown, given each of them in quotes.
pub fn show_stops(quoted: &Vec<String>) -> (r: String)
    ensures
        r@ == shown_stops(texts(quoted@)),
{
    if quoted.len() == 0 {
        "none".to_owned()
    } else {
        join(quoted, ", ")
    }
}

/// Stop sequences as they are shown.
pub fn format_stop_sequences(stops: &[String]) -> (r: String)
    ensures
        r@ == shown_stops(quoted_stops(texts(stops@))),
{
    let mut quoted: Vec<String> = Vec::new();
    let mut i: usize = 0;
    while i < stops.len()
        invariant
            i <= stops@.len(),
            quoted@.len() == i,
            forall|j: int| 0 <= j < i ==> (#[trigger] quoted@[j])@ == debug_text(stops@[j]@),
        decreases stops@.len() - i,
    {
        quoted.push(debug_string(&stops[i]));
        i += 1;
    }
    assert(texts(quoted@) =~= quoted_stops(texts(stops@)));
    show_stops(&quoted)
}

/// `true` or `false`.
pub open spec fn bool_word(b: bool) -> Seq<char> {
    if b {
        "true"@
    } else {
        "false"@
    }
}

fn bool_name(b: bool) -> (r: &'static str)
    ensures
        r@ == bool_word(b),
{
    if b {
        "true"
    } else {
        "false"
    }
}

/// What stands before the first blank, and what stands behind it.
pub open spec fn halves(s: Seq<char>) -> (Seq<char>, Option<Seq<char>>) {
    match find(s, " "@) {
        Some(i) => (s.take(i), Some(s.skip(i + 1))),
        None => (s, None),
    }
}

fn split_once(s: &str) -> (r: (String, Option<String>))
    ensures
        (r.0@, opt_text(r.1)) == halves(s@),
{
    proof {
        reveal_strlit(" ");
    }
    match find_in(s, " ") {
        Some(i) => (before(s, i), Some(after(s, i + 1))),
        None => (s.to_owned(), None),
    }
}

/// The command in an input.
pub open spec fn command_in(input: Seq<char>) -> Seq<char> {
    halves(input).0
}

/// The argument in an input, trimmed.
pub open spec fn argument_in(input: Seq<char>) -> Seq<char> {
    match halves(input).1 {
        Some(rest) => trimmed(rest),
        None => ""@,
    }
}

fn split_command(input: &str) -> (r: (String, String))
    ensures
        r.0@ == command_in(input@),
        r.1@ == argument_in(input@),
{
    let (command, rest) = split_once(input);
    match rest {
        Some(rest) => (command, trim_white(&rest)),
        None => (command, "".to_owned()),
    }
}

fn is_empty(s: &str) -> (r: bool)
    ensures
        r == (s@.len() == 0),
{
    s.unicode_len() == 0
}

// ---------------------------------------------------------------------------
// Effects
// ---------------------------------------------------------------------------

/// What a command calls for.
#[derive(Debug)]
pub enum Effect {
    /// The agent ends.
    Quit,
    /// The user is told something.
    Info(String),
    /// The user is told that something is wrong.
    Error(String),
    /// The help is printed.
    Help,
    /// The config file is looked for and shown.
    ShowConfig,
    /// The config file is read again.
    ReloadConfig,
    /// The models of the local server are listed.
    ListModels,
    /// A model is looked for among those of the local server, and taken.
    CheckModel { name: String },
    /// Files are listed.
    ListFiles { path: Option<String> },
    /// A file is printed.
    ReadFile { path: String },
    /// A file is written with what is typed.
    WriteFile { path: String },
    /// A shell command runs.
    RunShell { command: String },
    /// A shell is opened.
    Terminal { shell: String },
    /// A file is read and attached.
    AttachFile { path: String },
    /// An image is measured and attached.
    AttachImage { path: String },
    /// The web is searched.
    Search { query: String },
    /// The session is looked at or changed.
    Session { arg: String },
    /// The session is saved as interrupted.
    Interrupt,
    /// The notes are looked at or changed.
    Memory { arg: String },
    /// The skills are looked at or switched.
    Skills { arg: String },
    /// The worktrees are looked at or changed.
    Worktree { arg: String },
    /// The workers are looked at, or one starts.
    Agents { arg: String },
    /// The screen is cleared and the banner shown.
    Clear,
}

/// What a command calls for as a mathematical object.
pub ghost enum Wish {
    Quit,
    Info(Seq<char>),
    Error(Seq<char>),
    Help,
    ShowConfig,
    ReloadConfig,
    ListModels,
    CheckModel { name: Seq<char> },
    ListFiles { path: Option<Seq<char>> },
    ReadFile { path: Seq<char> },
    WriteFile { path: Seq<char> },
    RunShell { command: Seq<char> },
    Terminal { shell: Seq<char> },
    AttachFile { path: Seq<char> },
    AttachImage { path: Seq<char> },
    Search { query: Seq<char> },
    Session { arg: Seq<char> },
    Interrupt,
    Memory { arg: Seq<char> },
    Skills { arg: Seq<char> },
    Worktree { arg: Seq<char> },
    Agents { arg: Seq<char> },
    Clear,
}

impl View for Effect {
    type V = Wish;

    open spec fn view(&self) -> Wish {
        match self {
            Effect::Quit => Wish::Quit,
            Effect::Info(t) => Wish::Info(t@),
            Effect::Error(t) => Wish::Error(t@),
            Effect::Help => Wish::Help,
            Effect::ShowConfig => Wish::ShowConfig,
            Effect::ReloadConfig => Wish::ReloadConfig,
            Effect::ListModels => Wish::ListModels,
            Effect::CheckModel { name } => Wish::CheckModel { name: name@ },
            Effect::ListFiles { path } => Wish::ListFiles { path: opt_text(*path) },
            Effect::ReadFile { path } => Wish::ReadFile { path: path@ },
            Effect::WriteFile { path } => Wish::WriteFile { path: path@ },
            Effect::RunShell { command } => Wish::RunShell { command: command@ },
            Effect::Terminal { shell } => Wish::Terminal { shell: shell@ },
            Effect::AttachFile { path } => Wish::AttachFile { path: path@ },
            Effect::AttachImage { path } => Wish::AttachImage { path: path@ },
            Effect::Search { query } => Wish::Search { query: query@ },
            Effect::Session { arg } => Wish::Session { arg: arg@ },
            Effect::Interrupt => Wish::Interrupt,
            Effect::Memory { arg } => Wish::Memory { arg: arg@ },
            Effect::Skills { arg } => Wish::Skills { arg: arg@ },
            Effect::Worktree { arg } => Wish::Worktree { arg: arg@ },
            Effect::Agents { arg } => Wish::Agents { arg: arg@ },
            Effect::Clear => Wish::Clear,
        }
    }
}

fn info(s: &str) -> (r: Effect)
    ensures
        r@ == Wish::Info(s@),
{
    Effect::Info(s.to_owned())
}

fn error(s: &str) -> (r: Effect)
    ensures
        r@ == Wish::Error(s@),
{
    Effect::Error(s.to_owned())
}

// ---------------------------------------------------------------------------
// Thinking
// ---------------------------------------------------------------------------

/// How `/thinking` is used.
pub const THINKING_USAGE: &'static str = "usage: /thinking [auto|on|off|low|medium|high|show|hide]";

/// An agent that thinks in another way.
pub open spec fn with_think(a: Mind, mode: ThinkMode) -> Mind {
    Mind { think: mode, provider: Provider { think: mode, ..a.provider }, ..a }
}

/// An agent that hides its thinking, or does not.
pub open spec fn with_hidden(a: Mind, hide: bool) -> Mind {
    Mind { hide_thinking: hide, ..a }
}

/// What `/thinking` does.
pub open spec fn thinking(a: Mind, arg: Seq<char>) -> (Mind, Wish) {
    if arg.len() == 0 {
        (
            a,
            Wish::Info(
                "think="@ + think_word(a.provider.think) + " show_thinking="@ + bool_word(
                    !a.hide_thinking,
                ),
            ),
        )
    } else if arg == "show"@ {
        (with_hidden(a, false), Wish::Info("thinking trace visible in the TUI"@))
    } else if arg == "hide"@ {
        (with_hidden(a, true), Wish::Info("thinking trace hidden in the TUI"@))
    } else {
        match think_mode(arg) {
            Some(mode) => (with_think(a, mode), Wish::Info("think set to "@ + think_word(mode))),
            None => (a, Wish::Error(THINKING_USAGE@)),
        }
    }
}

impl Agent {
    fn set_hidden(&mut self, hide: bool)
        ensures
            final(self)@ == with_hidden(old(self)@, hide),
            final(self).config == (Config { hide_thinking: hide, ..old(self).config }),
    {
        self.config.hide_thinking = hide;
    }

    fn set_think(&mut self, mode: ThinkMode)
        ensures
            final(self)@ == with_think(old(self)@, mode),
            final(self).config == (Config { think: mode, ..old(self).config }),
    {
        self.provider.set_think(mode);
        self.config.think = mode;
    }

    /// `/thinking`.
    pub fn handle_thinking(&mut self, arg: &str) -> (r: Effect)
        ensures
            (final(self)@, r@) == thinking(old(self)@, arg@),
            final(self).config.base_url == old(self).config.base_url,
    {
        if is_empty(arg) {
            let mut out = "think=".to_owned();
            out.append(self.provider.think().name());
            out.append(" show_thinking=");
            out.append(bool_name(self.config.show_thinking()));
            return Effect::Info(out);
        }
        if same(arg, "show") {
            self.set_hidden(false);
            return info("thinking trace visible in the TUI");
        }
        if same(arg, "hide") {
            self.set_hidden(true);
            return info("thinking trace hidden in the TUI");
        }
        match parse_think_mode(arg) {
            Some(mode) => {
                self.set_think(mode);
                let mut out = "think set to ".to_owned();
                out.append(mode.name());
                Effect::Info(out)
            },
            None => error(THINKING_USAGE),
        }
    }
}

// ---------------------------------------------------------------------------
// Permissions
// ---------------------------------------------------------------------------

/// How `/permissions` is used.
pub const PERMISSIONS_USAGE: &'static str = "usage: /permissions, /permissions [ask|allow|deny], /permissions shell <mode>, or /permissions write <mode>";

/// An agent with other permissions, where they are given.
pub open spec fn with_permissions(
    a: Mind,
    shell: Option<PermissionMode>,
    write: Option<PermissionMode>,
) -> Mind {
    Mind {
        tools: ToolRuntime {
            shell_permission: given(shell, a.tools.shell_permission),
            write_permission: given(write, a.tools.write_permission),
            ..a.tools
        },
        ..a
    }
}

/// What `/permissions` does.
pub open spec fn permissions(a: Mind, arg: Seq<char>) -> (Mind, Wish) {
    let parts = words(arg);
    if arg.len() == 0 {
        (
            a,
            Wish::Info(
                "permissions shell="@ + permission_word(a.tools.shell_permission) + " write="@
                    + permission_word(a.tools.write_permission),
            ),
        )
    } else if parts.len() == 1 {
        match permission_mode(parts[0]) {
            Some(p) => (
                with_permissions(a, Some(p), Some(p)),
                Wish::Info("shell and write permissions set to "@ + permission_word(p)),
            ),
            None => (a, Wish::Error("usage: /permissions [ask|allow|deny]"@)),
        }
    } else if parts.len() == 2 && parts[0] == "shell"@ {
        match permission_mode(parts[1]) {
            Some(p) => (
                with_permissions(a, Some(p), None),
                Wish::Info("shell permission set to "@ + permission_word(p)),
            ),
            None => (a, Wish::Error("usage: /permissions shell [ask|allow|deny]"@)),
        }
    } else if parts.len() == 2 && parts[0] == "write"@ {
        match permission_mode(parts[1]) {
            Some(p) => (
                with_permissions(a, None, Some(p)),
                Wish::Info("write permission set to "@ + permission_word(p)),
            ),
            None => (a, Wish::Error("usage: /permissions write [ask|allow|deny]"@)),
        }
    } else {
        (a, Wish::Error(PERMISSIONS_USAGE@))
    }
}

fn info_of(text: &str, p: PermissionMode) -> (r: Effect)
    ensures
        r@ == Wish::Info(text@ + permission_word(p)),
{
    let mut out = text.to_owned();
    out.append(p.name());
    Effect::Info(out)
}

impl Agent {
    fn set_permissions(&mut self, shell: Option<PermissionMode>, write: Option<PermissionMode>)
        ensures
            final(self)@ == with_permissions(old(self)@, shell, write),
            final(self).config == old(self).config,
    {
        if let Some(p) = shell {
            self.tools.set_shell_permission(p);
        }
        if let Some(p) = write {
            self.tools.set_write_permission(p);
        }
    }

    /// `/permissions`.
    pub fn handle_permissions(&mut self, arg: &str) -> (r: Effect)
        ensures
            (final(self)@, r@) == permissions(old(self)@, arg@),
            final(self).config == old(self).config,
    {
        if is_empty(arg) {
            let mut out = "permissions shell=".to_owned();
            out.append(self.tools.shell_permission().name());
            out.append(" write=");
            out.append(self.tools.write_permission().name());
            return Effect::Info(out);
        }
        let parts = split_words(arg);
        assert(texts(parts@).len() == parts@.len());
        assert(forall|i: int| 0 <= i < parts@.len() ==> texts(parts@)[i] == #[trigger] parts@[i]@);
        if parts.len() == 1 {
            return match parse_permission_mode(&parts[0]) {
                Some(p) => {
                    self.set_permissions(Some(p), Some(p));
                    info_of("shell and write permissions set to ", p)
                },
                None => error("usage: /permissions [ask|allow|deny]"),
            };
        }
        if parts.len() == 2 && same(&parts[0], "shell") {
            return match parse_permission_mode(&parts[1]) {
                Some(p) => {
                    self.set_permissions(Some(p), None);
                    info_of("shell permission set to ", p)
                },
                None => error("usage: /permissions shell [ask|allow|deny]"),
            };
        }
        if parts.len() == 2 && same(&parts[0], "write") {
            return match parse_permission_mode(&parts[1]) {
                Some(p) => {
                    self.set_permissions(None, Some(p));
                    info_of("write permission set to ", p)
                },
                None => error("usage: /permissions write [ask|allow|deny]"),
            };
        }
        error(PERMISSIONS_USAGE)
    }
}

// ---------------------------------------------------------------------------
// Stop sequences
// ---------------------------------------------------------------------------

/// How `/stop` is used.
pub const STOP_USAGE: &'static str = "usage: /stop, /stop clear, /stop add <text>, or /stop set <a,b,c>";

/// An agent with other stop sequences.
pub open spec fn with_stops(a: Mind, stops: Seq<Seq<char>>) -> Mind {
    Mind { stops, provider: Provider { stops, ..a.provider }, ..a }
}

/// What is told of stop sequences.
pub open spec fn stops_told(stops: Seq<Seq<char>>) -> Wish {
    Wish::Info("stop sequences: "@ + shown_stops(quoted_stops(stops)))
}

/// The texts of a list that are not blank, trimmed.
pub open spec fn trimmed_texts(list: Seq<Seq<char>>) -> Seq<Seq<char>>
    decreases list.len(),
{
    if list.len() == 0 {
        seq![]
    } else if trimmed(list.last()).len() == 0 {
        trimmed_texts(list.drop_last())
    } else {
        trimmed_texts(list.drop_last()).push(trimmed(list.last()))
    }
}

/// What `/stop` does.
pub open spec fn stopping(a: Mind, arg: Seq<char>) -> (Mind, Wish) {
    if arg.len() == 0 {
        (a, stops_told(a.provider.stops))
    } else if arg == "clear"@ {
        (with_stops(a, seq![]), Wish::Info("stop sequences cleared"@))
    } else {
        match halves(arg) {
            (command, Some(value)) => if command == "add"@ {
                let stops = a.provider.stops.push(value);
                (with_stops(a, stops), stops_told(stops))
            } else if command == "set"@ {
                let stops = trimmed_texts(pieces(value, ','));
                (with_stops(a, stops), stops_told(stops))
            } else {
                (a, Wish::Error(STOP_USAGE@))
            },
            (_, None) => (a, Wish::Error(STOP_USAGE@)),
        }
    }
}

/// The texts between commas that are not blank, trimmed.
pub fn listed_stops(value: &str) -> (r: Vec<String>)
    ensures
        texts(r@) == trimmed_texts(pieces(value@, ',')),
{
    let parts = split_char(value, ',');
    let ghost all = texts(parts@);
    let mut out: Vec<String> = Vec::new();
    let mut i: usize = 0;
    assert(all.take(0) =~= seq![]);
    assert(texts(out@) =~= seq![]);
    while i < parts.len()
        invariant
            i <= parts@.len(),
            all == texts(parts@),
            texts(out@) == trimmed_texts(all.take(i as int)),
        decreases parts@.len() - i,
    {
        let ghost had = texts(out@);
        assert(all.take(i + 1).drop_last() =~= all.take(i as int));
        assert(all.take(i + 1).last() == parts@[i as int]@);
        let part = trim_white(&parts[i]);
        if !is_empty(&part) {
            let ghost t = part@;
            out.push(part);
            assert(texts(out@) =~= had.push(t));
        }
        i += 1;
    }
    assert(all.take(all.len() as int) =~= all);
    out
}

impl Agent {
    fn set_stops(&mut self, stops: Vec<String>)
        ensures
            final(self)@ == with_stops(old(self)@, texts(stops@)),
            final(self).config.base_url == old(self).config.base_url,
    {
        let copy = copies(&stops);
        self.provider.set_stop_sequences(copy);
        self.config.stop_sequences = stops;
    }

    fn tell_stops(&self) -> (r: Effect)
        ensures
            r@ == stops_told(self@.provider.stops),
    {
        let mut out = "stop sequences: ".to_owned();
        out.append(format_stop_sequences(self.provider.stop_sequences()).as_str());
        Effect::Info(out)
    }

    /// `/stop`.
    pub fn handle_stop_sequences(&mut self, arg: &str) -> (r: Effect)
        ensures
            (final(self)@, r@) == stopping(old(self)@, arg@),
            final(self).config.base_url == old(self).config.base_url,
    {
        if is_empty(arg) {
            return self.tell_stops();
        }
        if same(arg, "clear") {
            let none: Vec<String> = Vec::new();
            assert(texts(none@) =~= seq![]);
            self.set_stops(none);
            return info("stop sequences cleared");
        }
        let (command, value) = split_once(arg);
        match value {
            None => error(STOP_USAGE),
            Some(value) => if same(&command, "add") {
                let mut stops = copies(&self.provider.stop_sequences);
                let ghost had = texts(stops@);
                let ghost v = value@;
                stops.push(value);
                assert(texts(stops@) =~= had.push(v));
                self.set_stops(stops);
                self.tell_stops()
            } else if same(&command, "set") {
                self.set_stops(listed_stops(&value));
                self.tell_stops()
            } else {
                error(STOP_USAGE)
            },
        }
    }
}

// ---------------------------------------------------------------------------
// Attachments
// ---------------------------------------------------------------------------

/// What `/attach` does.
pub open spec fn attaching(a: Mind, arg: Seq<char>) -> (Mind, Wish) {
    let kind = trimmed(halves(arg).0);
    let value = match halves(arg).1 {
        Some(rest) => trimmed(rest),
        None => ""@,
    };
    if kind == "clear"@ {
        (Mind { attachments: seq![], ..a }, Wish::Info("attachments cleared"@))
    } else if kind == "show"@ {
        (
            a,
            Wish::Info(
                match pending(a.attachments) {
                    Some(text) => text,
                    None => "attachments: none"@,
                },
            ),
        )
    } else if kind == "file"@ {
        if value.len() == 0 {
            (a, Wish::Error("usage: /attach file <path>"@))
        } else {
            (a, Wish::AttachFile { path: value })
        }
    } else if kind == "image"@ {
        if value.len() == 0 {
            (a, Wish::Error("usage: /attach image <path>"@))
        } else {
            (a, Wish::AttachImage { path: value })
        }
    } else {
        (a, Wish::Error("usage: /attach [show|clear|file <path>|image <path>]"@))
    }
}

impl Agent {
    /// `/attach`.
    pub fn handle_attach_command(&mut self, arg: &str) -> (r: Effect)
        ensures
            (final(self)@, r@) == attaching(old(self)@, arg@),
            final(self).config == old(self).config,
    {
        let (kind, rest) = split_once(arg);
        let kind = trim_white(&kind);
        let value = match rest {
            Some(rest) => trim_white(&rest),
            None => {
                proof {
                    reveal_strlit("");
                }
                "".to_owned()
            },
        };
        if same(&kind, "clear") {
            self.prompt_attachments = Vec::new();
            assert(self@.attachments =~= seq![]);
            info("attachments cleared")
        } else if same(&kind, "show") {
            match self.attachment_status_text() {
                Some(text) => Effect::Info(text),
                None => info("attachments: none"),
            }
        } else if same(&kind, "file") {
            if is_empty(&value) {
                error("usage: /attach file <path>")
            } else {
                Effect::AttachFile { path: value }
            }
        } else if same(&kind, "image") {
            if is_empty(&value) {
                error("usage: /attach image <path>")
            } else {
                Effect::AttachImage { path: value }
            }
        } else {
            error("usage: /attach [show|clear|file <path>|image <path>]")
        }
    }

    /// Attaches a file that was read. The result is what the user is told.
    pub fn attach_file(&mut self, path: String, content: String) -> (r: String)
        ensures
            r@ == "queued file attachment: "@ + path@,
            final(self)@ == (Mind {
                attachments: old(self)@.attachments.push(
                    Attachment::File { path: path@, content: content@ },
                ),
                ..old(self)@
            }),
            final(self).config == old(self).config,
    {
        let ghost had = self@.attachments;
        let ghost a = Attachment::File { path: path@, content: content@ };
        let mut out = "queued file attachment: ".to_owned();
        out.append(path.as_str());
        self.prompt_attachments.push(PromptAttachment::File { path, content });
        assert(self@.attachments =~= had.push(a));
        out
    }

    /// Attaches an image that was measured. The result is what the user is told.
    pub fn attach_image(&mut self, path: String, size_bytes: u64) -> (r: String)
        ensures
            r@ == "queued image attachment: "@ + path@ + " ("@ + decimal(size_bytes as nat)
                + " bytes)"@,
            final(self)@ == (Mind {
                attachments: old(self)@.attachments.push(
                    Attachment::Image { path: path@, size_bytes },
                ),
                ..old(self)@
            }),
            final(self).config == old(self).config,
    {
        let ghost had = self@.attachments;
        let ghost a = Attachment::Image { path: path@, size_bytes };
        let mut out = "queued image attachment: ".to_owned();
        out.append(path.as_str());
        out.append(" (");
        out.append(number(size_bytes).as_str());
        out.append(" bytes)");
        self.prompt_attachments.push(PromptAttachment::Image { path, size_bytes });
        assert(self@.attachments =~= had.push(a));
        out
    }
}


// ---------------------------------------------------------------------------
// Settings and models
// ---------------------------------------------------------------------------

/// What `/config` calls for.
pub open spec fn config_wish(arg: Seq<char>) -> Wish {
    if arg.len() == 0 || arg == "show"@ {
        Wish::ShowConfig
    } else if arg == "reload"@ {
        Wish::ReloadConfig
    } else {
        Wish::Info("usage: /config [show|reload]"@)
    }
}

/// `/config`.
pub fn handle_config_command(arg: &str) -> (r: Effect)
    ensures
        r@ == config_wish(arg@),
{
    if is_empty(arg) || same(arg, "show") {
        Effect::ShowConfig
    } else if same(arg, "reload") {
        Effect::ReloadConfig
    } else {
        info("usage: /config [show|reload]")
    }
}

/// What is told of the settings.
pub open spec fn config_told(a: Mind, exists: bool) -> Seq<char> {
    "config file: "@ + a.settings.config_file@ + "\nloaded: "@ + (if exists {
        "yes"@
    } else {
        "no"@
    }) + "\nprovider="@ + provider_word(a.settings.provider) + "\nmodel="@ + a.provider.model
        + "\nworkspace="@ + a.settings.workspace@ + "\nautonomous="@ + bool_word(
        a.settings.autonomous,
    ) + "\nmax_tool_rounds="@ + decimal(tool_rounds(a.settings))
}

/// What is told of the provider in line mode.
pub open spec fn provider_told(a: Mind) -> Seq<char> {
    "provider="@ + provider_word(a.settings.provider) + " model="@ + a.provider.model
        + " base_url="@ + a.settings.base_url->0@ + " think="@ + think_word(a.provider.think)
        + " show_thinking="@ + bool_word(!a.hide_thinking) + " stops="@ + shown_stops(
        quoted_stops(a.provider.stops),
    ) + " permissions=shell:"@ + permission_word(a.tools.shell_permission) + ",write:"@
        + permission_word(a.tools.write_permission) + " access="@ + access_name(
        a.settings.full_system_access,
    )
}

/// What is told of the provider on the full screen.
pub open spec fn provider_shown(a: Mind) -> Seq<char> {
    "provider="@ + provider_word(a.settings.provider) + "\nmodel="@ + a.provider.model
        + "\nbase_url="@ + a.settings.base_url->0@ + "\nthink="@ + think_word(a.provider.think)
        + "\npermissions=shell:"@ + permission_word(a.tools.shell_permission) + ",write:"@
        + permission_word(a.tools.write_permission) + "\naccess="@ + access_name(
        a.settings.full_system_access,
    )
}

/// An agent that uses another model.
pub open spec fn with_model(a: Mind, name: Seq<char>) -> Mind {
    Mind { model: Some(name), provider: Provider { model: name, ..a.provider }, ..a }
}

/// The models of the local server, the one in use marked.
pub open spec fn marked(models: Seq<Seq<char>>, model: Seq<char>) -> Seq<Seq<char>> {
    models.map_values(
        |m: Seq<char>|
            if m == model {
                "* "@ + m
            } else {
                "  "@ + m
            },
    )
}

impl Agent {
    /// What is told of the settings, given whether there is a config file.
    pub fn config_summary(&self, exists: bool) -> (r: String)
        ensures
            r@ == config_told(self@, exists),
    {
        let mut out = "config file: ".to_owned();
        out.append(self.config.config_file.as_str());
        out.append("\nloaded: ");
        if exists {
            out.append("yes");
        } else {
            out.append("no");
        }
        out.append("\nprovider=");
        out.append(self.config.provider.name());
        out.append("\nmodel=");
        out.append(self.provider.model());
        out.append("\nworkspace=");
        out.append(self.config.workspace.as_str());
        out.append("\nautonomous=");
        out.append(bool_name(self.config.autonomous));
        out.append("\nmax_tool_rounds=");
        out.append(size_number(self.config.effective_max_tool_rounds()).as_str());
        out
    }

    /// What is told once the config file was read again.
    pub fn reload_summary(&self) -> (r: String)
        ensures
            r@ == "reloaded config from "@ + self@.settings.config_file@,
    {
        let mut out = "reloaded config from ".to_owned();
        out.append(self.config.config_file.as_str());
        out
    }

    /// What is told of the provider in line mode.
    pub fn provider_line(&self) -> (r: String)
        requires
            self.config.base_url is Some,
        ensures
            r@ == provider_told(self@),
    {
        let mut out = "provider=".to_owned();
        out.append(self.config.provider.name());
        out.append(" model=");
        out.append(self.provider.model());
        out.append(" base_url=");
        out.append(self.config.base_url());
        out.append(" think=");
        out.append(self.provider.think().name());
        out.append(" show_thinking=");
        out.append(bool_name(self.config.show_thinking()));
        out.append(" stops=");
        out.append(format_stop_sequences(self.provider.stop_sequences()).as_str());
        out.append(" permissions=shell:");
        out.append(self.tools.shell_permission().name());
        out.append(",write:");
        out.append(self.tools.write_permission().name());
        out.append(" access=");
        out.append(self.config.access_label());
        out
    }

    /// What is told of the provider on the full screen.
    pub fn provider_lines(&self) -> (r: String)
        requires
            self.config.base_url is Some,
        ensures
            r@ == provider_shown(self@),
    {
        let mut out = "provider=".to_owned();
        out.append(self.config.provider.name());
        out.append("\nmodel=");
        out.append(self.provider.model());
        out.append("\nbase_url=");
        out.append(self.config.base_url());
        out.append("\nthink=");
        out.append(self.provider.think().name());
        out.append("\npermissions=shell:");
        out.append(self.tools.shell_permission().name());
        out.append(",write:");
        out.append(self.tools.write_permission().name());
        out.append("\naccess=");
        out.append(self.config.access_label());
        out
    }

    /// The models of the local server, the one in use marked.
    pub fn mark_models(&self, models: &Vec<String>) -> (r: Vec<String>)
        ensures
            texts(r@) == marked(texts(models@), self@.provider.model),
    {
        let mut out: Vec<String> = Vec::new();
        let mut i: usize = 0;
        while i < models.len()
            invariant
                i <= models@.len(),
                out@.len() == i,
                forall|j: int|
                    0 <= j < i ==> (#[trigger] out@[j])@ == (if models@[j]@
                        == self@.provider.model {
                        "* "@ + models@[j]@
                    } else {
                        "  "@ + models@[j]@
                    }),
            decreases models@.len() - i,
        {
            let mut line = if same(&models[i], self.provider.model()) {
                "* ".to_owned()
            } else {
                "  ".to_owned()
            };
            line.append(models[i].as_str());
            out.push(line);
            i += 1;
        }
        assert(texts(out@) =~= marked(texts(models@), self@.provider.model));
        out
    }

    /// Uses another model.
    pub fn set_model(&mut self, name: &str)
        ensures
            final(self)@ == with_model(old(self)@, name@),
            final(self).config.base_url == old(self).config.base_url,
    {
        self.provider.set_model(name.to_owned());
        self.config.model = Some(name.to_owned());
    }

    /// Uses another model if the local server has it. The result says whether it does.
    pub fn choose_model(&mut self, name: &str, models: &Vec<String>) -> (r: bool)
        ensures
            r == texts(models@).contains(name@),
            final(self)@ == (if r {
                with_model(old(self)@, name@)
            } else {
                old(self)@
            }),
            final(self).config.base_url == old(self).config.base_url,
    {
        let mut i: usize = 0;
        while i < models.len()
            invariant
                i <= models@.len(),
                forall|j: int| 0 <= j < i ==> #[trigger] texts(models@)[j] != name@,
                self@ == old(self)@,
                self.config.base_url == old(self).config.base_url,
            decreases models@.len() - i,
        {
            if same(&models[i], name) {
                self.set_model(name);
                assert(texts(models@)[i as int] == name@);
                return true;
            }
            i += 1;
        }
        false
    }
}

/// What is told of a model that is in use now.
pub fn model_set_text(name: &str) -> (r: String)
    ensures
        r@ == "model set to "@ + name@,
{
    let mut out = "model set to ".to_owned();
    out.append(name);
    out
}

/// What is told in line mode of a model that the local server does not have.
pub fn model_missing_text(name: &str) -> (r: String)
    ensures
        r@ == "model '"@ + name@ + "' is not installed locally. Use /models to see choices."@,
{
    let mut out = "model '".to_owned();
    out.append(name);
    out.append("' is not installed locally. Use /models to see choices.");
    out
}

/// What is told on the full screen of a model that the local server does not have.
pub fn tui_model_missing_text(name: &str) -> (r: String)
    ensures
        r@ == "model '"@ + name@ + "' is not installed locally"@,
{
    let mut out = "model '".to_owned();
    out.append(name);
    out.append("' is not installed locally");
    out
}

// ---------------------------------------------------------------------------
// Line mode
// ---------------------------------------------------------------------------

/// What a shell command calls for.
pub open spec fn shell_wish(command: Seq<char>) -> Wish {
    if trimmed(command).len() == 0 {
        Wish::Error("no shell command provided"@)
    } else {
        Wish::RunShell { command }
    }
}

/// What a shell command calls for.
pub fn run_shell_command(command: &str) -> (r: Effect)
    ensures
        r@ == shell_wish(command@),
{
    if is_empty(&trim_white(command)) {
        error("no shell command provided")
    } else {
        Effect::RunShell { command: command.to_owned() }
    }
}

/// What a command that the agent alone is about does; nothing where it is another.
pub open spec fn own_command(a: Mind, command: Seq<char>, arg: Seq<char>) -> Option<(Mind, Wish)> {
    if command == "/exit"@ || command == "/quit"@ {
        Some((a, Wish::Quit))
    } else if command == "/chat"@ || command == "/exit-shell"@ {
        Some((Mind { shell_mode: false, ..a }, Wish::Info("chat mode enabled"@)))
    } else if command == "/config"@ {
        Some((a, config_wish(arg)))
    } else if command == "/attach"@ {
        Some(attaching(a, arg))
    } else if command == "/help"@ {
        Some((a, Wish::Help))
    } else if command == "/provider"@ {
        Some((a, Wish::Info(provider_told(a))))
    } else if command == "/permissions"@ {
        Some(permissions(a, arg))
    } else if command == "/thinking"@ {
        Some(thinking(a, arg))
    } else if command == "/hide-thinking"@ {
        Some((with_hidden(a, true), Wish::Info("thinking trace hidden in the TUI"@)))
    } else if command == "/show-thinking"@ {
        Some((with_hidden(a, false), Wish::Info("thinking trace visible in the TUI"@)))
    } else if command == "/stop"@ {
        Some(stopping(a, arg))
    } else {
        None
    }
}

/// What `/models` calls for.
pub open spec fn models_wish(a: Mind) -> Wish {
    if a.settings.provider == ProviderKind::Ollama {
        Wish::ListModels
    } else {
        Wish::Error("/models is available for the Ollama provider"@)
    }
}

/// What `/use-model` does. Only a local server is asked whether it has the model.
pub open spec fn using_model(a: Mind, arg: Seq<char>) -> (Mind, Wish) {
    if arg.len() == 0 {
        (a, Wish::Error("usage: /use-model <model-name>"@))
    } else if a.settings.provider == ProviderKind::Ollama {
        (a, Wish::CheckModel { name: arg })
    } else {
        (with_model(a, arg), Wish::Info("model set to "@ + arg))
    }
}

/// What a command on what outlives a prompt calls for; nothing where it is another.
pub open spec fn lasting_command(command: Seq<char>, arg: Seq<char>) -> Option<Wish> {
    if command == "/session"@ {
        Some(Wish::Session { arg })
    } else if command == "/history"@ {
        Some(Wish::Session { arg: "history"@ })
    } else if command == "/interrupt"@ {
        Some(Wish::Interrupt)
    } else if command == "/memory"@ {
        Some(Wish::Memory { arg })
    } else if command == "/skills"@ {
        Some(Wish::Skills { arg })
    } else if command == "/worktree"@ {
        Some(Wish::Worktree { arg })
    } else if command == "/agents"@ {
        Some(Wish::Agents { arg })
    } else {
        None
    }
}

/// What a command on what outlives a prompt calls for; nothing where it is another.
fn lasting_effect(command: &str, arg: &str) -> (r: Option<Effect>)
    ensures
        match r {
            Some(effect) => lasting_command(command@, arg@) == Some(effect@),
            None => lasting_command(command@, arg@) is None,
        },
{
    if same(command, "/session") {
        Some(Effect::Session { arg: arg.to_owned() })
    } else if same(command, "/history") {
        Some(Effect::Session { arg: "history".to_owned() })
    } else if same(command, "/interrupt") {
        Some(Effect::Interrupt)
    } else if same(command, "/memory") {
        Some(Effect::Memory { arg: arg.to_owned() })
    } else if same(command, "/skills") {
        Some(Effect::Skills { arg: arg.to_owned() })
    } else if same(command, "/worktree") {
        Some(Effect::Worktree { arg: arg.to_owned() })
    } else if same(command, "/agents") {
        Some(Effect::Agents { arg: arg.to_owned() })
    } else {
        None
    }
}

/// What a command on models, files, shells or the web does, and any that is unknown.
pub open spec fn outer_command(a: Mind, input: Seq<char>, command: Seq<char>, arg: Seq<char>) -> (
    Mind,
    Wish,
) {
    if command == "/models"@ {
        (a, models_wish(a))
    } else if command == "/use-model"@ {
        using_model(a, arg)
    } else if command == "/list"@ {
        (
            a,
            Wish::ListFiles {
                path: if arg.len() == 0 {
                    None
                } else {
                    Some(arg)
                },
            },
        )
    } else if command == "/read"@ {
        (a, Wish::ReadFile { path: arg })
    } else if command == "/write"@ {
        (a, Wish::WriteFile { path: arg })
    } else if command == "/shell"@ {
        if arg.len() == 0 {
            (
                Mind { shell_mode: true, ..a },
                Wish::Info("shell mode enabled; use /chat or /exit-shell to return"@),
            )
        } else {
            (a, shell_wish(arg))
        }
    } else if command == "/terminal"@ {
        (a, Wish::Terminal { shell: arg })
    } else if command == "/search"@ {
        if arg.len() == 0 {
            (a, Wish::Error("usage: /search <query>"@))
        } else {
            (a, Wish::Search { query: arg })
        }
    } else if begins(command, "!"@) {
        (a, shell_wish(trimmed(trim_start(input, CharClass::Is('!')))))
    } else if command == "/clear"@ {
        (a, Wish::Clear)
    } else {
        (a, Wish::Error("unknown command: "@ + command))
    }
}

/// What a command does in line mode, and what it calls for.
pub open spec fn commanded(a: Mind, input: Seq<char>) -> (Mind, Wish) {
    match (
        lasting_command(command_in(input), argument_in(input)),
        own_command(a, command_in(input), argument_in(input)),
    ) {
        (Some(wish), _) => (a, wish),
        (None, Some(done)) => done,
        (None, None) => outer_command(a, input, command_in(input), argument_in(input)),
    }
}

impl Agent {
    fn leave_shell(&mut self) -> (r: Effect)
        ensures
            final(self)@ == (Mind { shell_mode: false, ..old(self)@ }),
            r@ == Wish::Info("chat mode enabled"@),
            final(self).config == old(self).config,
    {
        self.shell_mode = false;
        info("chat mode enabled")
    }

    fn enter_shell(&mut self) -> (r: Effect)
        ensures
            final(self)@ == (Mind { shell_mode: true, ..old(self)@ }),
            r@ == Wish::Info("shell mode enabled; use /chat or /exit-shell to return"@),
            final(self).config == old(self).config,
    {
        self.shell_mode = true;
        info("shell mode enabled; use /chat or /exit-shell to return")
    }

    fn handle_own_command(&mut self, command: &str, arg: &str) -> (r: Option<Effect>)
        requires
            old(self).config.base_url is Some,
        ensures
            match r {
                Some(effect) => own_command(old(self)@, command@, arg@) == Some(
                    (final(self)@, effect@),
                ),
                None => own_command(old(self)@, command@, arg@) is None && final(self)@
                    == old(self)@,
            },
            final(self).config.base_url == old(self).config.base_url,
    {
        if same(command, "/exit") || same(command, "/quit") {
            Some(Effect::Quit)
        } else if same(command, "/chat") || same(command, "/exit-shell") {
            Some(self.leave_shell())
        } else if same(command, "/config") {
            Some(handle_config_command(arg))
        } else if same(command, "/attach") {
            Some(self.handle_attach_command(arg))
        } else if same(command, "/help") {
            Some(Effect::Help)
        } else if same(command, "/provider") {
            Some(Effect::Info(self.provider_line()))
        } else if same(command, "/permissions") {
            Some(self.handle_permissions(arg))
        } else if same(command, "/thinking") {
            Some(self.handle_thinking(arg))
        } else if same(command, "/hide-thinking") {
            self.set_hidden(true);
            Some(info("thinking trace hidden in the TUI"))
        } else if same(command, "/show-thinking") {
            self.set_hidden(false);
            Some(info("thinking trace visible in the TUI"))
        } else if same(command, "/stop") {
            Some(self.handle_stop_sequences(arg))
        } else {
            None
        }
    }

    fn use_model(&mut self, arg: &str) -> (r: Effect)
        ensures
            (final(self)@, r@) == using_model(old(self)@, arg@),
            final(self).config.base_url == old(self).config.base_url,
    {
        if is_empty(arg) {
            error("usage: /use-model <model-name>")
        } else if self.config.provider == ProviderKind::Ollama {
            Effect::CheckModel { name: arg.to_owned() }
        } else {
            self.set_model(arg);
            Effect::Info(model_set_text(arg))
        }
    }

    fn handle_outer_command(&mut self, input: &str, command: &str, arg: &str) -> (r: Effect)
        ensures
            (final(self)@, r@) == outer_command(old(self)@, input@, command@, arg@),
            final(self).config.base_url == old(self).config.base_url,
    {
        if same(command, "/models") {
            if self.config.provider == ProviderKind::Ollama {
                Effect::ListModels
            } else {
                error("/models is available for the Ollama provider")
            }
        } else if same(command, "/use-model") {
            self.use_model(arg)
        } else if same(command, "/list") {
            if is_empty(arg) {
                Effect::ListFiles { path: None }
            } else {
                Effect::ListFiles { path: Some(arg.to_owned()) }
            }
        } else if same(command, "/read") {
            Effect::ReadFile { path: arg.to_owned() }
        } else if same(command, "/write") {
            Effect::WriteFile { path: arg.to_owned() }
        } else if same(command, "/shell") {
            if is_empty(arg) {
                self.enter_shell()
            } else {
                run_shell_command(arg)
            }
        } else if same(command, "/terminal") {
            Effect::Terminal { shell: arg.to_owned() }
        } else if same(command, "/search") {
            if is_empty(arg) {
                error("usage: /search <query>")
            } else {
                Effect::Search { query: arg.to_owned() }
            }
        } else if starts(command, "!") {
            run_shell_command(&trim_white(&trim_start_of(input, CharClass::Is('!'))))
        } else if same(command, "/clear") {
            Effect::Clear
        } else {
            let mut out = "unknown command: ".to_owned();
            out.append(command);
            Effect::Error(out)
        }
    }

    /// Takes a command in line mode.
    pub fn handle_command(&mut self, input: &str) -> (r: Effect)
        requires
            old(self).config.base_url is Some,
        ensures
            (final(self)@, r@) == commanded(old(self)@, input@),
            final(self).config.base_url == old(self).config.base_url,
    {
        let (command, arg) = split_command(input);
        if let Some(effect) = lasting_effect(&command, &arg) {
            return effect;
        }
        match self.handle_own_command(&command, &arg) {
            Some(effect) => effect,
            None => self.handle_outer_command(input, &command, &arg),
        }
    }
}

/// The shell that `/terminal` opens: the one that is named, else the user's, else the
/// system's.
pub fn terminal_shell(named: &str, users: Option<String>) -> (r: String)
    ensures
        r@ == (if named@.len() > 0 {
            named@
        } else {
            match users {
                Some(shell) => shell@,
                None => "/bin/sh"@,
            }
        }),
{
    if !is_empty(named) {
        named.to_owned()
    } else {
        match users {
            Some(shell) => shell,
            None => "/bin/sh".to_owned(),
        }
    }
}

/// What is told before a shell is opened.
pub fn terminal_opening(shell: &str, workspace: &str) -> (r: String)
    ensures
        r@ == "opening terminal shell `"@ + shell@ + "` in "@ + workspace@
            + "; exit the shell to return"@,
{
    let mut out = "opening terminal shell `".to_owned();
    out.append(shell);
    out.append("` in ");
    out.append(workspace);
    out.append("; exit the shell to return");
    out
}

/// Whether a line ends what is typed for `/write`.
pub fn ends_typing(line: &str) -> (r: bool)
    ensures
        r == (trim_end(line@, CharClass::White) == "."@),
{
    same(&trim_end_of(line, CharClass::White), ".")
}

// ---------------------------------------------------------------------------
// The full screen
// ---------------------------------------------------------------------------

/// What a command on the full screen calls for.
#[derive(Debug)]
pub enum TuiEffect {
    /// The interface is left.
    Quit,
    /// Nothing more.
    Done,
    /// The user is told that something is wrong, outside the transcript.
    Error(String),
    /// The config file is looked for and shown.
    ShowConfig,
    /// The config file is read again.
    ReloadConfig,
    /// The models of the local server are listed.
    ListModels,
    /// A model is looked for among those of the local server, and taken.
    CheckModel { name: String },
    /// A file is read and attached.
    AttachFile { path: String },
    /// An image is measured and attached.
    AttachImage { path: String },
}

/// What a command on the full screen calls for as a mathematical object.
pub ghost enum TuiWish {
    Quit,
    Done,
    Error(Seq<char>),
    ShowConfig,
    ReloadConfig,
    ListModels,
    CheckModel { name: Seq<char> },
    AttachFile { path: Seq<char> },
    AttachImage { path: Seq<char> },
}

impl View for TuiEffect {
    type V = TuiWish;

    open spec fn view(&self) -> TuiWish {
        match self {
            TuiEffect::Quit => TuiWish::Quit,
            TuiEffect::Done => TuiWish::Done,
            TuiEffect::Error(t) => TuiWish::Error(t@),
            TuiEffect::ShowConfig => TuiWish::ShowConfig,
            TuiEffect::ReloadConfig => TuiWish::ReloadConfig,
            TuiEffect::ListModels => TuiWish::ListModels,
            TuiEffect::CheckModel { name } => TuiWish::CheckModel { name: name@ },
            TuiEffect::AttachFile { path } => TuiWish::AttachFile { path: path@ },
            TuiEffect::AttachImage { path } => TuiWish::AttachImage { path: path@ },
        }
    }
}

/// The interface with one more entry.
pub open spec fn telling(s: Screen, speaker: Speaker, content: Seq<char>) -> Screen {
    Screen { transcript: with_entry(s.transcript, speaker, content), ..s }
}

/// What `/thinking` does on the full screen.
pub open spec fn tui_thinking(a: Mind, s: Screen, arg: Seq<char>) -> (Mind, Screen) {
    if arg.len() == 0 {
        (
            a,
            telling(
                s,
                Speaker::System,
                "think="@ + think_word(a.provider.think) + "\nshow_thinking="@ + bool_word(
                    !a.hide_thinking,
                ),
            ),
        )
    } else if arg == "show"@ {
        (with_hidden(a, false), telling(s, Speaker::System, "thinking trace visible"@))
    } else if arg == "hide"@ {
        (with_hidden(a, true), telling(s, Speaker::System, "thinking trace hidden"@))
    } else {
        match think_mode(arg) {
            Some(mode) => (
                with_think(a, mode),
                telling(s, Speaker::System, "think="@ + think_word(mode)),
            ),
            None => (a, telling(s, Speaker::Error, THINKING_USAGE@)),
        }
    }
}

/// What `/attach` does on the full screen: what line mode tells, the transcript shows.
pub open spec fn tui_attaching(a: Mind, s: Screen, arg: Seq<char>) -> (Mind, Screen, TuiWish) {
    let (b, wish) = attaching(a, arg);
    match wish {
        Wish::Info(t) => (b, telling(s, Speaker::System, t), TuiWish::Done),
        Wish::AttachFile { path } => (b, s, TuiWish::AttachFile { path }),
        Wish::AttachImage { path } => (b, s, TuiWish::AttachImage { path }),
        Wish::Error(t) => (b, s, TuiWish::Error(t)),
        _ => (b, s, TuiWish::Done),
    }
}

/// What `/config` does on the full screen.
pub open spec fn tui_config(s: Screen, arg: Seq<char>) -> (Screen, TuiWish) {
    match config_wish(arg) {
        Wish::ShowConfig => (s, TuiWish::ShowConfig),
        Wish::ReloadConfig => (s, TuiWish::ReloadConfig),
        Wish::Info(t) => (telling(s, Speaker::System, t), TuiWish::Done),
        _ => (s, TuiWish::Done),
    }
}

/// What `/use-model` does on the full screen.
pub open spec fn tui_using_model(a: Mind, s: Screen, arg: Seq<char>) -> (Mind, Screen, TuiWish) {
    if arg.len() == 0 {
        (a, telling(s, Speaker::Error, "usage: /use-model <model>"@), TuiWish::Done)
    } else if a.settings.provider == ProviderKind::Ollama {
        (a, s, TuiWish::CheckModel { name: arg })
    } else {
        (
            with_model(a, arg),
            telling(s, Speaker::System, "model set to "@ + arg),
            TuiWish::Done,
        )
    }
}

/// What a command does on the full screen, and what it calls for.
pub open spec fn tui_commanded(a: Mind, s: Screen, input: Seq<char>) -> (Mind, Screen, TuiWish) {
    let command = command_in(input);
    let arg = argument_in(input);
    if command == "/exit"@ || command == "/quit"@ {
        (a, s, TuiWish::Quit)
    } else if command == "/clear"@ {
        (a, Screen { transcript: seq![], status: "ready"@, ..s }, TuiWish::Done)
    } else if command == "/help"@ {
        (a, telling(s, Speaker::System, TUI_HELP@), TuiWish::Done)
    } else if command == "/config"@ {
        let (t, wish) = tui_config(s, arg);
        (a, t, wish)
    } else if command == "/attach"@ {
        tui_attaching(a, s, arg)
    } else if command == "/provider"@ {
        (a, telling(s, Speaker::System, provider_shown(a)), TuiWish::Done)
    } else if command == "/models"@ {
        if a.settings.provider == ProviderKind::Ollama {
            (a, s, TuiWish::ListModels)
        } else {
            (
                a,
                telling(s, Speaker::Error, "/models is available for the Ollama provider"@),
                TuiWish::Done,
            )
        }
    } else if command == "/use-model"@ {
        tui_using_model(a, s, arg)
    } else if command == "/thinking"@ {
        let (b, t) = tui_thinking(a, s, arg);
        (b, t, TuiWish::Done)
    } else {
        (
            a,
            telling(
                s,
                Speaker::Error,
                "unsupported TUI command: "@ + command + ". Use /help."@,
            ),
            TuiWish::Done,
        )
    }
}

/// What `/help` shows on the full screen.
pub const TUI_HELP: &'static str = "Ratatui mode commands:\n- /help\n- /config\n- /config reload\n- /provider\n- /models\n- /use-model <name>\n- /thinking [auto|on|off|low|medium|high|show|hide]\n- /attach [show|clear|file <path>|image <path>]\n- /clear\n- /exit\n\nMouse and keyboard navigation:\n- Mouse wheel scrolls the transcript\n- Drag or click the scrollbar to reposition\n- Up/Down browse history when the input is empty\n- PgUp/PgDn scroll the transcript\n- ? toggles this help overlay\n\nUse default line mode for the full command surface while this TUI is iterating.";

/// What `/help` shows on the full screen.
pub fn tui_help_text() -> (r: &'static str)
    ensures
        r@ == TUI_HELP@,
{
    TUI_HELP
}

impl Agent {
    fn tui_attach(&mut self, state: &mut TuiState, arg: &str) -> (r: TuiEffect)
        ensures
            (final(self)@, final(state)@, r@) == tui_attaching(old(self)@, old(state)@, arg@),
            final(self).config == old(self).config,
    {
        match self.handle_attach_command(arg) {
            Effect::Info(t) => {
                state.say(Speaker::System, t);
                TuiEffect::Done
            },
            Effect::AttachFile { path } => TuiEffect::AttachFile { path },
            Effect::AttachImage { path } => TuiEffect::AttachImage { path },
            Effect::Error(t) => TuiEffect::Error(t),
            _ => TuiEffect::Done,
        }
    }

    fn tui_think(&mut self, state: &mut TuiState, arg: &str)
        ensures
            (final(self)@, final(state)@) == tui_thinking(old(self)@, old(state)@, arg@),
            final(self).config.base_url == old(self).config.base_url,
    {
        if is_empty(arg) {
            let mut out = "think=".to_owned();
            out.append(self.provider.think().name());
            out.append("\nshow_thinking=");
            out.append(bool_name(self.config.show_thinking()));
            state.say(Speaker::System, out);
        } else if same(arg, "show") {
            self.set_hidden(false);
            state.say(Speaker::System, "thinking trace visible".to_owned());
        } else if same(arg, "hide") {
            self.set_hidden(true);
            state.say(Speaker::System, "thinking trace hidden".to_owned());
        } else {
            match parse_think_mode(arg) {
                Some(mode) => {
                    self.set_think(mode);
                    let mut out = "think=".to_owned();
                    out.append(mode.name());
                    state.say(Speaker::System, out);
                },
                None => {
                    state.say(Speaker::Error, THINKING_USAGE.to_owned());
                },
            }
        }
    }

    fn tui_use_model(&mut self, state: &mut TuiState, arg: &str) -> (r: TuiEffect)
        ensures
            (final(self)@, final(state)@, r@) == tui_using_model(old(self)@, old(state)@, arg@),
            final(self).config.base_url == old(self).config.base_url,
    {
        if is_empty(arg) {
            state.say(Speaker::Error, "usage: /use-model <model>".to_owned());
            TuiEffect::Done
        } else if self.config.provider == ProviderKind::Ollama {
            TuiEffect::CheckModel { name: arg.to_owned() }
        } else {
            self.set_model(arg);
            state.say(Speaker::System, model_set_text(arg));
            TuiEffect::Done
        }
    }

    /// Takes a command on the full screen.
    pub fn handle_tui_command(&mut self, input: &str, state: &mut TuiState) -> (r: TuiEffect)
        requires
            old(self).config.base_url is Some,
        ensures
            (final(self)@, final(state)@, r@) == tui_commanded(old(self)@, old(state)@, input@),
            final(self).config.base_url == old(self).config.base_url,
    {
        let (command, arg) = split_command(input);
        if same(&command, "/exit") || same(&command, "/quit") {
            TuiEffect::Quit
        } else if same(&command, "/clear") {
            state.clear();
            TuiEffect::Done
        } else if same(&command, "/help") {
            state.say(Speaker::System, TUI_HELP.to_owned());
            TuiEffect::Done
        } else if same(&command, "/config") {
            match handle_config_command(&arg) {
                Effect::ShowConfig => TuiEffect::ShowConfig,
                Effect::ReloadConfig => TuiEffect::ReloadConfig,
                Effect::Info(t) => {
                    state.say(Speaker::System, t);
                    TuiEffect::Done
                },
                _ => TuiEffect::Done,
            }
        } else if same(&command, "/attach") {
            self.tui_attach(state, &arg)
        } else if same(&command, "/provider") {
            state.say(Speaker::System, self.provider_lines());
            TuiEffect::Done
        } else if same(&command, "/models") {
            if self.config.provider == ProviderKind::Ollama {
                TuiEffect::ListModels
            } else {
                state.say(
                    Speaker::Error,
                    "/models is available for the Ollama provider".to_owned(),
                );
                TuiEffect::Done
            }
        } else if same(&command, "/use-model") {
            self.tui_use_model(state, &arg)
        } else if same(&command, "/thinking") {
            self.tui_think(state, &arg);
            TuiEffect::Done
        } else {
            let mut out = "unsupported TUI command: ".to_owned();
            out.append(command.as_str());
            out.append(". Use /help.");
            state.say(Speaker::Error, out);
            TuiEffect::Done
        }
    }
}

/// The greeting on the full screen.
pub open spec fn greeting(full: bool, onboarding: Seq<Seq<char>>) -> Seq<char> {
    "# Welcome\n- Paste a kernel commit ID, patch context, or target backport task to begin.\n"@
        + joined(onboarding.map_values(|line: Seq<char>| "- "@ + line), "\n"@) + (if full {
        "\n\nWARNING: full system access is enabled. Absolute paths, path escapes, shell commands, and writes are allowed."@
    } else {
        ""@
    })
}

/// The lines of the greeting where none are configured.
pub open spec fn plain_onboarding() -> Seq<Seq<char>> {
    seq![
        "/help commands"@,
        "/models local models"@,
        "/search web search"@,
        "/permissions safety"@,
        "/terminal real shell"@,
        "/exit quit"@,
    ]
}

fn plain_onboarding_lines() -> (r: Vec<String>)
    ensures
        texts(r@) == plain_onboarding(),
{
    let mut lines: Vec<String> = Vec::new();
    lines.push("/help commands".to_owned());
    lines.push("/models local models".to_owned());
    lines.push("/search web search".to_owned());
    lines.push("/permissions safety".to_owned());
    lines.push("/terminal real shell".to_owned());
    lines.push("/exit quit".to_owned());
    assert(texts(lines@) =~= plain_onboarding());
    lines
}

/// The greeting on the full screen.
pub fn onboarding_text(full_system_access: bool, onboarding: &Vec<String>) -> (r: String)
    ensures
        r@ == greeting(
            full_system_access,
            if onboarding@.len() == 0 {
                plain_onboarding()
            } else {
                texts(onboarding@)
            },
        ),
{
    let lines = if onboarding.len() == 0 {
        plain_onboarding_lines()
    } else {
        copies(onboarding)
    };
    let mut items: Vec<String> = Vec::new();
    let mut i: usize = 0;
    while i < lines.len()
        invariant
            i <= lines@.len(),
            items@.len() == i,
            forall|j: int| 0 <= j < i ==> (#[trigger] items@[j])@ == "- "@ + lines@[j]@,
        decreases lines@.len() - i,
    {
        let mut item = "- ".to_owned();
        item.append(lines[i].as_str());
        items.push(item);
        i += 1;
    }
    assert(texts(items@) =~= texts(lines@).map_values(|line: Seq<char>| "- "@ + line));
    let mut out =
        "# Welcome\n- Paste a kernel commit ID, patch context, or target backport task to begin.\n".to_owned();
    out.append(join(&items, "\n").as_str());
    if full_system_access {
        out.append(
            "\n\nWARNING: full system access is enabled. Absolute paths, path escapes, shell commands, and writes are allowed.",
        );
    } else {
        out.append("");
    }
    out
}


// ---------------------------------------------------------------------------
// Laws
// ---------------------------------------------------------------------------

/// Whatever command comes, the provider is asked with what the settings name.
pub proof fn law_commands_keep_step(a: Mind, s: Screen, input: Seq<char>)
    requires
        in_step(a),
    ensures
        in_step(commanded(a, input).0),
        in_step(tui_commanded(a, s, input).0),
{
}

/// Whether a command is one that is offered to users.
pub open spec fn is_documented(command: Seq<char>) -> bool {
    ||| lasting_command(command, ""@) is Some
    ||| command == "/exit"@
    ||| command == "/quit"@
    ||| command == "/chat"@
    ||| command == "/exit-shell"@
    ||| command == "/config"@
    ||| command == "/attach"@
    ||| command == "/help"@
    ||| command == "/provider"@
    ||| command == "/permissions"@
    ||| command == "/thinking"@
    ||| command == "/hide-thinking"@
    ||| command == "/show-thinking"@
    ||| command == "/stop"@
    ||| command == "/models"@
    ||| command == "/use-model"@
    ||| command == "/list"@
    ||| command == "/read"@
    ||| command == "/write"@
    ||| command == "/shell"@
    ||| command == "/terminal"@
    ||| command == "/search"@
    ||| command == "/clear"@
    ||| begins(command, "!"@)
}

/// Whether a text cannot be the one that an unknown command is answered with.
pub open spec fn is_of_a_known_command(t: Seq<char>) -> bool {
    t.len() > 1 && t[1] != 'n'
}

proof fn lemma_own_errors(a: Mind, command: Seq<char>, arg: Seq<char>)
    ensures
        own_command(a, command, arg) matches Some((b, Wish::Error(t))) ==> is_of_a_known_command(t),
{
    reveal_strlit("usage: /permissions [ask|allow|deny]");
    reveal_strlit("usage: /permissions shell [ask|allow|deny]");
    reveal_strlit("usage: /permissions write [ask|allow|deny]");
    reveal_strlit("usage: /attach file <path>");
    reveal_strlit("usage: /attach image <path>");
    reveal_strlit("usage: /attach [show|clear|file <path>|image <path>]");
    reveal_strlit("usage: /thinking [auto|on|off|low|medium|high|show|hide]");
    reveal_strlit("usage: /permissions, /permissions [ask|allow|deny], /permissions shell <mode>, or /permissions write <mode>");
    reveal_strlit("usage: /stop, /stop clear, /stop add <text>, or /stop set <a,b,c>");
}

proof fn lemma_outer_errors(a: Mind, input: Seq<char>, command: Seq<char>, arg: Seq<char>)
    requires
        is_documented(command),
        lasting_command(command, arg) is None,
        own_command(a, command, arg) is None,
    ensures
        outer_command(a, input, command, arg).1 matches Wish::Error(t) ==> is_of_a_known_command(t),
{
    reveal_strlit("no shell command provided");
    reveal_strlit("/models is available for the Ollama provider");
    reveal_strlit("usage: /use-model <model-name>");
    reveal_strlit("usage: /search <query>");
}

/// No command that is offered to users is answered as an unknown one.
pub proof fn law_documented_commands_are_known(a: Mind, input: Seq<char>)
    requires
        is_documented(command_in(input)),
    ensures
        commanded(a, input).1 != Wish::Error("unknown command: "@ + command_in(input)),
{
    reveal_strlit("unknown command: ");
    let text = "unknown command: "@ + command_in(input);
    assert(text[1] == 'n');
    lemma_own_errors(a, command_in(input), argument_in(input));
    if lasting_command(command_in(input), argument_in(input)) is None && own_command(
        a,
        command_in(input),
        argument_in(input),
    ) is None {
        lemma_outer_errors(a, input, command_in(input), argument_in(input));
    }
}

/// The commands on sessions, notes, skills, worktrees and workers are carried out, with
/// what is typed behind them, and change nothing by themselves.
pub proof fn law_lasting_commands_are_carried_out(a: Mind, input: Seq<char>)
    ensures
        command_in(input) == "/session"@ ==> commanded(a, input) == (
            a,
            Wish::Session { arg: argument_in(input) },
        ),
        command_in(input) == "/history"@ ==> commanded(a, input) == (
            a,
            Wish::Session { arg: "history"@ },
        ),
        command_in(input) == "/interrupt"@ ==> commanded(a, input) == (a, Wish::Interrupt),
        command_in(input) == "/memory"@ ==> commanded(a, input) == (
            a,
            Wish::Memory { arg: argument_in(input) },
        ),
        command_in(input) == "/skills"@ ==> commanded(a, input) == (
            a,
            Wish::Skills { arg: argument_in(input) },
        ),
        command_in(input) == "/worktree"@ ==> commanded(a, input) == (
            a,
            Wish::Worktree { arg: argument_in(input) },
        ),
        command_in(input) == "/agents"@ ==> commanded(a, input) == (
            a,
            Wish::Agents { arg: argument_in(input) },
        ),
{
    reveal_strlit("/session");
    reveal_strlit("/history");
    reveal_strlit("/interrupt");
    reveal_strlit("/memory");
    reveal_strlit("/skills");
    reveal_strlit("/worktree");
    reveal_strlit("/agents");
    assert("/session"@[1] == 's' && "/history"@[1] == 'h' && "/memory"@[1] == 'm');
    assert("/skills"@[1] == 's' && "/agents"@[1] == 'a' && "/skills"@[2] == 'k');
    assert("/interrupt"@[1] == 'i' && "/worktree"@[1] == 'w');
}

/// No command touches the conversation.
pub proof fn law_commands_leave_the_conversation(a: Mind, s: Screen, input: Seq<char>)
    ensures
        commanded(a, input).0.messages == a.messages,
        tui_commanded(a, s, input).0.messages == a.messages,
{
}

/// No command changes where tools may reach, and none on the full screen what they may do.
pub proof fn law_commands_leave_the_reach(a: Mind, s: Screen, input: Seq<char>)
    ensures
        commanded(a, input).0.tools.workspace == a.tools.workspace,
        commanded(a, input).0.tools.full_system_access == a.tools.full_system_access,
        commanded(a, input).0.settings == a.settings,
        tui_commanded(a, s, input).0.tools == a.tools,
        tui_commanded(a, s, input).0.settings == a.settings,
{
}

/// Clearing the stop sequences leaves none, whatever there was.
pub proof fn law_cleared_stops_are_gone(a: Mind)
    ensures
        stopping(a, "clear"@).0.stops.len() == 0,
        stopping(a, "clear"@).0.provider.stops.len() == 0,
{
    reveal_strlit("clear");
}


/// A command on the full screen leaves the input, its history and the scrolling as they
/// are.
pub proof fn law_commands_leave_the_input(a: Mind, s: Screen, input: Seq<char>)
    ensures
        ({
            let t = tui_commanded(a, s, input).1;
            &&& t.input == s.input
            &&& t.history == s.history
            &&& t.index == s.index
            &&& t.scroll == s.scroll
            &&& t.show_help == s.show_help
            &&& is_sound(s) ==> is_sound(t)
        }),
{
}

// ---------------------------------------------------------------------------
// Laws of single commands
// ---------------------------------------------------------------------------

proof fn lemma_command_names_differ()
    ensures
        "/exit"@.len() == 5 && "/exit"@[1] == 'e' && "/exit"@[2] == 'x',
        !begins("/exit"@, "!"@),
        "/quit"@.len() == 5 && "/quit"@[1] == 'q' && "/quit"@[2] == 'u',
        !begins("/quit"@, "!"@),
        "/chat"@.len() == 5 && "/chat"@[1] == 'c' && "/chat"@[2] == 'h',
        !begins("/chat"@, "!"@),
        "/exit-shell"@.len() == 11 && "/exit-shell"@[1] == 'e' && "/exit-shell"@[2] == 'x',
        !begins("/exit-shell"@, "!"@),
        "/config"@.len() == 7 && "/config"@[1] == 'c' && "/config"@[2] == 'o',
        !begins("/config"@, "!"@),
        "/attach"@.len() == 7 && "/attach"@[1] == 'a' && "/attach"@[2] == 't',
        !begins("/attach"@, "!"@),
        "/help"@.len() == 5 && "/help"@[1] == 'h' && "/help"@[2] == 'e',
        !begins("/help"@, "!"@),
        "/provider"@.len() == 9 && "/provider"@[1] == 'p' && "/provider"@[2] == 'r',
        !begins("/provider"@, "!"@),
        "/permissions"@.len() == 12 && "/permissions"@[1] == 'p' && "/permissions"@[2] == 'e',
        !begins("/permissions"@, "!"@),
        "/thinking"@.len() == 9 && "/thinking"@[1] == 't' && "/thinking"@[2] == 'h',
        !begins("/thinking"@, "!"@),
        "/hide-thinking"@.len() == 14 && "/hide-thinking"@[1] == 'h' && "/hide-thinking"@[2] == 'i',
        !begins("/hide-thinking"@, "!"@),
        "/show-thinking"@.len() == 14 && "/show-thinking"@[1] == 's' && "/show-thinking"@[2] == 'h',
        !begins("/show-thinking"@, "!"@),
        "/stop"@.len() == 5 && "/stop"@[1] == 's' && "/stop"@[2] == 't',
        !begins("/stop"@, "!"@),
        "/models"@.len() == 7 && "/models"@[1] == 'm' && "/models"@[2] == 'o',
        !begins("/models"@, "!"@),
        "/use-model"@.len() == 10 && "/use-model"@[1] == 'u' && "/use-model"@[2] == 's',
        !begins("/use-model"@, "!"@),
        "/list"@.len() == 5 && "/list"@[1] == 'l' && "/list"@[2] == 'i',
        !begins("/list"@, "!"@),
        "/read"@.len() == 5 && "/read"@[1] == 'r' && "/read"@[2] == 'e',
        !begins("/read"@, "!"@),
        "/write"@.len() == 6 && "/write"@[1] == 'w' && "/write"@[2] == 'r',
        !begins("/write"@, "!"@),
        "/shell"@.len() == 6 && "/shell"@[1] == 's' && "/shell"@[2] == 'h',
        !begins("/shell"@, "!"@),
        "/terminal"@.len() == 9 && "/terminal"@[1] == 't' && "/terminal"@[2] == 'e',
        !begins("/terminal"@, "!"@),
        "/search"@.len() == 7 && "/search"@[1] == 's' && "/search"@[2] == 'e',
        !begins("/search"@, "!"@),
        "/clear"@.len() == 6 && "/clear"@[1] == 'c' && "/clear"@[2] == 'l',
        !begins("/clear"@, "!"@),
        "/session"@.len() == 8 && "/session"@[1] == 's' && "/session"@[2] == 'e',
        !begins("/session"@, "!"@),
        "/history"@.len() == 8 && "/history"@[1] == 'h' && "/history"@[2] == 'i',
        !begins("/history"@, "!"@),
        "/interrupt"@.len() == 10 && "/interrupt"@[1] == 'i' && "/interrupt"@[2] == 'n',
        !begins("/interrupt"@, "!"@),
        "/memory"@.len() == 7 && "/memory"@[1] == 'm' && "/memory"@[2] == 'e',
        !begins("/memory"@, "!"@),
        "/skills"@.len() == 7 && "/skills"@[1] == 's' && "/skills"@[2] == 'k',
        !begins("/skills"@, "!"@),
        "/worktree"@.len() == 9 && "/worktree"@[1] == 'w' && "/worktree"@[2] == 'o',
        !begins("/worktree"@, "!"@),
        "/agents"@.len() == 7 && "/agents"@[1] == 'a' && "/agents"@[2] == 'g',
        !begins("/agents"@, "!"@),
{
    reveal_strlit("!");
    reveal_strlit("/exit");
    reveal_strlit("/quit");
    reveal_strlit("/chat");
    reveal_strlit("/exit-shell");
    reveal_strlit("/config");
    reveal_strlit("/attach");
    reveal_strlit("/help");
    reveal_strlit("/provider");
    reveal_strlit("/permissions");
    reveal_strlit("/thinking");
    reveal_strlit("/hide-thinking");
    reveal_strlit("/show-thinking");
    reveal_strlit("/stop");
    reveal_strlit("/models");
    reveal_strlit("/use-model");
    reveal_strlit("/list");
    reveal_strlit("/read");
    reveal_strlit("/write");
    reveal_strlit("/shell");
    reveal_strlit("/terminal");
    reveal_strlit("/search");
    reveal_strlit("/clear");
    reveal_strlit("/session");
    reveal_strlit("/history");
    reveal_strlit("/interrupt");
    reveal_strlit("/memory");
    reveal_strlit("/skills");
    reveal_strlit("/worktree");
    reveal_strlit("/agents");
    assert(begins("/exit"@, "!"@) ==> "/exit"@.subrange(0, 1)[0] == "/exit"@[0]);
    assert(begins("/quit"@, "!"@) ==> "/quit"@.subrange(0, 1)[0] == "/quit"@[0]);
    assert(begins("/chat"@, "!"@) ==> "/chat"@.subrange(0, 1)[0] == "/chat"@[0]);
    assert(begins("/exit-shell"@, "!"@) ==> "/exit-shell"@.subrange(0, 1)[0] == "/exit-shell"@[0]);
    assert(begins("/config"@, "!"@) ==> "/config"@.subrange(0, 1)[0] == "/config"@[0]);
    assert(begins("/attach"@, "!"@) ==> "/attach"@.subrange(0, 1)[0] == "/attach"@[0]);
    assert(begins("/help"@, "!"@) ==> "/help"@.subrange(0, 1)[0] == "/help"@[0]);
    assert(begins("/provider"@, "!"@) ==> "/provider"@.subrange(0, 1)[0] == "/provider"@[0]);
    assert(begins("/permissions"@, "!"@) ==> "/permissions"@.subrange(0, 1)[0] == "/permissions"@[0]);
    assert(begins("/thinking"@, "!"@) ==> "/thinking"@.subrange(0, 1)[0] == "/thinking"@[0]);
    assert(begins("/hide-thinking"@, "!"@) ==> "/hide-thinking"@.subrange(0, 1)[0] == "/hide-thinking"@[0]);
    assert(begins("/show-thinking"@, "!"@) ==> "/show-thinking"@.subrange(0, 1)[0] == "/show-thinking"@[0]);
    assert(begins("/stop"@, "!"@) ==> "/stop"@.subrange(0, 1)[0] == "/stop"@[0]);
    assert(begins("/models"@, "!"@) ==> "/models"@.subrange(0, 1)[0] == "/models"@[0]);
    assert(begins("/use-model"@, "!"@) ==> "/use-model"@.subrange(0, 1)[0] == "/use-model"@[0]);
    assert(begins("/list"@, "!"@) ==> "/list"@.subrange(0, 1)[0] == "/list"@[0]);
    assert(begins("/read"@, "!"@) ==> "/read"@.subrange(0, 1)[0] == "/read"@[0]);
    assert(begins("/write"@, "!"@) ==> "/write"@.subrange(0, 1)[0] == "/write"@[0]);
    assert(begins("/shell"@, "!"@) ==> "/shell"@.subrange(0, 1)[0] == "/shell"@[0]);
    assert(begins("/terminal"@, "!"@) ==> "/terminal"@.subrange(0, 1)[0] == "/terminal"@[0]);
    assert(begins("/search"@, "!"@) ==> "/search"@.subrange(0, 1)[0] == "/search"@[0]);
    assert(begins("/clear"@, "!"@) ==> "/clear"@.subrange(0, 1)[0] == "/clear"@[0]);
    assert(begins("/session"@, "!"@) ==> "/session"@.subrange(0, 1)[0] == "/session"@[0]);
    assert(begins("/history"@, "!"@) ==> "/history"@.subrange(0, 1)[0] == "/history"@[0]);
    assert(begins("/interrupt"@, "!"@) ==> "/interrupt"@.subrange(0, 1)[0] == "/interrupt"@[0]);
    assert(begins("/memory"@, "!"@) ==> "/memory"@.subrange(0, 1)[0] == "/memory"@[0]);
    assert(begins("/skills"@, "!"@) ==> "/skills"@.subrange(0, 1)[0] == "/skills"@[0]);
    assert(begins("/worktree"@, "!"@) ==> "/worktree"@.subrange(0, 1)[0] == "/worktree"@[0]);
    assert(begins("/agents"@, "!"@) ==> "/agents"@.subrange(0, 1)[0] == "/agents"@[0]);
}

/// A command is what stands before the first space of an input, its argument what stands
/// behind it without the blanks around it.
pub proof fn law_inputs_are_command_and_argument(command: Seq<char>, rest: Seq<char>)
    requires
        forall|i: int| 0 <= i < command.len() ==> #[trigger] command[i] != ' ',
    ensures
        command_in(command + " "@ + rest) == command,
        argument_in(command + " "@ + rest) == trimmed(rest),
        command_in(command) == command,
        argument_in(command).len() == 0,
        halves(command + " "@ + rest) == (command, Some(rest)),
        halves(command) == (command, None::<Seq<char>>),
{
    reveal_strlit(" ");
    reveal_strlit("");
    let input = command + " "@ + rest;
    let n = command.len() as int;
    assert(input.subrange(n, n + 1) =~= " "@);
    assert forall|j: int| 0 <= j < n implies !#[trigger] crate::text::occurs_at(input, " "@, j) by {
        assert(input.subrange(j, j + 1)[0] == command[j]);
    }
    crate::text::lemma_find_is(input, " "@, n);
    assert(input.take(n) =~= command);
    assert(input.skip(n + 1) =~= rest);
    crate::text::lemma_find(command, " "@);
    if let Some(i) = find(command, " "@) {
        assert(command.subrange(i, i + 1)[0] == command[i]);
    }
}

/// Each word for a way to think names it, and no other word names one.
pub proof fn law_thinking_words_are_read(word: Seq<char>)
    ensures
        think_mode("auto"@) == Some(ThinkMode::Auto),
        think_mode("on"@) == Some(ThinkMode::On),
        think_mode("true"@) == Some(ThinkMode::On),
        think_mode("off"@) == Some(ThinkMode::Off),
        think_mode("false"@) == Some(ThinkMode::Off),
        think_mode("nothink"@) == Some(ThinkMode::Off),
        think_mode("low"@) == Some(ThinkMode::Low),
        think_mode("medium"@) == Some(ThinkMode::Medium),
        think_mode("high"@) == Some(ThinkMode::High),
        word != "auto"@ && word != "on"@ && word != "true"@ && word != "off"@ && word != "false"@
            && word != "nothink"@ && word != "low"@ && word != "medium"@ && word != "high"@
            ==> think_mode(word) is None,
{
    reveal_strlit("auto");
    reveal_strlit("on");
    reveal_strlit("true");
    reveal_strlit("off");
    reveal_strlit("false");
    reveal_strlit("nothink");
    reveal_strlit("low");
    reveal_strlit("medium");
    reveal_strlit("high");
    assert("auto"@.len() == 4 && "on"@.len() == 2 && "true"@.len() == 4 && "off"@.len() == 3);
    assert("false"@.len() == 5 && "nothink"@.len() == 7 && "low"@.len() == 3);
    assert("medium"@.len() == 6 && "high"@.len() == 4);
    assert("auto"@[0] == 'a' && "true"@[0] == 't' && "high"@[0] == 'h');
    assert("off"@[0] == 'o' && "low"@[0] == 'l');
}

/// Each word for a permission names it, and no other word names one.
pub proof fn law_permission_words_are_read(word: Seq<char>)
    ensures
        permission_mode("ask"@) == Some(PermissionMode::Ask),
        permission_mode("prompt"@) == Some(PermissionMode::Ask),
        permission_mode("allow"@) == Some(PermissionMode::Allow),
        permission_mode("auto"@) == Some(PermissionMode::Allow),
        permission_mode("always"@) == Some(PermissionMode::Allow),
        permission_mode("deny"@) == Some(PermissionMode::Deny),
        permission_mode("never"@) == Some(PermissionMode::Deny),
        word != "ask"@ && word != "prompt"@ && word != "allow"@ && word != "auto"@ && word
            != "always"@ && word != "deny"@ && word != "never"@ ==> permission_mode(word) is None,
{
    reveal_strlit("ask");
    reveal_strlit("prompt");
    reveal_strlit("allow");
    reveal_strlit("auto");
    reveal_strlit("always");
    reveal_strlit("deny");
    reveal_strlit("never");
    assert("ask"@.len() == 3 && "prompt"@.len() == 6 && "allow"@.len() == 5);
    assert("auto"@.len() == 4 && "always"@.len() == 6 && "deny"@.len() == 4 && "never"@.len() == 5);
    assert("prompt"@[0] == 'p' && "always"@[0] == 'a');
    assert("allow"@[0] == 'a' && "never"@[0] == 'n');
    assert("auto"@[0] == 'a' && "deny"@[0] == 'd');
}

/// `/exit` and `/quit` leave the program, `/help` shows the help, `/clear` clears the terminal,
/// and none of them changes the agent; `/chat` and `/exit-shell` leave shell mode and change
/// nothing else, `/shell` alone enters it.
pub proof fn law_modes_are_switched(a: Mind, input: Seq<char>)
    ensures
        command_in(input) == "/exit"@ ==> commanded(a, input) == (a, Wish::Quit),
        command_in(input) == "/quit"@ ==> commanded(a, input) == (a, Wish::Quit),
        command_in(input) == "/help"@ ==> commanded(a, input) == (a, Wish::Help),
        command_in(input) == "/clear"@ ==> commanded(a, input) == (a, Wish::Clear),
        command_in(input) == "/chat"@ ==> commanded(a, input).0 == (Mind { shell_mode: false, ..a }),
        command_in(input) == "/exit-shell"@ ==> commanded(a, input).0 == (Mind {
            shell_mode: false,
            ..a
        }),
        command_in(input) == "/shell"@ && argument_in(input).len() == 0 ==> commanded(a, input).0
            == (Mind { shell_mode: true, ..a }),
        command_in(input) == "/config"@ && (argument_in(input).len() == 0 || argument_in(input)
            == "show"@) ==> commanded(a, input) == (a, Wish::ShowConfig),
        command_in(input) == "/config"@ && argument_in(input) == "reload"@ ==> commanded(a, input)
            == (a, Wish::ReloadConfig),
{
    lemma_command_names_differ();
    reveal_strlit("show");
    reveal_strlit("reload");
}

/// Commands on files, the shell and the web are carried out with the argument that is typed
/// and change nothing of the agent.
pub proof fn law_arguments_are_handed_on(a: Mind, input: Seq<char>)
    ensures
        command_in(input) == "/list"@ && argument_in(input).len() == 0 ==> commanded(a, input) == (
            a,
            Wish::ListFiles { path: None },
        ),
        command_in(input) == "/list"@ && argument_in(input).len() > 0 ==> commanded(a, input) == (
            a,
            Wish::ListFiles { path: Some(argument_in(input)) },
        ),
        command_in(input) == "/read"@ ==> commanded(a, input) == (
            a,
            Wish::ReadFile { path: argument_in(input) },
        ),
        command_in(input) == "/write"@ ==> commanded(a, input) == (
            a,
            Wish::WriteFile { path: argument_in(input) },
        ),
        command_in(input) == "/shell"@ && argument_in(input).len() > 0 ==> commanded(a, input) == (
            a,
            shell_wish(argument_in(input)),
        ),
        command_in(input) == "/terminal"@ ==> commanded(a, input) == (
            a,
            Wish::Terminal { shell: argument_in(input) },
        ),
        command_in(input) == "/search"@ && argument_in(input).len() > 0 ==> commanded(a, input) == (
            a,
            Wish::Search { query: argument_in(input) },
        ),
        command_in(input) == "/search"@ && argument_in(input).len() == 0 ==> commanded(a, input).0
            == a && commanded(a, input).1 is Error,
{
    lemma_command_names_differ();
}

/// A shell command is run as it is typed, and a blank one is refused.
pub proof fn law_shell_commands_are_run_as_typed(command: Seq<char>)
    ensures
        trimmed(command).len() > 0 ==> shell_wish(command) == (Wish::RunShell { command }),
        trimmed(command).len() == 0 ==> shell_wish(command) == Wish::Error(
            "no shell command provided"@,
        ),
{
}

/// What is typed behind an exclamation mark is run as a shell command.
pub proof fn law_exclamations_run_commands(a: Mind, command: Seq<char>)
    requires
        command.len() > 0,
        command[0] != '!',
        trimmed(command) == command,
    ensures
        commanded(a, "!"@ + command) == (a, Wish::RunShell { command }),
{
    lemma_command_names_differ();
    reveal_strlit("!");
    reveal_strlit(" ");
    let input = "!"@ + command;
    crate::text::lemma_find(input, " "@);
    let first = command_in(input);
    if let Some(i) = find(input, " "@) {
        assert(input.subrange(i, i + 1)[0] == input[i]);
        assert(i > 0);
        assert(first == input.take(i));
    }
    assert(first.len() > 0 && first[0] == '!');
    assert(first.subrange(0, 1) =~= "!"@);
    assert(begins(first, "!"@));
    crate::text::lemma_run_len_is(input, CharClass::Is('!'), 1);
    assert(input.skip(1) =~= command);
}

/// `/models` asks the local server, where that is the provider; `/use-model` changes the model
/// of the settings and of the requests, once the local server is known to have it.
pub proof fn law_models_are_changed(a: Mind, input: Seq<char>)
    ensures
        command_in(input) == "/models"@ && a.settings.provider == ProviderKind::Ollama
            ==> commanded(a, input) == (a, Wish::ListModels),
        command_in(input) == "/models"@ && a.settings.provider != ProviderKind::Ollama
            ==> commanded(a, input).0 == a && commanded(a, input).1 is Error,
        command_in(input) == "/use-model"@ && argument_in(input).len() == 0 ==> commanded(
            a,
            input,
        ).0 == a && commanded(a, input).1 is Error,
        command_in(input) == "/use-model"@ && argument_in(input).len() > 0 && a.settings.provider
            == ProviderKind::Ollama ==> commanded(a, input) == (
            a,
            Wish::CheckModel { name: argument_in(input) },
        ),
        command_in(input) == "/use-model"@ && argument_in(input).len() > 0 && a.settings.provider
            != ProviderKind::Ollama ==> ({
            let b = commanded(a, input).0;
            &&& b.model == Some(argument_in(input))
            &&& b.provider.model == argument_in(input)
            &&& b == (Mind { model: b.model, provider: b.provider, ..a })
            &&& b.provider == (Provider { model: b.provider.model, ..a.provider })
        }),
{
    lemma_command_names_differ();
}

/// A name is made the model of the settings and of the requests, and nothing else changes.
pub proof fn law_set_models_are_used(a: Mind, name: Seq<char>)
    ensures
        with_model(a, name).model == Some(name),
        with_model(a, name).provider.model == name,
        with_model(a, name).provider == (Provider { model: name, ..a.provider }),
        with_model(a, name).messages == a.messages,
        with_model(a, name).tools == a.tools,
        with_model(a, name).stops == a.stops,
        with_model(a, name).think == a.think,
        with_model(a, name).attachments == a.attachments,
{
}

/// The models are listed in order, the one in use with a star before it.
pub proof fn law_the_model_in_use_is_marked(models: Seq<Seq<char>>, model: Seq<char>, i: int)
    requires
        0 <= i < models.len(),
    ensures
        marked(models, model).len() == models.len(),
        models[i] == model ==> marked(models, model)[i] == "* "@ + models[i],
        models[i] != model ==> marked(models, model)[i] == "  "@ + models[i],
{
}

/// `/thinking` with a way to think sets it, for the settings and the requests; with `show` and
/// `hide` it shows and hides the traces; alone it changes nothing, and neither does a word that
/// it does not know.
pub proof fn law_thinking_is_changed(a: Mind, input: Seq<char>, mode: ThinkMode)
    requires
        command_in(input) == "/thinking"@,
    ensures
        argument_in(input).len() == 0 ==> commanded(a, input).0 == a && commanded(a, input).1 is Info,
        argument_in(input) == "show"@ ==> commanded(a, input).0 == (Mind {
            hide_thinking: false,
            ..a
        }),
        argument_in(input) == "hide"@ ==> commanded(a, input).0 == (Mind { hide_thinking: true, ..a }),
        argument_in(input).len() > 0 && argument_in(input) != "show"@ && argument_in(input)
            != "hide"@ && think_mode(argument_in(input)) == Some(mode) ==> ({
            let b = commanded(a, input).0;
            &&& b.think == mode
            &&& b.provider.think == mode
            &&& b == (Mind { think: mode, provider: b.provider, ..a })
            &&& b.provider == (Provider { think: mode, ..a.provider })
        }),
        argument_in(input).len() > 0 && argument_in(input) != "show"@ && argument_in(input)
            != "hide"@ && think_mode(argument_in(input)) is None ==> commanded(a, input).0 == a
            && commanded(a, input).1 is Error,
{
    lemma_command_names_differ();
    reveal_strlit("show");
    reveal_strlit("hide");
    assert("show"@[0] != "hide"@[0]);
}

/// `/hide-thinking` hides the traces, `/show-thinking` shows them, and neither changes anything
/// else.
pub proof fn law_traces_are_hidden_and_shown(a: Mind, input: Seq<char>)
    ensures
        command_in(input) == "/hide-thinking"@ ==> commanded(a, input).0 == (Mind {
            hide_thinking: true,
            ..a
        }),
        command_in(input) == "/show-thinking"@ ==> commanded(a, input).0 == (Mind {
            hide_thinking: false,
            ..a
        }),
{
    lemma_command_names_differ();
}

/// `/permissions` with one word sets how shell commands and writes are approved, with `shell`
/// or `write` before it only that one; anything else changes nothing.
pub proof fn law_permissions_are_changed(a: Mind, input: Seq<char>, p: PermissionMode)
    requires
        command_in(input) == "/permissions"@,
        argument_in(input).len() > 0,
    ensures
        ({
            let parts = words(argument_in(input));
            let b = commanded(a, input).0;
            &&& parts.len() == 1 && permission_mode(parts[0]) == Some(p) ==> b == (Mind {
                tools: ToolRuntime { shell_permission: p, write_permission: p, ..a.tools },
                ..a
            })
            &&& parts.len() == 2 && parts[0] == "shell"@ && permission_mode(parts[1]) == Some(p)
                ==> b == (Mind { tools: ToolRuntime { shell_permission: p, ..a.tools }, ..a })
            &&& parts.len() == 2 && parts[0] == "write"@ && permission_mode(parts[1]) == Some(p)
                ==> b == (Mind { tools: ToolRuntime { write_permission: p, ..a.tools }, ..a })
            &&& parts.len() != 1 && parts.len() != 2 ==> b == a && commanded(a, input).1 is Error
            &&& parts.len() == 1 && permission_mode(parts[0]) is None ==> b == a && commanded(
                a,
                input,
            ).1 is Error
            &&& parts.len() == 2 && (permission_mode(parts[1]) is None || parts[0] != "shell"@
                && parts[0] != "write"@) ==> b == a && commanded(a, input).1 is Error
        }),
{
    lemma_command_names_differ();
    reveal_strlit("shell");
    reveal_strlit("write");
    assert("shell"@[0] != "write"@[0]);
}

/// `/permissions` alone tells how shell commands and writes are approved.
pub proof fn law_permissions_are_told(a: Mind, input: Seq<char>)
    requires
        command_in(input) == "/permissions"@,
        argument_in(input).len() == 0,
    ensures
        commanded(a, input) == (
            a,
            Wish::Info(
                "permissions shell="@ + permission_word(a.tools.shell_permission) + " write="@
                    + permission_word(a.tools.write_permission),
            ),
        ),
{
    lemma_command_names_differ();
}

/// `/stop add` puts its text behind the stop sequences, `/stop set` replaces them and `/stop
/// clear` leaves none, for the settings and the requests alike.
pub proof fn law_stops_are_changed(a: Mind, input: Seq<char>, value: Seq<char>)
    requires
        command_in(input) == "/stop"@,
        argument_in(input).len() > 0,
    ensures
        ({
            let b = commanded(a, input).0;
            &&& argument_in(input) == "clear"@ ==> b.stops.len() == 0 && b.provider.stops.len() == 0
            &&& argument_in(input) != "clear"@ && halves(argument_in(input)) == ("add"@, Some(value))
                ==> b.stops == a.provider.stops.push(value) && b.provider.stops
                == a.provider.stops.push(value)
            &&& argument_in(input) != "clear"@ && halves(argument_in(input)) == ("set"@, Some(value))
                ==> b.stops == trimmed_texts(pieces(value, ',')) && b.provider.stops
                == trimmed_texts(pieces(value, ','))
            &&& b == (Mind { stops: b.stops, provider: b.provider, ..a })
            &&& b.provider == (Provider { stops: b.provider.stops, ..a.provider })
        }),
{
    lemma_command_names_differ();
    reveal_strlit("clear");
    reveal_strlit("add");
    reveal_strlit("set");
    assert("add"@[0] != "set"@[0]);
}

/// Each text that is more than blanks is a stop sequence, without the blanks around it.
pub proof fn law_listed_stops_are_trimmed(list: Seq<Seq<char>>, text: Seq<char>)
    ensures
        trimmed_texts(seq![]).len() == 0,
        trimmed(text).len() > 0 ==> trimmed_texts(list.push(text)) == trimmed_texts(list).push(
            trimmed(text),
        ),
        trimmed(text).len() == 0 ==> trimmed_texts(list.push(text)) == trimmed_texts(list),
{
    assert(list.push(text).drop_last() =~= list);
}

/// The stop sequences are told in order, each quoted, with commas between them.
pub proof fn law_stops_are_told(quoted: Seq<Seq<char>>, last: Seq<char>)
    ensures
        shown_stops(seq![]) == "none"@,
        shown_stops(seq![last]) == last,
        quoted.len() > 0 ==> shown_stops(quoted.push(last)) == shown_stops(quoted) + ", "@ + last,
        forall|stops: Seq<Seq<char>>, i: int|
            0 <= i < stops.len() ==> #[trigger] quoted_stops(stops)[i] == debug_text(stops[i]),
        forall|stops: Seq<Seq<char>>| (#[trigger] quoted_stops(stops)).len() == stops.len(),
{
    assert(quoted.push(last).drop_last() =~= quoted);
}

/// `/attach clear` drops what is attached, `/attach file` and `/attach image` call for the file
/// that is named, and nothing else of the agent changes.
pub proof fn law_attachments_are_called_for(a: Mind, path: Seq<char>)
    ensures
        attaching(a, "clear"@).0 == (Mind { attachments: seq![], ..a }),
        attaching(a, "show"@).0 == a,
        trimmed(path).len() > 0 ==> attaching(a, "file "@ + path) == (
            a,
            Wish::AttachFile { path: trimmed(path) },
        ),
        trimmed(path).len() > 0 ==> attaching(a, "image "@ + path) == (
            a,
            Wish::AttachImage { path: trimmed(path) },
        ),
        trimmed(path).len() == 0 ==> attaching(a, "file "@ + path).1 is Error && attaching(
            a,
            "image "@ + path,
        ).1 is Error,
        a.attachments.len() == 0 ==> attaching(a, "show"@).1 == Wish::Info("attachments: none"@),
{
    reveal_strlit("clear");
    reveal_strlit("show");
    reveal_strlit("file");
    reveal_strlit("image");
    reveal_strlit("file ");
    reveal_strlit("image ");
    reveal_strlit(" ");
    assert("file "@ + path =~= "file"@ + " "@ + path);
    assert("image "@ + path =~= "image"@ + " "@ + path);
    law_inputs_are_command_and_argument("file"@, path);
    law_inputs_are_command_and_argument("image"@, path);
    law_inputs_are_command_and_argument("clear"@, path);
    law_inputs_are_command_and_argument("show"@, path);
    lemma_no_blanks("file"@);
    lemma_no_blanks("image"@);
    lemma_no_blanks("clear"@);
    lemma_no_blanks("show"@);
    assert("clear"@[0] == 'c' && "image"@[0] == 'i' && "show"@[0] == 's' && "file"@[0] == 'f');
}

proof fn lemma_no_blanks(s: Seq<char>)
    requires
        s.len() > 0,
        !crate::text::is_white(s[0]),
        !crate::text::is_white(s.last()),
    ensures
        trimmed(s) == s,
{
    crate::text::lemma_run_len_is(s, CharClass::White, 0);
    assert(s.skip(0) =~= s);
    crate::text::lemma_trim_end_is(s, CharClass::White, s.len() as int);
    assert(s.take(s.len() as int) =~= s);
}

/// `/attach` is carried out with its argument.
pub proof fn law_attach_is_carried_out(a: Mind, input: Seq<char>)
    requires
        command_in(input) == "/attach"@,
    ensures
        commanded(a, input) == attaching(a, argument_in(input)),
{
    lemma_command_names_differ();
}

/// `/provider` tells the provider, the model, the address, the thinking, the stop sequences,
/// the permissions and the reach of the tools, and changes nothing.
pub proof fn law_the_provider_is_told(a: Mind, input: Seq<char>)
    requires
        command_in(input) == "/provider"@,
    ensures
        ({
            let shown = if a.hide_thinking {
                "false"@
            } else {
                "true"@
            };
            let reach = if a.settings.full_system_access {
                "full-system"@
            } else {
                "workspace"@
            };
            commanded(a, input) == (
                a,
                Wish::Info(
                    "provider="@ + provider_word(a.settings.provider) + " model="@
                        + a.provider.model + " base_url="@ + a.settings.base_url->0@ + " think="@
                        + think_word(a.provider.think) + " show_thinking="@ + shown + " stops="@
                        + shown_stops(quoted_stops(a.provider.stops)) + " permissions=shell:"@
                        + permission_word(a.tools.shell_permission) + ",write:"@ + permission_word(
                        a.tools.write_permission,
                    ) + " access="@ + reach,
                ),
            )
        }),
{
    lemma_command_names_differ();
}

/// The settings are told by their file, whether it is there, the provider, the model, the
/// workspace and the rounds.
pub proof fn law_the_settings_are_told(a: Mind)
    ensures
        ({
            let own = if a.settings.autonomous {
                "true"@
            } else {
                "false"@
            };
            let head = "config file: "@ + a.settings.config_file@ + "\nloaded: "@;
            &&& config_told(a, true) == head + "yes"@ + "\nprovider="@ + provider_word(
                a.settings.provider,
            ) + "\nmodel="@ + a.provider.model + "\nworkspace="@ + a.settings.workspace@
                + "\nautonomous="@ + own + "\nmax_tool_rounds="@ + decimal(
                tool_rounds(a.settings),
            )
            &&& config_told(a, false) == head + "no"@ + "\nprovider="@ + provider_word(
                a.settings.provider,
            ) + "\nmodel="@ + a.provider.model + "\nworkspace="@ + a.settings.workspace@
                + "\nautonomous="@ + own + "\nmax_tool_rounds="@ + decimal(
                tool_rounds(a.settings),
            )
            &&& provider_shown(a) == "provider="@ + provider_word(a.settings.provider)
                + "\nmodel="@ + a.provider.model + "\nbase_url="@ + a.settings.base_url->0@
                + "\nthink="@ + think_word(a.provider.think) + "\npermissions=shell:"@
                + permission_word(a.tools.shell_permission) + ",write:"@ + permission_word(
                a.tools.write_permission,
            ) + "\naccess="@ + access_name(a.settings.full_system_access)
        }),
{
}

/// An input that is no command is told as unknown and changes nothing.
pub proof fn law_unknown_commands_are_told(a: Mind, input: Seq<char>)
    requires
        !is_documented(command_in(input)),
    ensures
        commanded(a, input) == (a, Wish::Error("unknown command: "@ + command_in(input))),
{
}

/// In the full-screen interface a command that it has changes the agent as it does in line
/// mode and is told in the transcript; one that it does not have is told as such.
pub proof fn law_screen_commands_are_carried_out(a: Mind, s: Screen, input: Seq<char>, mode: ThinkMode)
    ensures
        ({
            let (b, t, wish) = tui_commanded(a, s, input);
            let command = command_in(input);
            let arg = argument_in(input);
            &&& command == "/exit"@ || command == "/quit"@ ==> b == a && t == s && wish
                == TuiWish::Quit
            &&& command == "/clear"@ ==> b == a && t.transcript.len() == 0 && t.status == "ready"@
            &&& command == "/help"@ ==> b == a && t.transcript.last().content == TUI_HELP@
                && t.transcript.drop_last() == s.transcript
            &&& command == "/models"@ && a.settings.provider == ProviderKind::Ollama ==> b == a && t
                == s && wish == TuiWish::ListModels
            &&& command == "/use-model"@ && arg.len() > 0 && a.settings.provider
                == ProviderKind::Ollama ==> b == a && t == s && wish == (TuiWish::CheckModel {
                name: arg,
            })
            &&& command == "/use-model"@ && arg.len() > 0 && a.settings.provider
                != ProviderKind::Ollama ==> b == with_model(a, arg)
            &&& command == "/thinking"@ && arg == "show"@ ==> b == (Mind {
                hide_thinking: false,
                ..a
            })
            &&& command == "/thinking"@ && arg == "hide"@ ==> b == (Mind { hide_thinking: true, ..a })
            &&& command == "/thinking"@ && arg.len() > 0 && arg != "show"@ && arg != "hide"@
                && think_mode(arg) == Some(mode) ==> b.think == mode && b.provider.think == mode
            &&& command == "/config"@ && (arg.len() == 0 || arg == "show"@) ==> b == a && t == s
                && wish == TuiWish::ShowConfig
            &&& command == "/config"@ && arg == "reload"@ ==> b == a && t == s && wish
                == TuiWish::ReloadConfig
            &&& command == "/provider"@ ==> b == a && t.transcript.last().content == provider_shown(
                a,
            )
            &&& command == "/attach"@ ==> b == attaching(a, arg).0
        }),
{
    lemma_command_names_differ();
    reveal_strlit("show");
    reveal_strlit("hide");
    reveal_strlit("reload");
    assert("show"@[0] != "hide"@[0]);
    let told = with_entry(s.transcript, Speaker::System, TUI_HELP@);
    assert(told.drop_last() =~= s.transcript);
}

/// What a command tells goes behind the transcript, under its speaker, and leaves the rest of
/// the screen.
pub proof fn law_telling_adds_an_entry(s: Screen, speaker: Speaker, content: Seq<char>)
    ensures
        telling(s, speaker, content).transcript.len() == s.transcript.len() + 1,
        telling(s, speaker, content).transcript.last().content == content,
        telling(s, speaker, content).transcript.last().speaker == speaker,
        telling(s, speaker, content).transcript.drop_last() == s.transcript,
        telling(s, speaker, content) == (Screen {
            transcript: telling(s, speaker, content).transcript,
            ..s
        }),
{
    assert(telling(s, speaker, content).transcript.drop_last() =~= s.transcript);
}

/// The greeting tells each of its lines behind a dash and warns of full access.
pub proof fn law_greetings_tell_their_lines(onboarding: Seq<Seq<char>>, line: Seq<char>)
    ensures
        greeting(false, seq![line])
            == "# Welcome\n- Paste a kernel commit ID, patch context, or target backport task to begin.\n"@
            + ("- "@ + line),
        onboarding.len() > 0 ==> greeting(false, onboarding.push(line)) == greeting(
            false,
            onboarding,
        ) + "\n"@ + ("- "@ + line),
        greeting(true, onboarding) == greeting(false, onboarding)
            + "\n\nWARNING: full system access is enabled. Absolute paths, path escapes, shell commands, and writes are allowed."@,
{
    reveal_strlit("");
    let dashed = |line: Seq<char>| "- "@ + line;
    let all = onboarding.push(line).map_values(dashed);
    assert(all.drop_last() =~= onboarding.map_values(dashed));
    assert(onboarding.push(line).map_values(|line: Seq<char>| "- "@ + line) =~= all);
    assert(onboarding.map_values(|line: Seq<char>| "- "@ + line) =~= onboarding.map_values(dashed));
    assert(seq![line].map_values(|line: Seq<char>| "- "@ + line) =~= seq!["- "@ + line]);
    let head =
        "# Welcome\n- Paste a kernel commit ID, patch context, or target backport task to begin.\n"@;
    assert(greeting(false, seq![line]) =~= head + ("- "@ + line));
    if onboarding.len() > 0 {
        assert(greeting(false, onboarding.push(line)) =~= greeting(false, onboarding) + "\n"@ + (
        "- "@ + line));
    }
    assert(greeting(false, onboarding) =~= head + joined(
        onboarding.map_values(|line: Seq<char>| "- "@ + line),
        "\n"@,
    ));
}

/// What a command changed is told in words.
pub proof fn law_changes_are_told(a: Mind, input: Seq<char>, mode: ThinkMode, p: PermissionMode)
    ensures
        ({
            let command = command_in(input);
            let arg = argument_in(input);
            let wish = commanded(a, input).1;
            let parts = words(arg);
            let shown = if a.hide_thinking {
                "false"@
            } else {
                "true"@
            };
            &&& command == "/chat"@ || command == "/exit-shell"@ ==> wish == Wish::Info(
                "chat mode enabled"@,
            )
            &&& command == "/shell"@ && arg.len() == 0 ==> wish == Wish::Info(
                "shell mode enabled; use /chat or /exit-shell to return"@,
            )
            &&& command == "/hide-thinking"@ ==> wish == Wish::Info(
                "thinking trace hidden in the TUI"@,
            )
            &&& command == "/show-thinking"@ ==> wish == Wish::Info(
                "thinking trace visible in the TUI"@,
            )
            &&& command == "/thinking"@ && arg.len() == 0 ==> wish == Wish::Info(
                "think="@ + think_word(a.provider.think) + " show_thinking="@ + shown,
            )
            &&& command == "/thinking"@ && arg == "show"@ ==> wish == Wish::Info(
                "thinking trace visible in the TUI"@,
            )
            &&& command == "/thinking"@ && arg == "hide"@ ==> wish == Wish::Info(
                "thinking trace hidden in the TUI"@,
            )
            &&& command == "/thinking"@ && arg.len() > 0 && arg != "show"@ && arg != "hide"@
                && think_mode(arg) == Some(mode) ==> wish == Wish::Info(
                "think set to "@ + think_word(mode),
            )
            &&& command == "/use-model"@ && arg.len() > 0 && a.settings.provider
                != ProviderKind::Ollama ==> wish == Wish::Info("model set to "@ + arg)
            &&& command == "/permissions"@ && arg.len() > 0 && parts.len() == 1 && permission_mode(
                parts[0],
            ) == Some(p) ==> wish == Wish::Info(
                "shell and write permissions set to "@ + permission_word(p),
            )
            &&& command == "/permissions"@ && arg.len() > 0 && parts.len() == 2 && parts[0]
                == "shell"@ && permission_mode(parts[1]) == Some(p) ==> wish == Wish::Info(
                "shell permission set to "@ + permission_word(p),
            )
            &&& command == "/permissions"@ && arg.len() > 0 && parts.len() == 2 && parts[0]
                == "write"@ && permission_mode(parts[1]) == Some(p) ==> wish == Wish::Info(
                "write permission set to "@ + permission_word(p),
            )
        }),
{
    lemma_command_names_differ();
    reveal_strlit("show");
    reveal_strlit("hide");
    reveal_strlit("shell");
    reveal_strlit("write");
    assert("show"@[0] != "hide"@[0]);
    assert("shell"@[0] != "write"@[0]);
    lemma_words_are_read();
}

/// The words that stand for something else than a mode of thinking stand for no mode.
proof fn lemma_words_are_read()
    ensures
        think_mode("show"@) is None,
        think_mode("hide"@) is None,
{
    reveal_strlit("show");
    reveal_strlit("hide");
    reveal_strlit("auto");
    reveal_strlit("on");
    reveal_strlit("true");
    reveal_strlit("off");
    reveal_strlit("false");
    reveal_strlit("nothink");
    reveal_strlit("low");
    reveal_strlit("medium");
    reveal_strlit("high");
    assert("show"@[0] != "auto"@[0] && "show"@[0] != "true"@[0] && "show"@[0] != "high"@[0]);
    assert("hide"@[0] != "auto"@[0] && "hide"@[0] != "true"@[0] && "hide"@[2] != "high"@[2]);
    assert("show"@.len() == 4 && "hide"@.len() == 4 && "on"@.len() == 2 && "off"@.len() == 3
        && "false"@.len() == 5 && "nothink"@.len() == 7 && "low"@.len() == 3 && "medium"@.len() == 6);
}

/// The sequences in use are told after each change, and when they are asked for.
pub proof fn law_stops_are_told_as_they_change(a: Mind, input: Seq<char>)
    requires
        command_in(input) == "/stop"@,
    ensures
        ({
            let arg = argument_in(input);
            let (b, wish) = commanded(a, input);
            let told = "stop sequences: "@ + shown_stops(quoted_stops(b.provider.stops));
            let (first, rest) = halves(arg);
            let changes = rest is Some && (first == "add"@ || first == "set"@);
            &&& arg.len() == 0 ==> b == a && wish == Wish::Info(told)
            &&& arg == "clear"@ ==> wish == Wish::Info("stop sequences cleared"@)
            &&& arg.len() > 0 && arg != "clear"@ && changes ==> wish == Wish::Info(told)
            &&& arg.len() > 0 && arg != "clear"@ && !changes ==> b == a && wish == Wish::Error(
                STOP_USAGE@,
            )
        }),
{
    lemma_command_names_differ();
    reveal_strlit("clear");
    reveal_strlit("add");
    reveal_strlit("set");
    assert("add"@[0] != "set"@[0]);
}

/// A command that lacks what it needs is answered with how to use it, and nothing changes.
pub proof fn law_usages_are_told(a: Mind, input: Seq<char>)
    ensures
        ({
            let command = command_in(input);
            let arg = argument_in(input);
            let done = commanded(a, input);
            let parts = words(arg);
            &&& command == "/search"@ && arg.len() == 0 ==> done == (
                a,
                Wish::Error("usage: /search <query>"@),
            )
            &&& command == "/use-model"@ && arg.len() == 0 ==> done == (
                a,
                Wish::Error("usage: /use-model <model-name>"@),
            )
            &&& command == "/models"@ && a.settings.provider != ProviderKind::Ollama ==> done == (
                a,
                Wish::Error("/models is available for the Ollama provider"@),
            )
            &&& command == "/config"@ && arg.len() > 0 && arg != "show"@ && arg != "reload"@
                ==> done == (a, Wish::Info("usage: /config [show|reload]"@))
            &&& command == "/thinking"@ && arg.len() > 0 && arg != "show"@ && arg != "hide"@
                && think_mode(arg) is None ==> done == (a, Wish::Error(THINKING_USAGE@))
            &&& command == "/permissions"@ && arg.len() > 0 && parts.len() == 1 && permission_mode(
                parts[0],
            ) is None ==> done == (a, Wish::Error("usage: /permissions [ask|allow|deny]"@))
            &&& command == "/permissions"@ && arg.len() > 0 && parts.len() == 2 && parts[0]
                == "shell"@ && permission_mode(parts[1]) is None ==> done == (
                a,
                Wish::Error("usage: /permissions shell [ask|allow|deny]"@),
            )
            &&& command == "/permissions"@ && arg.len() > 0 && parts.len() == 2 && parts[0]
                == "write"@ && permission_mode(parts[1]) is None ==> done == (
                a,
                Wish::Error("usage: /permissions write [ask|allow|deny]"@),
            )
            &&& command == "/permissions"@ && arg.len() > 0 && parts.len() != 1 && !(parts.len() == 2
                && (parts[0] == "shell"@ || parts[0] == "write"@)) ==> done == (
                a,
                Wish::Error(PERMISSIONS_USAGE@),
            )
        }),
{
    lemma_command_names_differ();
    reveal_strlit("shell");
    reveal_strlit("write");
    assert("shell"@[0] != "write"@[0]);
}

/// An attachment that is not named is asked for, and any other word is answered with the usage.
pub proof fn law_attach_usages_are_told(a: Mind, arg: Seq<char>)
    ensures
        ({
            let kind = trimmed(halves(arg).0);
            let named = halves(arg).1 matches Some(rest) && trimmed(rest).len() > 0;
            &&& kind == "file"@ && !named ==> attaching(a, arg) == (
                a,
                Wish::Error("usage: /attach file <path>"@),
            )
            &&& kind == "image"@ && !named ==> attaching(a, arg) == (
                a,
                Wish::Error("usage: /attach image <path>"@),
            )
            &&& kind != "file"@ && kind != "image"@ && kind != "show"@ && kind != "clear"@
                ==> attaching(a, arg) == (
                a,
                Wish::Error("usage: /attach [show|clear|file <path>|image <path>]"@),
            )
            &&& kind == "clear"@ ==> attaching(a, arg).0.attachments.len() == 0 && attaching(
                a,
                arg,
            ).1 == Wish::Info("attachments cleared"@)
            &&& kind == "show"@ && pending(a.attachments) is Some ==> attaching(a, arg) == (
                a,
                Wish::Info(pending(a.attachments)->0),
            )
            &&& kind == "show"@ && pending(a.attachments) is None ==> attaching(a, arg) == (
                a,
                Wish::Info("attachments: none"@),
            )
        }),
{
    reveal_strlit("file");
    reveal_strlit("image");
    reveal_strlit("show");
    reveal_strlit("clear");
    reveal_strlit("");
    assert("file"@.len() == 4 && "image"@.len() == 5 && "show"@.len() == 4 && "clear"@.len() == 5);
    assert("file"@[0] != "show"@[0] && "image"@[0] != "clear"@[0]);
    assert(""@.len() == 0);
}

/// The screen tells what a command did: what was changed as the system, what was wrong as an error.
pub proof fn law_the_screen_tells_what_was_done(a: Mind, s: Screen, input: Seq<char>, mode: ThinkMode)
    ensures
        ({
            let (b, t, wish) = tui_commanded(a, s, input);
            let command = command_in(input);
            let arg = argument_in(input);
            let shown = if a.hide_thinking {
                "false"@
            } else {
                "true"@
            };
            let says = |speaker: Speaker, content: Seq<char>|
                wish == TuiWish::Done && t == (Screen {
                    transcript: s.transcript.push(Entry { speaker, content }),
                    ..s
                });
            let attached = attaching(a, arg).1;
            &&& command == "/help"@ ==> b == a && says(Speaker::System, TUI_HELP@)
            &&& command == "/provider"@ ==> b == a && says(Speaker::System, provider_shown(a))
            &&& command == "/clear"@ ==> b == a && wish == TuiWish::Done
            &&& command == "/config"@ && arg.len() > 0 && arg != "show"@ && arg != "reload"@ ==> b
                == a && says(Speaker::System, "usage: /config [show|reload]"@)
            &&& command == "/models"@ && a.settings.provider != ProviderKind::Ollama ==> b == a
                && says(Speaker::Error, "/models is available for the Ollama provider"@)
            &&& command == "/use-model"@ && arg.len() == 0 ==> b == a && says(
                Speaker::Error,
                "usage: /use-model <model>"@,
            )
            &&& command == "/use-model"@ && arg.len() > 0 && a.settings.provider
                != ProviderKind::Ollama ==> says(Speaker::System, "model set to "@ + arg)
            &&& command == "/thinking"@ && arg.len() == 0 ==> b == a && says(
                Speaker::System,
                "think="@ + think_word(a.provider.think) + "\nshow_thinking="@ + shown,
            )
            &&& command == "/thinking"@ && arg == "show"@ ==> says(
                Speaker::System,
                "thinking trace visible"@,
            )
            &&& command == "/thinking"@ && arg == "hide"@ ==> says(
                Speaker::System,
                "thinking trace hidden"@,
            )
            &&& command == "/thinking"@ && arg.len() > 0 && arg != "show"@ && arg != "hide"@
                && think_mode(arg) == Some(mode) ==> says(
                Speaker::System,
                "think="@ + think_word(mode),
            )
            &&& command == "/thinking"@ && arg.len() > 0 && arg != "show"@ && arg != "hide"@
                && think_mode(arg) is None ==> b == a && says(Speaker::Error, THINKING_USAGE@)
            &&& command == "/attach"@ && attached is Info ==> says(
                Speaker::System,
                attached->Info_0,
            )
            &&& command == "/attach"@ && attached is Error ==> t == s && wish == TuiWish::Error(
                attached->Error_0,
            )
            &&& command == "/attach"@ && attached is AttachFile ==> t == s && wish
                == (TuiWish::AttachFile { path: attached->AttachFile_path })
            &&& command == "/attach"@ && attached is AttachImage ==> t == s && wish
                == (TuiWish::AttachImage { path: attached->AttachImage_path })
        }),
{
    lemma_command_names_differ();
    lemma_words_are_read();
    reveal_strlit("show");
    reveal_strlit("hide");
    reveal_strlit("reload");
    assert("show"@[0] != "hide"@[0]);
    assert("show"@.len() == 4 && "reload"@.len() == 6);
}

/// A command that the screen does not know is named in an error.
pub proof fn law_unsupported_commands_are_told(a: Mind, s: Screen, input: Seq<char>)
    requires
        command_in(input) != "/exit"@,
        command_in(input) != "/quit"@,
        command_in(input) != "/clear"@,
        command_in(input) != "/help"@,
        command_in(input) != "/config"@,
        command_in(input) != "/attach"@,
        command_in(input) != "/provider"@,
        command_in(input) != "/models"@,
        command_in(input) != "/use-model"@,
        command_in(input) != "/thinking"@,
    ensures
        tui_commanded(a, s, input) == (
            a,
            Screen {
                transcript: s.transcript.push(
                    Entry {
                        speaker: Speaker::Error,
                        content: "unsupported TUI command: "@ + command_in(input) + ". Use /help."@,
                    },
                ),
                ..s
            },
            TuiWish::Done,
        ),
{
}

/// A session without a greeting of its own lists the commands to begin with.
pub proof fn law_the_plain_greeting_lists_commands()
    ensures
        plain_onboarding().len() == 6,
        plain_onboarding()[0] == "/help commands"@,
        plain_onboarding()[1] == "/models local models"@,
        plain_onboarding()[2] == "/search web search"@,
        plain_onboarding()[3] == "/permissions safety"@,
        plain_onboarding()[4] == "/terminal real shell"@,
        plain_onboarding()[5] == "/exit quit"@,
{
}

/// What follows the exclamation marks of a line is run, without the blanks around it.
pub proof fn law_exclaimed_lines_are_run(a: Mind, input: Seq<char>)
    requires
        begins(command_in(input), "!"@),
    ensures
        ({
            let command = trimmed(trim_start(input, CharClass::Is('!')));
            &&& trimmed(command).len() > 0 ==> commanded(a, input) == (a, Wish::RunShell { command })
            &&& trimmed(command).len() == 0 ==> commanded(a, input) == (
                a,
                Wish::Error("no shell command provided"@),
            )
        }),
{
    lemma_command_names_differ();
}

}
