//! The agent: its settings, its conversation, what is attached to the next prompt and the
//! rounds of answers and tools that follow one.
use crate::config::{
    opt_text, round_limit, settled_from, shell_mode, write_mode, AgentRole, Config, ProviderKind,
    ThinkMode,
};
use crate::context::{
    is_blank, law_notes_are_told, law_prompts_are_kept, law_skills_are_told, memory_command, merge,
    merged, remembering, skills_command, switching, Background, Context, MemoryEffect,
    SkillsEffect,
};
use crate::json::{at_key, JsonModel};
use crate::paths::{is_absolute_path, path_begins};
use crate::provider::{
    call_of, law_conversations_are_carried, provider_of, turns, Message, Provider, ProviderClient,
    Role, Turn,
};
use crate::sessions::copy_messages;
use crate::text::{
    begins, decimal, find, holds_text, join, joined, number, starts, texts, trim_white, trimmed,
};
use crate::thinking::{outside, strip_think_blocks};
use crate::tools::{
    approval, calls_found, end_of, ending_of, extract_tool_calls, law_ended_work_calls_nothing,
    path_verdict, uses, Approval, CallError, ToolCall, ToolRuntime, ToolUse, Unreadable,
};
use vstd::prelude::*;
use vstd::string::*;

verus! {

broadcast use {vstd::seq::group_seq_axioms, vstd::string::group_string_axioms};

/// What an agent is told unless the settings say otherwise.
pub const SYSTEM_PROMPT: &'static str = r#"You are an autonomous Linux kernel backporting agent running inside a local workspace.

Your primary job is to backport upstream Linux kernel commits into the target kernel tree safely and explain the resulting technical choices. Prefer acting end-to-end: inspect the tree, identify relevant files, apply or synthesize the backport, resolve conflicts, build or run focused verification when available, and report the exact result.

Backporting workflow:
- First identify the target kernel version, current branch, and dirty worktree state when relevant.
- Inspect the upstream commit context before editing: commit message, touched files, surrounding code, dependencies, and prerequisite commits.
- Compare upstream code with the target tree instead of blindly applying patches.
- Preserve target-tree APIs and stable-kernel conventions when upstream helpers or structures do not exist.
- Resolve conflicts semantically, not mechanically.
- Keep changes minimal and limited to the requested backport.
- Do not revert unrelated local changes.
- Prefer existing kernel style, local helper APIs, and nearby patterns.
- For conflicts, explain which side was kept, what was adapted, and why.
- For missing prerequisite functionality, either backport the minimal dependency or adapt to the target API; state the tradeoff.
- For kernel code, avoid broad refactors unless they are required for correctness.
- After edits, run focused checks when possible, such as compile checks, relevant selftests, scripts/checkpatch.pl for patch hygiene, or grep-based validation.

Safety rules:
- Treat shell commands and writes as potentially risky and use the available tool workflow.
- Use relative paths only.
- Never use destructive commands like reset, checkout, clean, or rm unless the user explicitly asks.
- Never claim a backport is complete unless you have inspected the affected code and verified the final tree state as far as the environment allows.
- If verification cannot be run, say exactly why and suggest the next concrete command.

Response style:
- Be concise and technical.
- Lead with the current action or result.
- Include file paths and concrete function or symbol names when explaining changes.
- When blocked, state the blocker and the next best action.

You work in turns. A turn that uses tools is one JSON object and nothing else:
{"type":"tool_calls","calls":[{"tool":"read_file","path":"src/main.rs"},{"tool":"list_files","path":"src"}]}

Available tools:
- list_files: {"tool":"list_files","path":"."}
- read_file: {"tool":"read_file","path":"relative/path"}
- write_file: {"tool":"write_file","path":"relative/path","content":"full file content"}
- run_shell: {"tool":"run_shell","command":"cargo test"}
- web_search: {"tool":"web_search","query":"linux kernel backporting","max_results":5}
- spawn_worker: {"tool":"spawn_worker","name":"parser","task":"what the worker is to do"}
- list_workers: {"tool":"list_workers"}
- read_worker: {"tool":"read_worker","id":"worker-id"}

All calls of a turn run in order, and their results come back as one turn. Batch related reads and edits into one turn. After receiving tool results, continue the backporting workflow.

When the work is over, end it explicitly with one of these turns:
- {"type":"final","summary":"what was done and verified"}
- {"type":"blocked","reason":"what stands in the way"}
- {"type":"needs_worker","task":"what a worker is to do"}"#;

/// What an agent is told unless the settings say otherwise.
pub fn default_system_prompt() -> (r: String)
    ensures
        r@ == SYSTEM_PROMPT@,
{
    SYSTEM_PROMPT.to_owned()
}

// ---------------------------------------------------------------------------
// Attachments
// ---------------------------------------------------------------------------

/// What goes with the next prompt.
#[derive(Debug)]
pub enum PromptAttachment {
    File { path: String, content: String },
    Image { path: String, size_bytes: u64 },
}

/// What goes with the next prompt as a mathematical object.
pub ghost enum Attachment {
    File { path: Seq<char>, content: Seq<char> },
    Image { path: Seq<char>, size_bytes: u64 },
}

impl View for PromptAttachment {
    type V = Attachment;

    open spec fn view(&self) -> Attachment {
        match self {
            PromptAttachment::File { path, content } => Attachment::File {
                path: path@,
                content: content@,
            },
            PromptAttachment::Image { path, size_bytes } => Attachment::Image {
                path: path@,
                size_bytes: *size_bytes,
            },
        }
    }
}

/// What some attachments stand for.
pub open spec fn attached(list: Seq<PromptAttachment>) -> Seq<Attachment> {
    Seq::new(list.len(), |i: int| list[i]@)
}

/// An attachment in a word.
pub open spec fn attachment_word(a: Attachment) -> Seq<char> {
    match a {
        Attachment::File { path, .. } => "file:"@ + path,
        Attachment::Image { path, .. } => "image:"@ + path,
    }
}

/// An attachment in a prompt.
pub open spec fn attachment_text(a: Attachment) -> Seq<char> {
    match a {
        Attachment::File { path, content } => "[attached file: "@ + path + "]\n```text\n"@ + content
            + "\n```\n\n"@,
        Attachment::Image { path, size_bytes } => "[attached image: "@ + path
            + "]\nlocal image reference ("@ + decimal(size_bytes as nat) + " bytes)\n\n"@,
    }
}

/// Some attachments in a prompt.
pub open spec fn attachment_texts(list: Seq<Attachment>) -> Seq<char>
    decreases list.len(),
{
    if list.len() == 0 {
        seq![]
    } else {
        attachment_texts(list.drop_last()) + attachment_text(list.last())
    }
}

/// A prompt behind its attachments.
pub open spec fn composed(input: Seq<char>, list: Seq<Attachment>) -> Seq<char> {
    attachment_texts(list) + input
}

/// What waits for the next prompt, if anything does.
pub open spec fn pending(list: Seq<Attachment>) -> Option<Seq<char>> {
    if list.len() == 0 {
        None
    } else {
        Some(
            "pending prompt attachments: "@ + joined(
                list.map_values(|a: Attachment| attachment_word(a)),
                ", "@,
            ),
        )
    }
}

impl PromptAttachment {
    /// The attachment in a word.
    pub fn summary(&self) -> (r: String)
        ensures
            r@ == attachment_word(self@),
    {
        match self {
            PromptAttachment::File { path, content: _ } => {
                let mut out = "file:".to_owned();
                out.append(path.as_str());
                out
            },
            PromptAttachment::Image { path, size_bytes: _ } => {
                let mut out = "image:".to_owned();
                out.append(path.as_str());
                out
            },
        }
    }

    fn text(&self) -> (r: String)
        ensures
            r@ == attachment_text(self@),
    {
        match self {
            PromptAttachment::File { path, content } => {
                let mut out = "[attached file: ".to_owned();
                out.append(path.as_str());
                out.append("]\n```text\n");
                out.append(content.as_str());
                out.append("\n```\n\n");
                out
            },
            PromptAttachment::Image { path, size_bytes } => {
                let mut out = "[attached image: ".to_owned();
                out.append(path.as_str());
                out.append("]\nlocal image reference (");
                out.append(number(*size_bytes).as_str());
                out.append(" bytes)\n\n");
                out
            },
        }
    }
}

/// A prompt behind its attachments.
pub fn compose_prompt_with_attachments(input: &str, attachments: &Vec<PromptAttachment>) -> (r:
    String)
    ensures
        r@ == composed(input@, attached(attachments@)),
{
    let ghost all = attached(attachments@);
    let mut out = String::new();
    let mut i: usize = 0;
    assert(all.take(0) =~= seq![]);
    assert(out@ =~= seq![]);
    while i < attachments.len()
        invariant
            i <= attachments@.len(),
            all == attached(attachments@),
            out@ == attachment_texts(all.take(i as int)),
        decreases attachments@.len() - i,
    {
        assert(all.take(i + 1).drop_last() =~= all.take(i as int));
        assert(all.take(i + 1).last() == attachments@[i as int]@);
        out.append(attachments[i].text().as_str());
        i += 1;
    }
    assert(all.take(all.len() as int) =~= all);
    out.append(input);
    out
}

// ---------------------------------------------------------------------------
// The agent
// ---------------------------------------------------------------------------

/// An agent.
pub struct Agent {
    pub config: Config,
    pub provider: ProviderClient,
    pub tools: ToolRuntime,
    pub messages: Vec<Message>,
    pub shell_mode: bool,
    pub prompt_attachments: Vec<PromptAttachment>,
    pub context: Context,
}

/// An agent as a mathematical object. What commands change of the settings stands apart
/// from the rest of them.
pub ghost struct Mind {
    pub settings: Config,
    pub model: Option<Seq<char>>,
    pub think: ThinkMode,
    pub hide_thinking: bool,
    pub stops: Seq<Seq<char>>,
    pub provider: Provider,
    pub tools: ToolRuntime,
    pub messages: Seq<Turn>,
    pub shell_mode: bool,
    pub attachments: Seq<Attachment>,
    pub background: Background,
}

/// Settings without what commands change of them.
pub open spec fn fixed(c: Config) -> Config {
    Config {
        model: None,
        think: ThinkMode::Auto,
        hide_thinking: false,
        stop_sequences: arbitrary(),
        ..c
    }
}

impl View for Agent {
    type V = Mind;

    open spec fn view(&self) -> Mind {
        Mind {
            settings: fixed(self.config),
            model: opt_text(self.config.model),
            think: self.config.think,
            hide_thinking: self.config.hide_thinking,
            stops: texts(self.config.stop_sequences@),
            provider: self.provider@,
            tools: self.tools,
            messages: turns(self.messages@),
            shell_mode: self.shell_mode,
            attachments: attached(self.prompt_attachments@),
            background: self.context@,
        }
    }
}

/// The prompt that settings name.
pub open spec fn prompt_of(c: Config) -> Seq<char> {
    match c.system {
        Some(text) => text@,
        None => SYSTEM_PROMPT@,
    }
}

/// What an agent is told: the prompt that its settings name, and what its workspace adds.
pub open spec fn instructions(c: Config, b: Background) -> Turn {
    Turn { role: Role::System, content: merged(prompt_of(c), b) }
}

/// What settings let tools do.
pub open spec fn tools_of(c: Config) -> ToolRuntime {
    ToolRuntime {
        workspace: c.workspace,
        shell_permission: shell_mode(c),
        write_permission: write_mode(c),
        full_system_access: c.full_system_access,
    }
}

/// An agent with some settings in a workspace that adds `b` to what it is told.
pub open spec fn agent_of(c: Config, b: Background) -> Mind {
    Mind {
        settings: fixed(c),
        model: opt_text(c.model),
        think: c.think,
        hide_thinking: c.hide_thinking,
        stops: texts(c.stop_sequences@),
        provider: provider_of(c),
        tools: tools_of(c),
        messages: seq![instructions(c, b)],
        shell_mode: false,
        attachments: seq![],
        background: b,
    }
}

/// A conversation that begins with what the agent is told.
pub open spec fn instructed(messages: Seq<Turn>, told: Turn) -> Seq<Turn> {
    if messages.len() == 0 {
        seq![told]
    } else {
        messages.update(0, told)
    }
}

/// An agent that takes other settings: the conversation goes on, with what it is told now.
pub open spec fn adopted(a: Mind, c: Config, b: Background) -> Mind {
    Mind {
        messages: instructed(a.messages, instructions(c, b)),
        shell_mode: a.shell_mode,
        attachments: a.attachments,
        ..agent_of(c, b)
    }
}

/// An agent whose workspace adds something else: the conversation goes on, with what it is
/// told now.
pub open spec fn retold(a: Mind, c: Config, b: Background) -> Mind {
    Mind { messages: instructed(a.messages, instructions(c, b)), background: b, ..a }
}

fn instructions_of(config: &Config, context: &Context) -> (r: Message)
    ensures
        r@ == instructions(*config, context@),
{
    let prompt = match &config.system {
        Some(text) => text.clone(),
        None => default_system_prompt(),
    };
    Message { role: Role::System, content: merge(&prompt, context) }
}

fn instruct(messages: Vec<Message>, config: &Config, context: &Context) -> (r: Vec<Message>)
    ensures
        turns(r@) == instructed(turns(messages@), instructions(*config, context@)),
{
    let ghost had = messages@;
    let first = instructions_of(config, context);
    let ghost told = first@;
    let mut all = messages;
    if all.len() == 0 {
        all.push(first);
    } else {
        all.set(0, first);
    }
    assert(turns(all@) =~= instructed(turns(had), told));
    all
}

fn runtime_of(config: &Config) -> (r: ToolRuntime)
    ensures
        r == tools_of(*config),
{
    ToolRuntime::new(
        config.workspace.clone(),
        config.shell_permission(),
        config.write_permission(),
        config.full_system_access,
    )
}

/// A conversation that is taken up: what the agent is told stands at its head, also where
/// the saved part begins later.
pub open spec fn taken_up(saved: Seq<Turn>, told: Turn) -> Seq<Turn> {
    if saved.len() > 0 && saved[0].role == Role::System {
        saved
    } else {
        seq![told] + saved
    }
}

/// What an input is.
#[derive(Debug, Clone, Copy, PartialEq, Eq, Structural)]
pub enum InputKind {
    /// Nothing.
    Blank,
    /// A command.
    Command,
    /// A shell command, typed in shell mode.
    Shell,
    /// A prompt.
    Prompt,
}

/// What an input is.
pub open spec fn input_kind(input: Seq<char>, shell: bool) -> InputKind {
    if trimmed(input).len() == 0 {
        InputKind::Blank
    } else if begins(input, "/"@) || begins(input, "!"@) {
        InputKind::Command
    } else if shell {
        InputKind::Shell
    } else {
        InputKind::Prompt
    }
}

/// Whether thinking is shown.
pub open spec fn thinking_shown(a: Mind) -> bool {
    !a.hide_thinking && a.provider.think != ThinkMode::Off
}

/// A conversation with one more turn.
pub open spec fn with_turn(messages: Seq<Turn>, role: Role, content: Seq<char>) -> Seq<Turn> {
    messages.push(Turn { role, content })
}

/// An agent that was given a prompt: what was attached goes with it.
pub open spec fn asked(a: Mind, input: Seq<char>) -> Mind {
    Mind {
        messages: with_turn(a.messages, Role::User, composed(input, a.attachments)),
        attachments: seq![],
        ..a
    }
}

/// What an answer leaves in the conversation.
pub open spec fn answered_with(a: Mind, answer: Seq<char>) -> Mind {
    Mind { messages: with_turn(a.messages, Role::Assistant, kept_answer(answer)), ..a }
}

/// An answer without its thinking.
pub open spec fn kept_answer(answer: Seq<char>) -> Seq<char> {
    trimmed(outside(answer))
}

/// What the results of tools leave in the conversation: one turn for all of them.
pub open spec fn told_results(a: Mind, results: Seq<Seq<char>>) -> Mind {
    Mind {
        messages: with_turn(
            a.messages,
            Role::User,
            "Tool result:\n"@ + joined(results, "\n\n"@),
        ),
        ..a
    }
}

/// The rounds of answers and tools that follow a prompt.
#[derive(Debug)]
pub struct Exchange {
    pub round: usize,
    /// The number of rounds that may follow one another, where there is a limit.
    pub limit: Option<usize>,
}

/// The round that follows another, if one may. Without a limit rounds are not counted.
pub open spec fn next_round(round: nat, limit: Option<nat>) -> Option<nat> {
    match limit {
        None => Some(round),
        Some(limit) => if round < limit {
            Some(round + 1)
        } else {
            None
        },
    }
}

/// A limit as a mathematical number.
pub open spec fn limit_of(limit: Option<usize>) -> Option<nat> {
    match limit {
        None => None,
        Some(n) => Some(n as nat),
    }
}

/// What follows an answer.
#[derive(Debug)]
pub enum Next {
    /// The prompt is answered.
    Done,
    /// Tools run.
    Run(Vec<ToolCall>),
    /// The model is asked to go on.
    Again,
}

/// What follows an answer as a mathematical object.
pub ghost enum Sequel {
    Done,
    Run(Seq<ToolUse>),
    Again,
}

impl View for Next {
    type V = Sequel;

    open spec fn view(&self) -> Sequel {
        match self {
            Next::Done => Sequel::Done,
            Next::Run(calls) => Sequel::Run(uses(calls@)),
            Next::Again => Sequel::Again,
        }
    }
}

/// What follows an answer that is kept as `kept`, under some settings. The tools that it
/// calls run. One that calls none ends the work on the prompt, but where the settings lift
/// the limit of rounds only if it says so itself: else the model is asked to go on.
pub open spec fn sequel(c: Config, kept: Seq<char>) -> Result<Sequel, Unreadable> {
    match calls_found(kept) {
        Err(e) => Err(e),
        Ok(calls) => if calls.len() > 0 {
            Ok(Sequel::Run(calls))
        } else if round_limit(c) is None && end_of(kept) is None {
            Ok(Sequel::Again)
        } else {
            Ok(Sequel::Done)
        },
    }
}

/// What a model is told that is to go on.
pub const GO_ON: &'static str = "Continue. Call the tools you need, or end with a final, blocked or needs_worker turn.";

/// An agent whose model is asked to go on.
pub open spec fn urged(a: Mind) -> Mind {
    Mind { messages: with_turn(a.messages, Role::User, GO_ON@), ..a }
}

impl Agent {
    /// An agent with some settings, in a workspace that adds `context` to what it is told.
    pub fn new(config: Config, context: Context) -> (r: Agent)
        requires
            config.base_url is Some,
            config.model is Some,
        ensures
            r@ == agent_of(config, context@),
            r.config == config,
    {
        let provider = ProviderClient::new(&config);
        let tools = runtime_of(&config);
        let first = instructions_of(&config, &context);
        let ghost told = first@;
        let mut messages: Vec<Message> = Vec::new();
        messages.push(first);
        let r = Agent {
            config,
            provider,
            tools,
            messages,
            shell_mode: false,
            prompt_attachments: Vec::new(),
            context,
        };
        assert(r@.messages =~= seq![told]);
        assert(r@.attachments =~= seq![]);
        r
    }

    /// Whether the full-screen interface is wanted.
    pub fn is_tui_enabled(&self) -> (r: bool)
        ensures
            r == self.config.tui,
    {
        self.config.tui
    }

    /// Takes other settings, and what the workspace adds under them.
    pub fn adopt_config(&mut self, config: Config, context: Context)
        requires
            config.base_url is Some,
            config.model is Some,
        ensures
            final(self)@ == adopted(old(self)@, config, context@),
            final(self).config == config,
    {
        let mut messages: Vec<Message> = Vec::new();
        std::mem::swap(&mut messages, &mut self.messages);
        let messages = instruct(messages, &config, &context);
        let mut attachments: Vec<PromptAttachment> = Vec::new();
        std::mem::swap(&mut attachments, &mut self.prompt_attachments);
        let provider = ProviderClient::new(&config);
        let tools = runtime_of(&config);
        *self =
        Agent {
            config,
            provider,
            tools,
            messages,
            shell_mode: self.shell_mode,
            prompt_attachments: attachments,
            context,
        };
    }

    /// Takes what the workspace adds from now on.
    pub fn adopt_context(&mut self, context: Context)
        ensures
            final(self)@ == retold(old(self)@, old(self).config, context@),
            final(self).config == old(self).config,
    {
        let mut messages: Vec<Message> = Vec::new();
        std::mem::swap(&mut messages, &mut self.messages);
        self.messages = instruct(messages, &self.config, &context);
        self.context = context;
    }

    /// Takes `/memory`: the notes change, and with them what the agent is told.
    pub fn handle_memory(&mut self, arg: &str) -> (r: MemoryEffect)
        ensures
            final(self)@ == retold(
                old(self)@,
                old(self).config,
                Background {
                    notes: remembering(old(self)@.background.notes, arg@).0,
                    ..old(self)@.background
                },
            ),
            r@ == remembering(old(self)@.background.notes, arg@).1,
            final(self).config == old(self).config,
    {
        let mut context = Context::none();
        std::mem::swap(&mut context, &mut self.context);
        let (notes, effect) = memory_command(context.notes, arg);
        let context = Context {
            guide: context.guide,
            plan: context.plan,
            notes,
            skills: context.skills,
        };
        self.adopt_context(context);
        effect
    }

    /// Takes `/skills`: the active skills of the settings change. Their texts are told once
    /// they have been read.
    pub fn handle_skills(&mut self, arg: &str) -> (r: SkillsEffect)
        ensures
            (texts(final(self).config.active_skills@), r@) == switching(
                texts(old(self).config.active_skills@),
                arg@,
            ),
            final(self).config == (Config {
                active_skills: final(self).config.active_skills,
                ..old(self).config
            }),
            final(self)@ == (Mind { settings: fixed(final(self).config), ..old(self)@ }),
    {
        let mut active: Vec<String> = Vec::new();
        std::mem::swap(&mut active, &mut self.config.active_skills);
        let (active, effect) = skills_command(active, arg);
        self.config.active_skills = active;
        effect
    }

    /// Takes up a conversation that was saved.
    pub fn take_up(&mut self, saved: &Vec<Message>)
        ensures
            final(self)@ == (Mind {
                messages: taken_up(turns(saved@), instructions(old(self).config, old(self)@.background)),
                ..old(self)@
            }),
            final(self).config == old(self).config,
    {
        let mut messages = copy_messages(saved);
        assert(turns(messages@).len() == messages@.len());
        if messages.len() == 0 || messages[0].role != Role::System {
            let first = instructions_of(&self.config, &self.context);
            let ghost told = first@;
            let ghost had = messages@;
            messages.insert(0, first);
            assert(turns(messages@) =~= seq![told] + turns(had));
        }
        proof {
            if messages@.len() > 0 {
                assert(turns(messages@)[0] == messages@[0]@);
            }
        }
        self.messages = messages;
    }

    /// Forgets what was said.
    pub fn start_over(&mut self)
        ensures
            final(self)@ == (Mind {
                messages: seq![instructions(old(self).config, old(self)@.background)],
                ..old(self)@
            }),
            final(self).config == old(self).config,
    {
        let none: Vec<Message> = Vec::new();
        assert(turns(none@) =~= seq![]);
        self.take_up(&none);
        assert(self@.messages =~= seq![instructions(old(self).config, old(self)@.background)]);
    }

    /// Whether the agent serves another.
    pub fn is_worker_mode(&self) -> (r: bool)
        ensures
            r == (self.config.role == AgentRole::Worker),
    {
        self.config.is_worker()
    }

    /// What an input is.
    pub fn read_input(&self, input: &str) -> (r: InputKind)
        ensures
            r == input_kind(input@, self@.shell_mode),
    {
        if trim_white(input).as_str().unicode_len() == 0 {
            InputKind::Blank
        } else if starts(input, "/") || starts(input, "!") {
            InputKind::Command
        } else if self.shell_mode {
            InputKind::Shell
        } else {
            InputKind::Prompt
        }
    }

    /// Whether thinking is shown.
    pub fn shows_thinking(&self) -> (r: bool)
        ensures
            r == thinking_shown(self@),
    {
        self.config.show_thinking() && self.provider.think() != ThinkMode::Off
    }

    /// What waits for the next prompt, if anything does.
    pub fn attachment_status_text(&self) -> (r: Option<String>)
        ensures
            opt_text(r) == pending(self@.attachments),
    {
        if self.prompt_attachments.len() == 0 {
            return None;
        }
        let mut list: Vec<String> = Vec::new();
        let mut i: usize = 0;
        while i < self.prompt_attachments.len()
            invariant
                i <= self.prompt_attachments@.len(),
                list@.len() == i,
                forall|j: int|
                    0 <= j < i ==> (#[trigger] list@[j])@ == attachment_word(
                        self.prompt_attachments@[j]@,
                    ),
            decreases self.prompt_attachments@.len() - i,
        {
            list.push(self.prompt_attachments[i].summary());
            i += 1;
        }
        assert(texts(list@) =~= self@.attachments.map_values(|a: Attachment| attachment_word(a)));
        let mut out = "pending prompt attachments: ".to_owned();
        out.append(join(&list, ", ").as_str());
        Some(out)
    }

    /// The prompt behind what is attached to it, which is attached no more.
    pub fn compose_user_prompt(&mut self, input: &str) -> (r: String)
        ensures
            r@ == composed(input@, old(self)@.attachments),
            final(self)@ == (Mind { attachments: seq![], ..old(self)@ }),
            final(self).config == old(self).config,
    {
        let mut taken: Vec<PromptAttachment> = Vec::new();
        std::mem::swap(&mut taken, &mut self.prompt_attachments);
        assert(self@.attachments =~= seq![]);
        compose_prompt_with_attachments(input, &taken)
    }

    fn add_turn(&mut self, role: Role, content: String)
        ensures
            final(self)@ == (Mind {
                messages: with_turn(old(self)@.messages, role, content@),
                ..old(self)@
            }),
            final(self).config == old(self).config,
    {
        let ghost had = self.messages@;
        let ghost c = content@;
        self.messages.push(Message { role, content });
        assert(self@.messages =~= with_turn(turns(had), role, c));
    }

    /// Takes a prompt.
    pub fn ask(&mut self, input: &str)
        ensures
            final(self)@ == asked(old(self)@, input@),
            final(self).config == old(self).config,
    {
        let prompt = self.compose_user_prompt(input);
        self.add_turn(Role::User, prompt);
    }

    /// The rounds that follow a prompt, before the first.
    pub fn begin_exchange(&self) -> (r: Exchange)
        ensures
            r.round == 0,
            limit_of(r.limit) == round_limit(self.config),
    {
        Exchange { round: 0, limit: self.config.tool_round_limit() }
    }

    /// Takes an answer into the conversation.
    pub fn keep_answer(&mut self, answer: &str) -> (r: String)
        ensures
            r@ == kept_answer(answer@),
            final(self)@ == answered_with(old(self)@, answer@),
            final(self).config == old(self).config,
    {
        let kept = strip_think_blocks(answer);
        let copy = kept.clone();
        self.add_turn(Role::Assistant, copy);
        kept
    }

    /// Takes an answer, and says what follows it.
    pub fn take_answer(&mut self, answer: &str) -> (r: Result<Next, CallError>)
        ensures
            final(self)@ == answered_with(old(self)@, answer@),
            final(self).config == old(self).config,
            match r {
                Ok(next) => sequel(old(self).config, kept_answer(answer@)) == Ok::<
                    Sequel,
                    Unreadable,
                >(next@),
                Err(e) => sequel(old(self).config, kept_answer(answer@)) == Err::<
                    Sequel,
                    Unreadable,
                >(e@),
            },
    {
        let kept = self.keep_answer(answer);
        match extract_tool_calls(&kept) {
            Err(e) => Err(e),
            Ok(calls) => {
                assert(uses(calls@).len() == calls@.len());
                if calls.len() > 0 {
                    Ok(Next::Run(calls))
                } else if self.config.tool_round_limit().is_none() && ending_of(&kept).is_none() {
                    Ok(Next::Again)
                } else {
                    Ok(Next::Done)
                }
            },
        }
    }

    /// Asks the model to go on.
    pub fn go_on(&mut self)
        ensures
            final(self)@ == urged(old(self)@),
            final(self).config == old(self).config,
    {
        self.add_turn(Role::User, GO_ON.to_owned());
    }

    /// Takes the results of tools, and says whether another round may follow.
    pub fn take_results(&mut self, exchange: &mut Exchange, results: &Vec<String>) -> (r: bool)
        ensures
            final(self)@ == told_results(old(self)@, texts(results@)),
            final(self).config == old(self).config,
            final(exchange).limit == old(exchange).limit,
            match next_round(old(exchange).round as nat, limit_of(old(exchange).limit)) {
                Some(round) => r && final(exchange).round == round,
                None => !r && final(exchange).round == old(exchange).round,
            },
    {
        let mut content = "Tool result:\n".to_owned();
        content.append(join(results, "\n\n").as_str());
        self.add_turn(Role::User, content);
        match exchange.limit {
            None => true,
            Some(limit) => if exchange.round < limit {
                exchange.round = exchange.round + 1;
                true
            } else {
                false
            },
        }
    }
}


// ---------------------------------------------------------------------------
// Laws
// ---------------------------------------------------------------------------

/// What holds of an agent at all times: the provider is asked with the model, the way to
/// think and the stop sequences that the settings name.
pub open spec fn in_step(a: Mind) -> bool {
    &&& a.model == Some(a.provider.model)
    &&& a.think == a.provider.think
    &&& a.stops == a.provider.stops
}

/// What holds of a conversation at all times: it begins with what the agent is told.
pub open spec fn is_instructed(a: Mind) -> bool {
    a.messages.len() > 0 && a.messages[0].role == Role::System
}

/// An agent begins in step with its settings, and with what it is told.
pub proof fn law_agents_begin_in_step(c: Config, b: Background)
    requires
        c.model is Some,
        c.base_url is Some,
    ensures
        in_step(agent_of(c, b)),
        is_instructed(agent_of(c, b)),
{
}

/// Prompts, answers, results and other settings keep an agent in step, and what it is
/// told at the head of the conversation.
pub proof fn law_conversations_keep_their_head(
    a: Mind,
    input: Seq<char>,
    answer: Seq<char>,
    results: Seq<Seq<char>>,
    c: Config,
    b: Background,
)
    requires
        in_step(a),
        is_instructed(a),
        c.model is Some,
    ensures
        in_step(asked(a, input)) && is_instructed(asked(a, input)),
        in_step(answered_with(a, answer)) && is_instructed(answered_with(a, answer)),
        in_step(told_results(a, results)) && is_instructed(told_results(a, results)),
        in_step(urged(a)) && is_instructed(urged(a)),
        in_step(adopted(a, c, b)) && is_instructed(adopted(a, c, b)),
        in_step(retold(a, c, b)) && is_instructed(retold(a, c, b)),
        asked(a, input).messages[0] == a.messages[0],
        answered_with(a, answer).messages[0] == a.messages[0],
        told_results(a, results).messages[0] == a.messages[0],
        urged(a).messages[0] == a.messages[0],
        adopted(a, c, b).messages[0] == instructions(c, b),
        retold(a, c, b).messages[0] == instructions(c, b),
{
}

/// The results of all tools of one answer are one turn.
pub proof fn law_results_are_one_turn(a: Mind, results: Seq<Seq<char>>)
    ensures
        told_results(a, results).messages.len() == a.messages.len() + 1,
        told_results(a, results).messages.last().role == Role::User,
{
}

/// A conversation that is taken up has what was saved, behind what the agent is told.
pub proof fn law_taken_up_conversations_are_whole(saved: Seq<Turn>, told: Turn)
    requires
        told.role == Role::System,
    ensures
        taken_up(saved, told).len() > 0,
        taken_up(saved, told)[0].role == Role::System,
        taken_up(saved, told).skip(taken_up(saved, told).len() - saved.len()) == saved,
{
    let whole = taken_up(saved, told);
    assert(whole.skip(whole.len() - saved.len()) =~= saved);
}

/// Other settings leave all that was said but what the agent is told.
pub proof fn law_other_settings_keep_what_was_said(a: Mind, c: Config, b: Background, i: int)
    requires
        0 < i < a.messages.len(),
    ensures
        adopted(a, c, b).messages.len() == a.messages.len(),
        adopted(a, c, b).messages[i] == a.messages[i],
        retold(a, c, b).messages.len() == a.messages.len(),
        retold(a, c, b).messages[i] == a.messages[i],
{
}

/// An agent begins with one turn, of the system, that holds the prompt of its settings,
/// the instructions and the plan of its workspace, every note and every active skill that
/// says anything.
pub proof fn law_agents_are_told_their_context(c: Config, b: Background)
    ensures
        agent_of(c, b).messages.len() == 1,
        agent_of(c, b).messages[0].role == Role::System,
        holds_text(agent_of(c, b).messages[0].content, prompt_of(c)),
        !is_blank(b.guide) ==> holds_text(agent_of(c, b).messages[0].content, b.guide),
        !is_blank(b.plan) ==> holds_text(agent_of(c, b).messages[0].content, b.plan),
        forall|i: int|
            0 <= i < b.notes.len() ==> holds_text(
                agent_of(c, b).messages[0].content,
                #[trigger] b.notes[i],
            ),
        forall|i: int|
            0 <= i < b.skills.len() && !is_blank(b.skills[i]) ==> holds_text(
                agent_of(c, b).messages[0].content,
                #[trigger] b.skills[i],
            ),
{
    law_prompts_are_kept(prompt_of(c), b);
    assert forall|i: int| 0 <= i < b.notes.len() implies holds_text(
        merged(prompt_of(c), b),
        #[trigger] b.notes[i],
    ) by {
        law_notes_are_told(prompt_of(c), b, i);
    }
    assert forall|i: int| 0 <= i < b.skills.len() && !is_blank(b.skills[i]) implies holds_text(
        merged(prompt_of(c), b),
        #[trigger] b.skills[i],
    ) by {
        law_skills_are_told(prompt_of(c), b, i);
    }
}

/// What is attached goes with one prompt: the next one stands alone.
pub proof fn law_attachments_go_once(a: Mind, first: Seq<char>, second: Seq<char>)
    ensures
        asked(a, first).attachments == Seq::<Attachment>::empty(),
        asked(asked(a, first), second).messages.last() == (Turn {
            role: Role::User,
            content: second,
        }),
{
    assert(composed(second, seq![]) =~= second);
}

/// A prompt ends in what the user typed, whatever goes with it, and is nothing else where
/// nothing does.
pub proof fn law_prompts_end_in_the_input(input: Seq<char>, list: Seq<Attachment>)
    ensures
        crate::text::ends(composed(input, list), input),
        list.len() == 0 ==> composed(input, list) == input,
{
    let whole = composed(input, list);
    assert(whole.subrange(whole.len() - input.len(), whole.len() as int) =~= input);
    if list.len() == 0 {
        assert(composed(input, list) =~= input);
    }
}

/// The round that is reached after `n` results, if they are taken.
pub open spec fn round_after(limit: Option<nat>, n: nat) -> Option<nat>
    decreases n,
{
    if n == 0 {
        Some(0)
    } else {
        match round_after(limit, (n - 1) as nat) {
            Some(round) => next_round(round, limit),
            None => None,
        }
    }
}

/// One prompt takes at most as many rounds of tools as the settings allow, and one answer
/// more.
pub proof fn law_rounds_are_bounded(limit: nat, n: nat)
    ensures
        round_after(Some(limit), n) is Some <==> n <= limit,
        n <= limit ==> round_after(Some(limit), n) == Some(n),
    decreases n,
{
    if n > 0 {
        law_rounds_are_bounded(limit, (n - 1) as nat);
    }
}

/// Where the settings lift the limit, the work on a prompt is done only with an answer that
/// ends it explicitly: as final, as blocked, or for a worker to go on. Any other answer that
/// can be read has tools run or the model asked to go on.
pub proof fn law_unlimited_work_ends_explicitly(c: Config, kept: Seq<char>)
    requires
        c.unlimited_tool_rounds,
    ensures
        sequel(c, kept) == Ok::<Sequel, Unreadable>(Sequel::Done) <==> end_of(kept) is Some,
        sequel(c, kept) == Ok::<Sequel, Unreadable>(Sequel::Again) <==> end_of(kept) is None
            && calls_found(kept) == Ok::<Seq<ToolUse>, Unreadable>(seq![]),
{
    if end_of(kept) is Some {
        law_ended_work_calls_nothing(kept);
    }
    if calls_found(kept) is Ok && calls_found(kept)->Ok_0.len() == 0 {
        assert(calls_found(kept)->Ok_0 =~= seq![]);
    }
}

/// Where there is a limit, an answer that calls no tool ends the work on a prompt.
pub proof fn law_limited_work_ends_with_an_answer(c: Config, kept: Seq<char>)
    requires
        !c.unlimited_tool_rounds,
        calls_found(kept) == Ok::<Seq<ToolUse>, Unreadable>(seq![]),
    ensures
        sequel(c, kept) == Ok::<Sequel, Unreadable>(Sequel::Done),
{
}

/// Where the settings lift the limit, no number of rounds ends the work on a prompt.
pub proof fn law_unlimited_rounds_go_on(c: Config, n: nat)
    requires
        c.unlimited_tool_rounds,
    ensures
        round_after(round_limit(c), n) is Some,
    decreases n,
{
    if n > 0 {
        law_unlimited_rounds_go_on(c, (n - 1) as nat);
    }
}

/// An input of white space alone is ignored, in line mode and in shell mode.
pub proof fn law_blank_input_is_ignored(input: Seq<char>, shell: bool)
    requires
        trimmed(input).len() == 0,
    ensures
        input_kind(input, shell) == InputKind::Blank,
{
}


/// An agent with full system access is never asked about shell commands or writes, and
/// reaches every path whose anchor can be found.
pub proof fn law_trusted_agents_are_not_asked(
    c: Config,
    b: Background,
    answer: Seq<char>,
    path: Seq<char>,
    place: Seq<char>,
)
    requires
        c.full_system_access,
    ensures
        approval(agent_of(c, b).tools.shell_permission, answer) == Approval::Approved,
        approval(agent_of(c, b).tools.write_permission, answer) == Approval::Approved,
        path_verdict(
            agent_of(c, b).tools.workspace@,
            agent_of(c, b).tools.full_system_access,
            path,
            Some(place),
        ) is Ok,
{
}

/// An agent that serves another works without asking, but never reaches outside its own
/// workspace, whatever its settings said.
pub proof fn law_workers_stay_in_their_workspace(
    c: Config,
    workspace: Seq<char>,
    variable: Option<String>,
    anthropic: Seq<char>,
    a: Config,
    b: Background,
    answer: Seq<char>,
    path: Seq<char>,
    place: Option<Seq<char>>,
)
    requires
        c.role == AgentRole::Worker,
        settled_from(c, workspace, variable, anthropic, a),
    ensures
        approval(agent_of(a, b).tools.shell_permission, answer) == Approval::Approved,
        approval(agent_of(a, b).tools.write_permission, answer) == Approval::Approved,
        path_verdict(
            agent_of(a, b).tools.workspace@,
            agent_of(a, b).tools.full_system_access,
            path,
            place,
        ) is Ok ==> !is_absolute_path(path) && place is Some && path_begins(place->0, workspace),
{
}

/// What the provider is asked is what the settings say and what was said: a request of an
/// agent that is in step names the model of its settings.
pub proof fn law_requests_follow_the_settings(a: Mind, stream: bool)
    requires
        in_step(a),
        a.provider.kind != ProviderKind::Gemini,
    ensures
        a.model matches Some(model) && at_key(
            call_of(a.provider, a.messages, stream).body,
            "model"@,
        ) == JsonModel::Text(model),
{
    law_conversations_are_carried(a.provider, a.messages, stream);
}

// ---------------------------------------------------------------------------
// Laws of single steps
// ---------------------------------------------------------------------------

/// A file goes with a prompt whole, behind its path and in a fence; an image by its path and
/// its size.
pub proof fn law_attachments_go_whole(path: Seq<char>, content: Seq<char>, size_bytes: u64)
    ensures
        attachment_text(Attachment::File { path, content }) == "[attached file: "@ + path
            + "]\n```text\n"@ + content + "\n```\n\n"@,
        attachment_text(Attachment::Image { path, size_bytes }) == "[attached image: "@ + path
            + "]\nlocal image reference ("@ + decimal(size_bytes as nat) + " bytes)\n\n"@,
        attachment_word(Attachment::File { path, content }) == "file:"@ + path,
        attachment_word(Attachment::Image { path, size_bytes }) == "image:"@ + path,
{
}

/// A prompt is what is attached to it, in order, and then the input.
pub proof fn law_prompts_hold_what_is_attached(
    input: Seq<char>,
    list: Seq<Attachment>,
    last: Attachment,
)
    ensures
        composed(input, seq![]) == input,
        composed(input, list.push(last)) == composed(attachment_text(last) + input, list),
{
    assert(list.push(last).drop_last() =~= list);
    let none: Seq<Attachment> = seq![];
    assert(composed(input, none) =~= input);
    assert(composed(input, list.push(last)) =~= composed(attachment_text(last) + input, list));
}

/// What waits for the next prompt is told in order, with commas between.
pub proof fn law_waiting_attachments_are_told(list: Seq<Attachment>, last: Attachment)
    ensures
        pending(seq![]) is None,
        pending(seq![last]) == Some("pending prompt attachments: "@ + attachment_word(last)),
        list.len() > 0 ==> pending(list) is Some && pending(list.push(last)) == Some(
            pending(list)->0 + ", "@ + attachment_word(last),
        ),
{
    let told = |a: Attachment| attachment_word(a);
    let all = list.push(last).map_values(told);
    assert(all.drop_last() =~= list.map_values(told));
    assert(list.push(last).map_values(|a: Attachment| attachment_word(a)) =~= all);
    assert(list.map_values(|a: Attachment| attachment_word(a)) =~= list.map_values(told));
    assert(seq![last].map_values(|a: Attachment| attachment_word(a)) =~= seq![
        attachment_word(last),
    ]);
    if list.len() > 0 {
        assert(pending(list.push(last))->0 =~= pending(list)->0 + ", "@ + attachment_word(last));
    }
}

/// A prompt joins the conversation as the user's turn, behind all that was said, and nothing
/// else changes but that the attachments are gone.
pub proof fn law_prompts_join_the_conversation(a: Mind, input: Seq<char>)
    ensures
        asked(a, input).messages.len() == a.messages.len() + 1,
        asked(a, input).messages.drop_last() == a.messages,
        asked(a, input).messages.last().role == Role::User,
        a.attachments.len() == 0 ==> asked(a, input).messages.last().content == input,
        asked(a, input).messages.last().content == composed(input, a.attachments),
        asked(a, input) == (Mind {
            messages: asked(a, input).messages,
            attachments: seq![],
            ..a
        }),
{
    assert(asked(a, input).messages.drop_last() =~= a.messages);
    if a.attachments.len() == 0 {
        assert(composed(input, a.attachments) =~= input);
    }
}

/// An answer joins the conversation as the assistant's turn, without the blanks around it and
/// without its thinking, and nothing else changes.
pub proof fn law_answers_join_the_conversation(a: Mind, answer: Seq<char>)
    ensures
        answered_with(a, answer).messages.len() == a.messages.len() + 1,
        answered_with(a, answer).messages.drop_last() == a.messages,
        answered_with(a, answer).messages.last().role == Role::Assistant,
        !holds_text(answer, "<think>"@) ==> answered_with(a, answer).messages.last().content
            == trimmed(answer),
        answered_with(a, answer) == (Mind { messages: answered_with(a, answer).messages, ..a }),
{
    assert(answered_with(a, answer).messages.drop_last() =~= a.messages);
    if !holds_text(answer, "<think>"@) {
        crate::thinking::law_answer_without_block_kept(answer);
    }
}

/// The thinking at the head of an answer is not kept.
pub proof fn law_thinking_is_not_kept(thought: Seq<char>, answer: Seq<char>)
    requires
        find(thought + "</think>"@ + answer, "</think>"@) == Some(thought.len() as int),
        !holds_text(answer, "<think>"@),
    ensures
        kept_answer("<think>"@ + thought + "</think>"@ + answer) == trimmed(answer),
{
    let none: Seq<char> = seq![];
    let all = "<think>"@ + thought + "</think>"@ + answer;
    crate::thinking::lemma_tags();
    assert(none + "<think>"@ + thought + "</think>"@ + answer =~= all);
    assert(all.subrange(0, 7) =~= "<think>"@);
    assert(crate::text::occurs_at(all, "<think>"@, 0));
    assert(find(all, "<think>"@) == Some(0int));
    crate::thinking::law_blocks_are_taken_out(none, thought, answer);
    crate::thinking::law_answer_without_block_kept(answer);
    assert(none + outside(answer) =~= outside(answer));
}

/// The results of tools are told in one turn of the user, each whole and in order with an empty
/// line between, and nothing else changes.
pub proof fn law_results_are_told_whole(a: Mind, results: Seq<Seq<char>>, last: Seq<char>)
    ensures
        told_results(a, seq![last]).messages.last().content == "Tool result:\n"@ + last,
        results.len() > 0 ==> told_results(a, results.push(last)).messages.last().content
            == told_results(a, results).messages.last().content + "\n\n"@ + last,
        told_results(a, results).messages.drop_last() == a.messages,
        told_results(a, results) == (Mind { messages: told_results(a, results).messages, ..a }),
{
    assert(results.push(last).drop_last() =~= results);
    assert(told_results(a, results).messages.drop_last() =~= a.messages);
    if results.len() > 0 {
        assert("Tool result:\n"@ + joined(results.push(last), "\n\n"@) =~= "Tool result:\n"@
            + joined(results, "\n\n"@) + "\n\n"@ + last);
    }
}

/// An agent that may go on is urged to by a turn of the user, and nothing else changes.
pub proof fn law_urging_is_a_turn(a: Mind)
    ensures
        urged(a).messages.drop_last() == a.messages,
        urged(a).messages.last().role == Role::User,
        urged(a).messages.last().content == GO_ON@,
        urged(a) == (Mind { messages: urged(a).messages, ..a }),
{
    assert(urged(a).messages.drop_last() =~= a.messages);
}

/// A reply that makes calls has them run, all and in order; one whose calls cannot be read is
/// told with what is wrong.
pub proof fn law_calls_are_run(c: Config, kept: Seq<char>, calls: Seq<ToolUse>)
    ensures
        calls.len() > 0 && calls_found(kept) == Ok::<Seq<ToolUse>, Unreadable>(calls) ==> sequel(
            c,
            kept,
        ) == Ok::<Sequel, Unreadable>(Sequel::Run(calls)),
        calls_found(kept) matches Err(e) ==> sequel(c, kept) == Err::<Sequel, Unreadable>(e),
{
}

/// A round follows another as long as the limit is not reached, and without a limit always.
pub proof fn law_rounds_follow_up_to_the_limit(round: nat, limit: nat)
    ensures
        round < limit ==> next_round(round, Some(limit)) == Some(round + 1),
        round >= limit ==> next_round(round, Some(limit)) is None,
        next_round(round, None) is Some,
{
}

/// A blank input is ignored, one that begins with a slash or an exclamation mark is a command,
/// and any other is a shell command in shell mode and else a prompt.
pub proof fn law_inputs_are_told_apart(input: Seq<char>, shell: bool)
    ensures
        trimmed(input).len() == 0 ==> input_kind(input, shell) == InputKind::Blank,
        trimmed(input).len() > 0 && (begins(input, "/"@) || begins(input, "!"@)) ==> input_kind(
            input,
            shell,
        ) == InputKind::Command,
        trimmed(input).len() > 0 && !begins(input, "/"@) && !begins(input, "!"@) && shell
            ==> input_kind(input, shell) == InputKind::Shell,
        trimmed(input).len() > 0 && !begins(input, "/"@) && !begins(input, "!"@) && !shell
            ==> input_kind(input, shell) == InputKind::Prompt,
{
}

/// Thinking is shown unless it is hidden or off.
pub proof fn law_thinking_shows_unless_hidden(a: Mind)
    ensures
        a.hide_thinking ==> !thinking_shown(a),
        a.provider.think == ThinkMode::Off ==> !thinking_shown(a),
        !a.hide_thinking && a.provider.think != ThinkMode::Off ==> thinking_shown(a),
{
}

/// An agent is made of the settings: their provider, address, model, key, thinking, stop
/// sequences, workspace, reach and permissions; nothing is attached and no shell mode is on.
pub proof fn law_agents_follow_their_settings(c: Config, b: Background, i: int)
    requires
        c.model is Some,
        c.base_url is Some,
    ensures
        ({
            let a = agent_of(c, b);
            &&& a.provider.kind == c.provider
            &&& a.provider.model == c.model->0@
            &&& a.provider.url == c.base_url->0@
            &&& c.api_key is Some ==> a.provider.key == Some(c.api_key->0@)
            &&& c.api_key is None ==> a.provider.key is None
            &&& a.provider.think == c.think
            &&& a.think == c.think
            &&& a.model == Some(c.model->0@)
            &&& a.hide_thinking == c.hide_thinking
            &&& a.stops.len() == c.stop_sequences@.len()
            &&& 0 <= i < c.stop_sequences@.len() ==> a.stops[i] == c.stop_sequences@[i]@
                && a.provider.stops[i] == c.stop_sequences@[i]@
            &&& a.tools.workspace == c.workspace
            &&& a.tools.full_system_access == c.full_system_access
            &&& a.tools.shell_permission == shell_mode(c)
            &&& a.tools.write_permission == write_mode(c)
            &&& a.attachments.len() == 0
            &&& !a.shell_mode
            &&& a.background == b
        }),
{
}

/// The settings of an agent are those that it was made of, but for what commands change.
pub proof fn law_agents_keep_their_settings(c: Config)
    ensures
        fixed(c).provider == c.provider,
        fixed(c).workspace == c.workspace,
        fixed(c).base_url == c.base_url,
        fixed(c).api_key == c.api_key,
        fixed(c).role == c.role,
        fixed(c).system == c.system,
        fixed(c).config_file == c.config_file,
        fixed(c).full_system_access == c.full_system_access,
        fixed(c).autonomous == c.autonomous,
        fixed(c).max_tool_rounds == c.max_tool_rounds,
        fixed(c).unlimited_tool_rounds == c.unlimited_tool_rounds,
        fixed(c).active_skills == c.active_skills,
        fixed(c).memory_file == c.memory_file,
        fixed(c).skills_dir == c.skills_dir,
{
}

/// The agent is told the prompt of its settings, or the usual one where they have none.
pub proof fn law_own_prompts_are_told(c: Config, own: String)
    ensures
        c.system == Some(own) ==> prompt_of(c) == own@,
        c.system is None ==> prompt_of(c) == SYSTEM_PROMPT@,
{
}

/// Other settings are taken over whole; the mode, what is attached and what was said stay.
pub proof fn law_other_settings_are_taken_over(a: Mind, c: Config, b: Background)
    ensures
        adopted(a, c, b).provider == agent_of(c, b).provider,
        adopted(a, c, b).tools == agent_of(c, b).tools,
        adopted(a, c, b).settings == agent_of(c, b).settings,
        adopted(a, c, b).model == agent_of(c, b).model,
        adopted(a, c, b).think == c.think,
        adopted(a, c, b).hide_thinking == c.hide_thinking,
        adopted(a, c, b).stops == agent_of(c, b).stops,
        adopted(a, c, b).background == b,
        adopted(a, c, b).shell_mode == a.shell_mode,
        adopted(a, c, b).attachments == a.attachments,
        retold(a, c, b) == (Mind { messages: retold(a, c, b).messages, background: b, ..a }),
{
}

/// A saved conversation that begins with instructions is taken up as it is, another behind the
/// instructions that the agent has.
pub proof fn law_saved_conversations_are_taken_up(saved: Seq<Turn>, told: Turn)
    ensures
        saved.len() > 0 && saved[0].role == Role::System ==> taken_up(saved, told) == saved,
        saved.len() == 0 || saved[0].role != Role::System ==> taken_up(saved, told).len()
            == saved.len() + 1 && taken_up(saved, told)[0] == told && taken_up(saved, told).skip(1)
            == saved,
{
    if saved.len() == 0 || saved[0].role != Role::System {
        assert((seq![told] + saved).skip(1) =~= saved);
    }
}

/// What is kept of any answer is what stands outside its thinking, without blanks around it.
pub proof fn law_answers_are_kept_without_thinking(a: Mind, answer: Seq<char>)
    ensures
        answered_with(a, answer).messages.last().content == trimmed(outside(answer)),
{
}

/// Without a limit the rounds are not counted.
pub proof fn law_unlimited_rounds_are_not_counted(round: nat, n: usize)
    ensures
        next_round(round, None) == Some(round),
        limit_of(Some(n)) == Some(n as nat),
        limit_of(None) is None,
{
}

/// A conversation that has not begun begins with what the agent is told.
pub proof fn law_empty_conversations_begin_with_instructions(messages: Seq<Turn>, told: Turn, i: int)
    ensures
        instructed(seq![], told) == seq![told],
        messages.len() > 0 ==> instructed(messages, told).len() == messages.len() && instructed(
            messages,
            told,
        )[0] == told,
        0 < i < messages.len() ==> instructed(messages, told)[i] == messages[i],
{
}

}
