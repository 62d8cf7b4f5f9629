//! Sessions: what is kept of one, how it is resumed and how it is summed up.
use crate::config::{opt_text, AgentRole};
use crate::paths::{join_path, joined_path};
use crate::provider::{turns, Message, Role, Turn};
use crate::sorting::{latest_first, newest_first, of_time, Dated};
use crate::text::{
    at_most, copies, copy_opt, decimal, first_chars, holds_text, join, joined, lemma_find, lines,
    number, occurs_at, same, size_number, split_lines, strip_prefix_of, texts, trim_white, trimmed,
    without_prefix,
};
use crate::workers::{first_of, first_texts, now_epoch};
use vstd::prelude::*;
use vstd::string::*;

verus! {

broadcast use {vstd::seq::group_seq_axioms, vstd::string::group_string_axioms};

/// The number of commands that a record keeps.
pub const MAX_SESSION_COMMANDS: usize = 300;

/// The number of messages that a record keeps.
pub const MAX_SESSION_MESSAGES: usize = 120;

/// What is kept of a session.
#[derive(Debug, Clone)]
pub struct SessionRecord {
    pub id: String,
    pub title: Option<String>,
    pub resumed_from: Option<String>,
    pub workspace: String,
    pub role: AgentRole,
    pub command_history: Vec<String>,
    pub messages: Vec<Message>,
    pub created_at: u64,
    pub updated_at: u64,
}

/// What is kept of a session as a mathematical object.
pub ghost struct Session {
    pub id: Seq<char>,
    pub title: Option<Seq<char>>,
    pub resumed_from: Option<Seq<char>>,
    pub workspace: Seq<char>,
    pub role: AgentRole,
    pub commands: Seq<Seq<char>>,
    pub messages: Seq<Turn>,
    pub created_at: u64,
    pub updated_at: u64,
}

impl View for SessionRecord {
    type V = Session;

    open spec fn view(&self) -> Session {
        Session {
            id: self.id@,
            title: opt_text(self.title),
            resumed_from: opt_text(self.resumed_from),
            workspace: self.workspace@,
            role: self.role,
            commands: texts(self.command_history@),
            messages: turns(self.messages@),
            created_at: self.created_at,
            updated_at: self.updated_at,
        }
    }
}

impl Dated for SessionRecord {
    open spec fn stamp(&self) -> u64 {
        self.updated_at
    }

    fn updated(&self) -> (r: u64) {
        self.updated_at
    }
}

/// The last items of a list, at most `n`.
pub open spec fn last_of<T>(list: Seq<T>, n: int) -> Seq<T> {
    if list.len() <= n {
        list
    } else {
        list.skip(list.len() - n)
    }
}

/// A session that begins.
pub open spec fn begun(workspace: Seq<char>, role: AgentRole, id: Seq<char>, now: u64) -> Session {
    Session {
        id,
        title: None,
        resumed_from: None,
        workspace,
        role,
        commands: seq![],
        messages: seq![],
        created_at: now,
        updated_at: now,
    }
}

/// A session that takes up another: it has the title, the commands and the messages of
/// the other, and an id and a time of its own.
pub open spec fn resumed(
    source: Session,
    workspace: Seq<char>,
    role: AgentRole,
    id: Seq<char>,
    now: u64,
) -> Session {
    Session {
        id,
        resumed_from: Some(source.id),
        workspace,
        role,
        created_at: now,
        updated_at: now,
        ..source
    }
}

/// A session with no more commands and messages than a record keeps: the last ones.
pub open spec fn shortened(s: Session) -> Session {
    Session {
        commands: last_of(s.commands, MAX_SESSION_COMMANDS as int),
        messages: last_of(s.messages, MAX_SESSION_MESSAGES as int),
        ..s
    }
}

/// A session after a change at a given time.
pub open spec fn touched(s: Session, now: u64) -> Session {
    shortened(Session { updated_at: now, ..s })
}

/// A copy of some messages.
pub fn copy_messages(messages: &Vec<Message>) -> (r: Vec<Message>)
    ensures
        turns(r@) == turns(messages@),
{
    let mut out: Vec<Message> = Vec::new();
    let mut i: usize = 0;
    while i < messages.len()
        invariant
            i <= messages@.len(),
            out@.len() == i,
            forall|j: int| 0 <= j < i ==> (#[trigger] out@[j])@ == messages@[j]@,
        decreases messages@.len() - i,
    {
        out.push(Message { role: messages[i].role, content: messages[i].content.clone() });
        i += 1;
    }
    assert(turns(out@) =~= turns(messages@));
    out
}

/// Keeps the last items of a list, at most `n`.
pub fn keep_last<T>(list: &mut Vec<T>, n: usize)
    ensures
        final(list)@ == last_of(old(list)@, n as int),
{
    if list.len() > n {
        let excess: usize = list.len() - n;
        let kept = list.split_off(excess);
        *list = kept;
    }
}

impl SessionRecord {
    /// A session that begins at a given time.
    pub fn new_at(workspace: String, role: AgentRole, id: String, now: u64) -> (r: SessionRecord)
        ensures
            r@ == begun(workspace@, role, id@, now),
    {
        let r = SessionRecord {
            id,
            title: None,
            resumed_from: None,
            workspace,
            role,
            command_history: Vec::new(),
            messages: Vec::new(),
            created_at: now,
            updated_at: now,
        };
        assert(r@.commands =~= seq![]);
        assert(r@.messages =~= seq![]);
        r
    }

    /// A session that begins now.
    pub fn new(workspace: String, role: AgentRole, id: String) -> (r: SessionRecord)
        ensures
            r@ == begun(workspace@, role, id@, r@.created_at),
    {
        SessionRecord::new_at(workspace, role, id, now_epoch())
    }

    /// A session that takes up another at a given time.
    pub fn resume_from_at(
        source: &SessionRecord,
        workspace: String,
        role: AgentRole,
        id: String,
        now: u64,
    ) -> (r: SessionRecord)
        ensures
            r@ == resumed(source@, workspace@, role, id@, now),
    {
        SessionRecord {
            id,
            title: copy_opt(&source.title),
            resumed_from: Some(source.id.clone()),
            workspace,
            role,
            command_history: copies(&source.command_history),
            messages: copy_messages(&source.messages),
            created_at: now,
            updated_at: now,
        }
    }

    /// A session that takes up another now.
    pub fn resume_from(source: &SessionRecord, workspace: String, role: AgentRole, id: String) -> (r:
        SessionRecord)
        ensures
            r@ == resumed(source@, workspace@, role, id@, r@.created_at),
    {
        SessionRecord::resume_from_at(source, workspace, role, id, now_epoch())
    }

    /// Marks a change at a given time.
    pub fn touch_at(&mut self, now: u64)
        ensures
            final(self)@ == touched(old(self)@, now),
    {
        self.updated_at = now;
        trim_session_record(self);
    }

    /// Marks a change now.
    pub fn touch(&mut self)
        ensures
            final(self)@ == touched(old(self)@, final(self)@.updated_at),
    {
        self.touch_at(now_epoch());
    }
}

/// Drops the commands and messages that a record does not keep.
pub fn trim_session_record(record: &mut SessionRecord)
    ensures
        final(record)@ == shortened(old(record)@),
{
    let ghost commands = record.command_history@;
    let ghost messages = record.messages@;
    keep_last(&mut record.command_history, MAX_SESSION_COMMANDS);
    keep_last(&mut record.messages, MAX_SESSION_MESSAGES);
    assert(texts(last_of(commands, 300)) =~= last_of(texts(commands), 300));
    assert(turns(last_of(messages, 120)) =~= last_of(turns(messages), 120));
}

/// A record as it is saved.
pub fn saved_record(record: &SessionRecord) -> (r: SessionRecord)
    ensures
        r@ == shortened(record@),
{
    let mut copy = SessionRecord {
        id: record.id.clone(),
        title: copy_opt(&record.title),
        resumed_from: copy_opt(&record.resumed_from),
        workspace: record.workspace.clone(),
        role: record.role,
        command_history: copies(&record.command_history),
        messages: copy_messages(&record.messages),
        created_at: record.created_at,
        updated_at: record.updated_at,
    };
    trim_session_record(&mut copy);
    copy
}

// ---------------------------------------------------------------------------
// Keeping a session
// ---------------------------------------------------------------------------

/// A session after one more input: its command history grows, and the first input names
/// it.
pub open spec fn remembered(s: Session, input: Seq<char>, now: u64) -> Session {
    touched(
        Session {
            title: match s.title {
                Some(title) => Some(title),
                None => Some(title_from(input)),
            },
            commands: s.commands.push(input),
            ..s
        },
        now,
    )
}

/// A session with a snapshot of the conversation.
pub open spec fn snapped(s: Session, messages: Seq<Turn>, now: u64) -> Session {
    touched(Session { messages, ..s }, now)
}

impl SessionRecord {
    /// Remembers an input that comes at a given time.
    pub fn remember_at(&mut self, input: &str, now: u64)
        ensures
            final(self)@ == remembered(old(self)@, input@, now),
    {
        if self.title.is_none() {
            self.title = Some(session_title_from_input(input));
        }
        let ghost had = self@.commands;
        self.command_history.push(input.to_owned());
        assert(self@.commands =~= had.push(input@));
        self.touch_at(now);
    }

    /// Remembers an input that comes now.
    pub fn remember(&mut self, input: &str)
        ensures
            final(self)@ == remembered(old(self)@, input@, final(self)@.updated_at),
    {
        self.remember_at(input, now_epoch());
    }

    /// Takes a snapshot of the conversation at a given time.
    pub fn snapshot_at(&mut self, messages: &Vec<Message>, now: u64)
        ensures
            final(self)@ == snapped(old(self)@, turns(messages@), now),
    {
        self.messages = copy_messages(messages);
        self.touch_at(now);
    }

    /// Takes a snapshot of the conversation now.
    pub fn snapshot(&mut self, messages: &Vec<Message>)
        ensures
            final(self)@ == snapped(old(self)@, turns(messages@), final(self)@.updated_at),
    {
        self.snapshot_at(messages, now_epoch());
    }
}

/// How `/session` is used.
pub const SESSION_USAGE: &'static str = "usage: /session [show|list|history|save|new|resume <id>]";

/// What `/session` calls for.
#[derive(Debug)]
pub enum SessionEffect {
    /// The user is told something.
    Info(String),
    /// The user is told that something is wrong.
    Error(String),
    /// The saved sessions are listed.
    List,
    /// The session is saved.
    Save,
    /// A fresh session begins.
    Fresh,
    /// A saved session is taken up.
    Resume { id: String },
}

/// What `/session` calls for as a mathematical object.
pub ghost enum SessionWish {
    Info(Seq<char>),
    Error(Seq<char>),
    List,
    Save,
    Fresh,
    Resume { id: Seq<char> },
}

impl View for SessionEffect {
    type V = SessionWish;

    open spec fn view(&self) -> SessionWish {
        match self {
            SessionEffect::Info(t) => SessionWish::Info(t@),
            SessionEffect::Error(t) => SessionWish::Error(t@),
            SessionEffect::List => SessionWish::List,
            SessionEffect::Save => SessionWish::Save,
            SessionEffect::Fresh => SessionWish::Fresh,
            SessionEffect::Resume { id } => SessionWish::Resume { id: id@ },
        }
    }
}

/// What `/session` calls for, given its argument.
pub open spec fn session_wish(s: Session, arg: Seq<char>) -> SessionWish {
    if arg.len() == 0 || arg == "show"@ {
        SessionWish::Info(session_lines(s))
    } else if arg == "list"@ {
        SessionWish::List
    } else if arg == "history"@ {
        SessionWish::Info(history_lines(s))
    } else if arg == "save"@ {
        SessionWish::Save
    } else if arg == "new"@ {
        SessionWish::Fresh
    } else {
        match without_prefix(arg, "resume "@) {
            Some(rest) => if trimmed(rest).len() == 0 {
                SessionWish::Error(SESSION_USAGE@)
            } else {
                SessionWish::Resume { id: trimmed(rest) }
            },
            None => SessionWish::Error(SESSION_USAGE@),
        }
    }
}

/// `/session`, given its argument.
pub fn session_command(record: &SessionRecord, arg: &str) -> (r: SessionEffect)
    ensures
        r@ == session_wish(record@, arg@),
{
    if arg.unicode_len() == 0 || same(arg, "show") {
        SessionEffect::Info(session_tail_summary(record))
    } else if same(arg, "list") {
        SessionEffect::List
    } else if same(arg, "history") {
        SessionEffect::Info(session_history_summary(record))
    } else if same(arg, "save") {
        SessionEffect::Save
    } else if same(arg, "new") {
        SessionEffect::Fresh
    } else {
        match strip_prefix_of(arg, "resume ") {
            Some(rest) => {
                let id = trim_white(&rest);
                if id.as_str().unicode_len() == 0 {
                    SessionEffect::Error(SESSION_USAGE.to_owned())
                } else {
                    SessionEffect::Resume { id }
                }
            },
            None => SessionEffect::Error(SESSION_USAGE.to_owned()),
        }
    }
}

/// The saved sessions, a line each.
pub open spec fn session_list(records: Seq<SessionRecord>) -> Seq<char> {
    if records.len() == 0 {
        "sessions: none"@
    } else {
        joined(records.map_values(|r: SessionRecord| session_line(r@)), "\n"@)
    }
}

/// The saved sessions, a line each.
pub fn summarize_sessions(records: &Vec<SessionRecord>) -> (r: String)
    ensures
        r@ == session_list(records@),
{
    if records.len() == 0 {
        return "sessions: none".to_owned();
    }
    let mut out: Vec<String> = Vec::new();
    let mut i: usize = 0;
    while i < records.len()
        invariant
            i <= records@.len(),
            out@.len() == i,
            forall|j: int| 0 <= j < i ==> (#[trigger] out@[j])@ == session_line(records@[j]@),
        decreases records@.len() - i,
    {
        out.push(summarize_session(&records[i]));
        i += 1;
    }
    assert(texts(out@) =~= records@.map_values(|r: SessionRecord| session_line(r@)));
    join(&out, "\n")
}

// ---------------------------------------------------------------------------
// Names and places
// ---------------------------------------------------------------------------

/// The id of a session that a process begins at a given time.
pub open spec fn session_id(role: AgentRole, now: u64, pid: u32) -> Seq<char> {
    (match role {
        AgentRole::Master => "master"@,
        AgentRole::Worker => "worker"@,
    }) + "-"@ + decimal(now as nat) + "-"@ + decimal(pid as nat)
}

/// The id of a session that the process `pid` begins at a given time.
pub fn session_id_at(role: AgentRole, now: u64, pid: u32) -> (r: String)
    ensures
        r@ == session_id(role, now, pid),
{
    let mut id = match role {
        AgentRole::Master => "master".to_owned(),
        AgentRole::Worker => "worker".to_owned(),
    };
    id.append("-");
    id.append(number(now).as_str());
    id.append("-");
    id.append(number(pid as u64).as_str());
    id
}

/// The id of a session that the process `pid` begins now.
pub fn make_session_id(role: AgentRole, pid: u32) -> (r: String)
    ensures
        exists|now: u64| r@ == #[trigger] session_id(role, now, pid),
{
    session_id_at(role, now_epoch(), pid)
}

/// The directory of the sessions' records.
pub open spec fn sessions_path(root: Seq<char>) -> Seq<char> {
    joined_path(root, "sessions"@)
}

/// The directory of the sessions' records, in the shared directory `root`.
pub fn sessions_dir(root: &str) -> (r: String)
    ensures
        r@ == sessions_path(root@),
{
    join_path(root, "sessions")
}

/// The file of a session's record.
pub fn session_record_path(root: &str, id: &str) -> (r: String)
    ensures
        r@ == joined_path(sessions_path(root@), id@ + ".json"@),
{
    let mut name = id.to_owned();
    name.append(".json");
    join_path(&sessions_dir(root), &name)
}

/// The records of the sessions as they are listed: the latest first.
pub fn list_session_records(found: Vec<SessionRecord>) -> (r: Vec<SessionRecord>)
    ensures
        latest_first(r@),
        forall|k: u64| #[trigger] of_time(r@, k) == of_time(found@, k),
        r@.to_multiset() == found@.to_multiset(),
{
    newest_first(found)
}

// ---------------------------------------------------------------------------
// Summaries
// ---------------------------------------------------------------------------

/// The name of an agent's role.
pub open spec fn agent_word(role: AgentRole) -> Seq<char> {
    match role {
        AgentRole::Master => "Master"@,
        AgentRole::Worker => "Worker"@,
    }
}

fn agent_name(role: AgentRole) -> (r: &'static str)
    ensures
        r@ == agent_word(role),
{
    match role {
        AgentRole::Master => "Master",
        AgentRole::Worker => "Worker",
    }
}

/// The name of a speaker.
pub open spec fn speaker_word(role: Role) -> Seq<char> {
    match role {
        Role::System => "System"@,
        Role::User => "User"@,
        Role::Assistant => "Assistant"@,
    }
}

fn speaker_name(role: Role) -> (r: &'static str)
    ensures
        r@ == speaker_word(role),
{
    match role {
        Role::System => "System",
        Role::User => "User",
        Role::Assistant => "Assistant",
    }
}

/// The title that is shown.
pub open spec fn shown_title(title: Option<Seq<char>>) -> Seq<char> {
    match title {
        Some(t) => if trimmed(t).len() == 0 {
            "untitled"@
        } else {
            t
        },
        None => "untitled"@,
    }
}

fn title_of(record: &SessionRecord) -> (r: String)
    ensures
        r@ == shown_title(record@.title),
{
    match &record.title {
        Some(t) => if trim_white(t).as_str().unicode_len() == 0 {
            "untitled".to_owned()
        } else {
            t.clone()
        },
        None => "untitled".to_owned(),
    }
}

/// A text, or `none`.
pub open spec fn text_or_none(t: Option<Seq<char>>) -> Seq<char> {
    match t {
        Some(t) => t,
        None => "none"@,
    }
}

fn or_none(t: &Option<String>) -> (r: String)
    ensures
        r@ == text_or_none(opt_text(*t)),
{
    match t {
        Some(t) => t.clone(),
        None => "none".to_owned(),
    }
}

/// A session in one line.
pub open spec fn session_line(s: Session) -> Seq<char> {
    s.id + " "@ + shown_title(s.title) + " role="@ + agent_word(s.role) + " commands="@ + decimal(
        s.commands.len(),
    ) + " messages="@ + decimal(s.messages.len()) + " workspace="@ + s.workspace
        + " resumed_from="@ + text_or_none(s.resumed_from) + " updated_at="@ + decimal(
        s.updated_at as nat,
    )
}

/// A session in one line.
pub fn summarize_session(record: &SessionRecord) -> (r: String)
    ensures
        r@ == session_line(record@),
{
    let mut out = record.id.clone();
    out.append(" ");
    out.append(title_of(record).as_str());
    out.append(" role=");
    out.append(agent_name(record.role));
    out.append(" commands=");
    out.append(size_number(record.command_history.len()).as_str());
    out.append(" messages=");
    out.append(size_number(record.messages.len()).as_str());
    out.append(" workspace=");
    out.append(record.workspace.as_str());
    out.append(" resumed_from=");
    out.append(or_none(&record.resumed_from).as_str());
    out.append(" updated_at=");
    out.append(number(record.updated_at).as_str());
    out
}

/// The beginning of a text on one line: its first four lines, trimmed, at most 120
/// characters.
pub open spec fn excerpt(task: Seq<char>) -> Seq<char> {
    at_most(trimmed(joined(first_of(lines(task), 4), " "@)), 120)
}

/// The beginning of a text on one line.
pub fn one_line_excerpt(task: &str) -> (r: String)
    ensures
        r@ == excerpt(task@),
{
    let all = split_lines(task);
    first_chars(&trim_white(&join(&first_texts(&all, 4), " ")), 120)
}

/// The last commands of a session, a line each.
pub open spec fn last_commands(s: Session) -> Seq<char> {
    if s.commands.len() == 0 {
        "none"@
    } else {
        joined(last_of(s.commands, 8), "\n"@)
    }
}

/// A message on one line.
pub open spec fn message_line(m: Turn) -> Seq<char> {
    speaker_word(m.role) + ": "@ + excerpt(m.content)
}

/// The last messages of a session, a line each.
pub open spec fn last_messages(s: Session) -> Seq<char> {
    if s.messages.len() == 0 {
        "none"@
    } else {
        joined(last_of(s.messages, 4).map_values(|m: Turn| message_line(m)), "\n"@)
    }
}

fn commands_tail(record: &SessionRecord) -> (r: String)
    ensures
        r@ == last_commands(record@),
{
    if record.command_history.len() == 0 {
        "none".to_owned()
    } else {
        let mut tail = copies(&record.command_history);
        keep_last(&mut tail, 8);
        assert(texts(tail@) =~= last_of(record@.commands, 8));
        join(&tail, "\n")
    }
}

fn messages_tail(record: &SessionRecord) -> (r: String)
    ensures
        r@ == last_messages(record@),
{
    let n: usize = record.messages.len();
    if n == 0 {
        return "none".to_owned();
    }
    let from: usize = if n > 4 {
        n - 4
    } else {
        0
    };
    let mut out: Vec<String> = Vec::new();
    let mut i: usize = from;
    while i < n
        invariant
            from <= i <= n,
            n == record.messages@.len(),
            out@.len() == i - from,
            forall|j: int|
                0 <= j < out@.len() ==> (#[trigger] out@[j])@ == message_line(
                    record.messages@[from + j]@,
                ),
        decreases n - i,
    {
        let mut line = speaker_name(record.messages[i].role).to_owned();
        line.append(": ");
        line.append(one_line_excerpt(&record.messages[i].content).as_str());
        out.push(line);
        i += 1;
    }
    assert(texts(out@) =~= last_of(record@.messages, 4).map_values(|m: Turn| message_line(m)));
    join(&out, "\n")
}

/// A session in some lines.
pub open spec fn session_lines(s: Session) -> Seq<char> {
    "session "@ + s.id + "\ntitle: "@ + shown_title(s.title) + "\nworkspace: "@ + s.workspace
        + "\nrole: "@ + agent_word(s.role) + "\ncommands: "@ + decimal(s.commands.len())
        + "\nmessages: "@ + decimal(s.messages.len()) + "\nresumed_from: "@ + text_or_none(
        s.resumed_from,
    ) + "\nlast_commands:\n"@ + last_commands(s) + "\nlast_messages:\n"@ + last_messages(s)
}

/// A session in some lines.
pub fn session_tail_summary(record: &SessionRecord) -> (r: String)
    ensures
        r@ == session_lines(record@),
{
    let mut out = "session ".to_owned();
    out.append(record.id.as_str());
    out.append("\ntitle: ");
    out.append(title_of(record).as_str());
    out.append("\nworkspace: ");
    out.append(record.workspace.as_str());
    out.append("\nrole: ");
    out.append(agent_name(record.role));
    out.append("\ncommands: ");
    out.append(size_number(record.command_history.len()).as_str());
    out.append("\nmessages: ");
    out.append(size_number(record.messages.len()).as_str());
    out.append("\nresumed_from: ");
    out.append(or_none(&record.resumed_from).as_str());
    out.append("\nlast_commands:\n");
    out.append(commands_tail(record).as_str());
    out.append("\nlast_messages:\n");
    out.append(messages_tail(record).as_str());
    out
}

/// Texts behind their numbers, from one.
pub open spec fn numbered(list: Seq<Seq<char>>) -> Seq<Seq<char>> {
    Seq::new(list.len(), |i: int| decimal((i + 1) as nat) + ": "@ + list[i])
}

/// The commands of a session, numbered.
pub open spec fn history_lines(s: Session) -> Seq<char> {
    if s.commands.len() == 0 {
        "session history: none"@
    } else {
        "session history:\n"@ + joined(numbered(s.commands), "\n"@)
    }
}

/// The commands of a session, numbered.
pub fn session_history_summary(record: &SessionRecord) -> (r: String)
    ensures
        r@ == history_lines(record@),
{
    if record.command_history.len() == 0 {
        return "session history: none".to_owned();
    }
    let mut out: Vec<String> = Vec::new();
    let mut i: usize = 0;
    while i < record.command_history.len()
        invariant
            i <= record.command_history.len(),
            out@.len() == i,
            forall|j: int|
                0 <= j < i ==> (#[trigger] out@[j])@ == decimal((j + 1) as nat) + ": "@
                    + record.command_history@[j]@,
        decreases record.command_history@.len() - i,
    {
        let mut line = size_number(i + 1);
        line.append(": ");
        line.append(record.command_history[i].as_str());
        out.push(line);
        i += 1;
    }
    assert(texts(out@) =~= numbered(record@.commands));
    let mut text = "session history:\n".to_owned();
    text.append(join(&out, "\n").as_str());
    text
}

/// The title that a session takes from its first input.
pub open spec fn title_from(input: Seq<char>) -> Seq<char> {
    if excerpt(input).len() == 0 {
        "interactive session"@
    } else {
        excerpt(input)
    }
}

/// The title that a session takes from its first input.
pub fn session_title_from_input(input: &str) -> (r: String)
    ensures
        r@ == title_from(input@),
{
    let title = one_line_excerpt(input);
    if title.as_str().unicode_len() == 0 {
        "interactive session".to_owned()
    } else {
        title
    }
}

// ---------------------------------------------------------------------------
// Laws
// ---------------------------------------------------------------------------

/// A session that takes up another has what the other had said, and knows the other.
pub proof fn law_resumed_session_keeps_what_was_said(
    source: Session,
    workspace: Seq<char>,
    role: AgentRole,
    id: Seq<char>,
    now: u64,
)
    ensures
        resumed(source, workspace, role, id, now).commands == source.commands,
        resumed(source, workspace, role, id, now).messages == source.messages,
        resumed(source, workspace, role, id, now).title == source.title,
        resumed(source, workspace, role, id, now).resumed_from == Some(source.id),
        resumed(source, workspace, role, id, now).id == id,
{
}

/// A record is bounded after each change, however many commands and messages came, and
/// holds the last of them.
pub proof fn law_records_are_bounded(s: Session, now: u64)
    ensures
        touched(s, now).commands.len() <= MAX_SESSION_COMMANDS,
        touched(s, now).messages.len() <= MAX_SESSION_MESSAGES,
        s.commands.len() > 0 ==> touched(s, now).commands.last() == s.commands.last(),
        s.messages.len() > 0 ==> touched(s, now).messages.last() == s.messages.last(),
{
}

/// A record that was changed is saved as it is.
pub proof fn law_touched_record_is_saved_whole(s: Session, now: u64)
    ensures
        shortened(touched(s, now)) == touched(s, now),
{
}

/// A title is never empty and never longer than 120 characters.
pub proof fn law_titles_are_short(input: Seq<char>)
    ensures
        0 < title_from(input).len() <= 120,
{
    reveal_strlit("interactive session");
}


/// The last input of a session is its last command, and a session keeps the title it has.
pub proof fn law_inputs_are_remembered(s: Session, input: Seq<char>, now: u64)
    ensures
        remembered(s, input, now).commands.last() == input,
        s.title is Some ==> remembered(s, input, now).title == s.title,
        s.title is None ==> remembered(s, input, now).title == Some(title_from(input)),
        remembered(s, input, now).messages == last_of(s.messages, MAX_SESSION_MESSAGES as int),
{
}

/// What was said is there again when a saved session is taken up: all of it, as far as a
/// record keeps it.
pub proof fn law_saved_conversation_comes_back(
    s: Session,
    messages: Seq<Turn>,
    now: u64,
    workspace: Seq<char>,
    role: AgentRole,
    id: Seq<char>,
    later: u64,
)
    ensures
        resumed(snapped(s, messages, now), workspace, role, id, later).messages == last_of(
            messages,
            MAX_SESSION_MESSAGES as int,
        ),
        messages.len() <= MAX_SESSION_MESSAGES ==> resumed(
            snapped(s, messages, now),
            workspace,
            role,
            id,
            later,
        ).messages == messages,
{
}

proof fn lemma_part_occurs(parts: Seq<Seq<char>>, sep: Seq<char>, i: int)
    requires
        0 <= i < parts.len(),
    ensures
        exists|k: int| #[trigger] occurs_at(joined(parts, sep), parts[i], k),
    decreases parts.len(),
{
    let whole = joined(parts, sep);
    if parts.len() == 1 {
        assert(whole.subrange(0, parts[0].len() as int) =~= parts[0]);
        assert(occurs_at(whole, parts[0], 0));
    } else if i == parts.len() - 1 {
        let head = joined(parts.drop_last(), sep) + sep;
        let k = head.len() as int;
        assert(whole.subrange(k, k + parts[i].len()) =~= parts[i]);
        assert(occurs_at(whole, parts[i], k));
    } else {
        let rest = parts.drop_last();
        lemma_part_occurs(rest, sep, i);
        let k = choose|k: int| #[trigger] occurs_at(joined(rest, sep), rest[i], k);
        let n = parts[i].len() as int;
        assert(whole.subrange(k, k + n) =~= joined(rest, sep).subrange(k, k + n));
        assert(occurs_at(whole, parts[i], k));
    }
}

/// The history shows every command.
pub proof fn law_history_shows_every_command(s: Session, i: int)
    requires
        0 <= i < s.commands.len(),
    ensures
        holds_text(history_lines(s), s.commands[i]),
{
    let all = numbered(s.commands);
    let body = joined(all, "\n"@);
    lemma_part_occurs(all, "\n"@, i);
    let k = choose|k: int| #[trigger] occurs_at(body, all[i], k);
    let c = s.commands[i];
    let mark = decimal((i + 1) as nat) + ": "@;
    let head = "session history:\n"@;
    let place = head.len() + k + mark.len();
    let whole = history_lines(s);
    assert(all[i] == mark + c);
    assert(whole.subrange(place, place + c.len()) =~= c) by {
        assert forall|j: int| 0 <= j < c.len() implies whole[place + j] == c[j] by {
            assert(whole[place + j] == body[k + mark.len() + j]);
            assert(body.subrange(k, k + all[i].len())[mark.len() + j] == all[i][mark.len() + j]);
        }
    }
    assert(occurs_at(whole, c, place));
    lemma_find(whole, c);
}

/// A new session has the id, the workspace, the role and the time that it is given, and nothing
/// was said in it.
pub proof fn law_new_sessions_are_empty(
    workspace: Seq<char>,
    role: AgentRole,
    id: Seq<char>,
    now: u64,
)
    ensures
        begun(workspace, role, id, now).id == id,
        begun(workspace, role, id, now).workspace == workspace,
        begun(workspace, role, id, now).role == role,
        begun(workspace, role, id, now).title is None,
        begun(workspace, role, id, now).resumed_from is None,
        begun(workspace, role, id, now).commands.len() == 0,
        begun(workspace, role, id, now).messages.len() == 0,
        begun(workspace, role, id, now).created_at == now,
        begun(workspace, role, id, now).updated_at == now,
{
}

/// A session that takes up another works in the workspace and under the role that it is given,
/// from the time on at which it does.
pub proof fn law_resumed_session_is_its_own(
    source: Session,
    workspace: Seq<char>,
    role: AgentRole,
    id: Seq<char>,
    now: u64,
)
    ensures
        resumed(source, workspace, role, id, now).workspace == workspace,
        resumed(source, workspace, role, id, now).role == role,
        resumed(source, workspace, role, id, now).created_at == now,
        resumed(source, workspace, role, id, now).updated_at == now,
{
}

/// Of a long list the last items are kept and in order, of a short one all.
pub proof fn law_the_last_are_kept<T>(list: Seq<T>, n: int, i: int)
    requires
        0 <= n,
    ensures
        list.len() <= n ==> last_of(list, n) == list,
        list.len() > n ==> last_of(list, n).len() == n,
        list.len() > n && 0 <= i < n ==> last_of(list, n)[i] == list[list.len() - n + i],
{
}

/// A change sets the time of the record and leaves all of it but the commands and messages
/// beyond what a record keeps: three hundred and a hundred and twenty, the last ones.
pub proof fn law_changes_leave_the_record(s: Session, now: u64)
    ensures
        touched(s, now).updated_at == now,
        touched(s, now).id == s.id,
        touched(s, now).title == s.title,
        touched(s, now).resumed_from == s.resumed_from,
        touched(s, now).workspace == s.workspace,
        touched(s, now).role == s.role,
        touched(s, now).created_at == s.created_at,
        s.commands.len() <= 300 ==> touched(s, now).commands == s.commands,
        s.commands.len() > 300 ==> touched(s, now).commands == s.commands.skip(
            s.commands.len() - 300,
        ),
        s.messages.len() <= 120 ==> touched(s, now).messages == s.messages,
        s.messages.len() > 120 ==> touched(s, now).messages == s.messages.skip(
            s.messages.len() - 120,
        ),
        shortened(s) == (Session { updated_at: s.updated_at, ..touched(s, now) }),
{
}

/// An input goes behind the commands that came before it, and nothing else of the session
/// changes but its time and, for the first, its title.
pub proof fn law_inputs_go_behind_the_others(s: Session, input: Seq<char>, now: u64)
    ensures
        s.commands.len() < 300 ==> remembered(s, input, now).commands == s.commands.push(input),
        s.commands.len() >= 300 ==> remembered(s, input, now).commands == s.commands.skip(
            s.commands.len() - 299,
        ).push(input),
        remembered(s, input, now).updated_at == now,
        remembered(s, input, now).id == s.id,
        remembered(s, input, now).resumed_from == s.resumed_from,
        remembered(s, input, now).workspace == s.workspace,
        remembered(s, input, now).role == s.role,
        remembered(s, input, now).created_at == s.created_at,
        s.messages.len() <= 120 ==> remembered(s, input, now).messages == s.messages,
{
    if s.commands.len() >= 300 {
        assert(remembered(s, input, now).commands =~= s.commands.skip(
            s.commands.len() - 299,
        ).push(input));
    }
}

/// A snapshot of a conversation replaces the one before and leaves the rest of the session but
/// its time.
pub proof fn law_snapshots_replace_the_conversation(s: Session, messages: Seq<Turn>, now: u64)
    ensures
        messages.len() <= 120 ==> snapped(s, messages, now).messages == messages,
        messages.len() > 120 ==> snapped(s, messages, now).messages == messages.skip(
            messages.len() - 120,
        ),
        s.commands.len() <= 300 ==> snapped(s, messages, now).commands == s.commands,
        snapped(s, messages, now).updated_at == now,
        snapped(s, messages, now).id == s.id,
        snapped(s, messages, now).title == s.title,
        snapped(s, messages, now).resumed_from == s.resumed_from,
        snapped(s, messages, now).workspace == s.workspace,
        snapped(s, messages, now).role == s.role,
        snapped(s, messages, now).created_at == s.created_at,
{
}

/// `/session` shows the session, lists those that were saved, shows the history, saves, begins
/// anew or takes up the session that is named; what is none of these is told its usage.
pub proof fn law_session_commands_are_carried_out(s: Session, arg: Seq<char>, id: Seq<char>)
    ensures
        session_wish(s, ""@) == SessionWish::Info(session_lines(s)),
        session_wish(s, "show"@) == SessionWish::Info(session_lines(s)),
        session_wish(s, "list"@) == SessionWish::List,
        session_wish(s, "history"@) == SessionWish::Info(history_lines(s)),
        session_wish(s, "save"@) == SessionWish::Save,
        session_wish(s, "new"@) == SessionWish::Fresh,
        trimmed(id).len() > 0 ==> session_wish(s, "resume "@ + id) == (SessionWish::Resume {
            id: trimmed(id),
        }),
        trimmed(id).len() == 0 ==> session_wish(s, "resume "@ + id) == SessionWish::Error(
            SESSION_USAGE@,
        ),
        arg.len() > 0 && arg != "show"@ && arg != "list"@ && arg != "history"@ && arg != "save"@
            && arg != "new"@ && !crate::text::begins(arg, "resume "@) ==> session_wish(s, arg)
            == SessionWish::Error(SESSION_USAGE@),
{
    reveal_strlit("");
    reveal_strlit("show");
    reveal_strlit("list");
    reveal_strlit("history");
    reveal_strlit("save");
    reveal_strlit("new");
    reveal_strlit("resume ");
    assert("show"@[1] == 'h');
    assert("save"@[1] == 'a');
    assert("list"@[0] == 'l');
    let named = "resume "@ + id;
    assert(named.subrange(0, 7) =~= "resume "@);
    assert(named.skip(7) =~= id);
    assert("history"@[0] == 'h');
    assert(named[0] == 'r');
    assert("new"@[0] == 'n');
    assert("save"@[0] == 's');
    assert("show"@[0] == 's');
}

/// Each saved session is told on a line of its own, in order.
pub proof fn law_each_session_is_listed(records: Seq<SessionRecord>, record: SessionRecord)
    ensures
        session_list(seq![]) == "sessions: none"@,
        session_list(seq![record]) == session_line(record@),
        records.len() > 0 ==> session_list(records.push(record)) == session_list(records) + "\n"@
            + session_line(record@),
{
    let told = |r: SessionRecord| session_line(r@);
    let all = records.push(record).map_values(told);
    assert(all.drop_last() =~= records.map_values(told));
    assert(records.push(record).map_values(|r: SessionRecord| session_line(r@)) =~= all);
    assert(records.map_values(|r: SessionRecord| session_line(r@)) =~= records.map_values(told));
    assert(seq![record].map_values(|r: SessionRecord| session_line(r@)) =~= seq![
        session_line(record@),
    ]);
}

/// A session is told on one line by its id, its title, its role, the number of its commands
/// and messages, its workspace, the session that it took up and its time, and on several with
/// its last commands and messages.
pub proof fn law_session_lines_tell_the_session(s: Session)
    ensures
        ({
            let title = match s.title {
                Some(t) => if trimmed(t).len() > 0 {
                    t
                } else {
                    "untitled"@
                },
                None => "untitled"@,
            };
            let from = match s.resumed_from {
                Some(id) => id,
                None => "none"@,
            };
            let role = match s.role {
                AgentRole::Master => "Master"@,
                AgentRole::Worker => "Worker"@,
            };
            &&& session_line(s) == s.id + " "@ + title + " role="@ + role + " commands="@ + decimal(
                s.commands.len(),
            ) + " messages="@ + decimal(s.messages.len()) + " workspace="@ + s.workspace
                + " resumed_from="@ + from + " updated_at="@ + decimal(s.updated_at as nat)
            &&& session_lines(s) == "session "@ + s.id + "\ntitle: "@ + title + "\nworkspace: "@
                + s.workspace + "\nrole: "@ + role + "\ncommands: "@ + decimal(s.commands.len())
                + "\nmessages: "@ + decimal(s.messages.len()) + "\nresumed_from: "@ + from
                + "\nlast_commands:\n"@ + last_commands(s) + "\nlast_messages:\n"@ + last_messages(
                s,
            )
        }),
{
}

/// A text is told by its first four lines, one behind the other and without the blanks around
/// them, and by no more than a hundred and twenty characters.
pub proof fn law_texts_are_told_by_their_beginning(task: Seq<char>)
    ensures
        ({
            let first = if lines(task).len() <= 4 {
                lines(task)
            } else {
                lines(task).take(4)
            };
            let said = trimmed(joined(first, " "@));
            &&& said.len() <= 120 ==> excerpt(task) == said
            &&& said.len() > 120 ==> excerpt(task) == said.take(120)
            &&& said.len() == 0 ==> title_from(task) == "interactive session"@
            &&& said.len() > 0 ==> title_from(task) == excerpt(task)
        }),
{
}

/// The last messages of a long session are its last four.
pub proof fn law_only_the_last_messages_are_shown(s: Session)
    requires
        s.messages.len() >= 4,
    ensures
        last_messages(s) == last_messages(
            Session { messages: s.messages.skip(s.messages.len() - 4), ..s },
        ),
{
    let kept = s.messages.skip(s.messages.len() - 4);
    assert(last_of(s.messages, 4) =~= kept);
    assert(last_of(kept, 4) =~= kept);
}

/// A session without a title is told as untitled, one that took up no other as such.
pub proof fn law_untitled_sessions_are_told(s: Session, blank: Seq<char>)
    requires
        trimmed(blank).len() == 0,
    ensures
        shown_title(None) == "untitled"@,
        shown_title(Some(blank)) == "untitled"@,
        text_or_none(None) == "none"@,
        s.commands.len() == 0 ==> last_commands(s) == "none"@ && history_lines(s)
            == "session history: none"@,
        s.messages.len() == 0 ==> last_messages(s) == "none"@,
{
}

/// The summary of a session shows its last eight commands, a line each and in order.
pub proof fn law_last_commands_are_shown(s: Session, last: Seq<char>)
    ensures
        s.commands.len() == 0 ==> last_commands(Session { commands: s.commands.push(last), ..s })
            == last,
        0 < s.commands.len() < 8 ==> last_commands(Session { commands: s.commands.push(last), ..s })
            == last_commands(s) + "\n"@ + last,
        s.commands.len() >= 8 ==> last_commands(Session { commands: s.commands.push(last), ..s })
            == joined(s.commands.skip(s.commands.len() - 7), "\n"@) + "\n"@ + last,
{
    let more = s.commands.push(last);
    assert(more.drop_last() =~= s.commands);
    if s.commands.len() == 0 {
        assert(more[0] == last);
    }
    if s.commands.len() >= 8 {
        let kept = more.skip(more.len() - 8);
        assert(kept.drop_last() =~= s.commands.skip(s.commands.len() - 7));
        assert(kept.last() == last);
    }
}

/// The summary of a session shows its last four messages, each behind its speaker and on one
/// line.
pub proof fn law_last_messages_are_shown(s: Session, last: Turn)
    ensures
        ({
            let line = (match last.role {
                Role::System => "System"@,
                Role::User => "User"@,
                Role::Assistant => "Assistant"@,
            }) + ": "@ + excerpt(last.content);
            &&& message_line(last) == line
            &&& s.messages.len() == 0 ==> last_messages(
                Session { messages: s.messages.push(last), ..s },
            ) == line
            &&& 0 < s.messages.len() < 4 ==> last_messages(
                Session { messages: s.messages.push(last), ..s },
            ) == last_messages(s) + "\n"@ + line
        }),
{
    let more = s.messages.push(last);
    let told = |m: Turn| message_line(m);
    let all = more.map_values(told);
    assert(all.drop_last() =~= s.messages.map_values(told));
    assert(more.map_values(|m: Turn| message_line(m)) =~= all);
    assert(s.messages.map_values(|m: Turn| message_line(m)) =~= s.messages.map_values(told));
    if s.messages.len() == 0 {
        assert(all =~= seq![message_line(last)]);
    }
}

/// Each command more goes behind the history, on a line with its number.
pub proof fn law_histories_are_numbered(s: Session, last: Seq<char>)
    ensures
        s.commands.len() == 0 ==> history_lines(Session { commands: s.commands.push(last), ..s })
            == "session history:\n"@ + ("1: "@ + last),
        s.commands.len() > 0 ==> history_lines(Session { commands: s.commands.push(last), ..s })
            == history_lines(s) + "\n"@ + (decimal(s.commands.len() + 1) + ": "@ + last),
{
    let more = s.commands.push(last);
    assert(numbered(more).drop_last() =~= numbered(s.commands));
    if s.commands.len() == 0 {
        reveal_strlit("1: ");
        reveal_strlit(": ");
        assert(decimal(1) =~= seq!['1']);
        assert(numbered(more)[0] =~= "1: "@ + last);
    } else {
        assert(history_lines(Session { commands: more, ..s }) =~= history_lines(s) + "\n"@ + (
        decimal(s.commands.len() + 1) + ": "@ + last));
    }
}

/// The id of a session is its role, its time and its process.
pub proof fn law_session_ids_tell_role_time_and_process(now: u64, pid: u32, root: Seq<char>)
    ensures
        session_id(AgentRole::Master, now, pid) == "master"@ + "-"@ + decimal(now as nat) + "-"@
            + decimal(pid as nat),
        session_id(AgentRole::Worker, now, pid) == "worker"@ + "-"@ + decimal(now as nat) + "-"@
            + decimal(pid as nat),
        root.len() > 0 && root.last() != '/' ==> sessions_path(root) == root + "/"@ + "sessions"@,
{
    reveal_strlit("sessions");
}

/// A text of one line is told whole where it is no longer than a hundred and twenty characters
/// and by its beginning where it is; its first input names the session in the same way.
pub proof fn law_short_lines_are_told_whole(line: Seq<char>)
    requires
        line.len() > 0,
        forall|i: int| 0 <= i < line.len() ==> #[trigger] line[i] != '\n',
    ensures
        trimmed(line).len() <= 120 ==> excerpt(line) == trimmed(line),
        trimmed(line).len() > 120 ==> excerpt(line) == trimmed(line).take(120),
        0 < trimmed(line).len() <= 120 ==> title_from(line) == trimmed(line),
        trimmed(line).len() == 0 ==> title_from(line) == "interactive session"@,
{
    reveal_strlit("\n");
    crate::text::lemma_find(line, "\n"@);
    if let Some(i) = crate::text::find(line, "\n"@) {
        assert(line.subrange(i, i + 1)[0] == line[i]);
    }
    assert(lines(line) =~= seq![line]);
}

/// The lines of a text are told behind one another on one line.
pub proof fn law_lines_are_told_on_one(a: Seq<char>, b: Seq<char>)
    requires
        a.len() > 0,
        b.len() > 0,
        forall|i: int| 0 <= i < a.len() ==> #[trigger] a[i] != '\n' && a[i] != '\r',
        forall|i: int| 0 <= i < b.len() ==> #[trigger] b[i] != '\n',
        trimmed(a + " "@ + b).len() <= 120,
    ensures
        excerpt(a + "\n"@ + b) == trimmed(a + " "@ + b),
{
    reveal_strlit("\n");
    let task = a + "\n"@ + b;
    let n = a.len() as int;
    assert(task.subrange(n, n + 1) =~= "\n"@);
    assert forall|j: int| 0 <= j < n implies !#[trigger] occurs_at(task, "\n"@, j) by {
        assert(task.subrange(j, j + 1)[0] == a[j]);
    }
    crate::text::lemma_find_is(task, "\n"@, n);
    assert(task.take(n) =~= a);
    assert(task.skip(n + 1) =~= b);
    crate::text::lemma_find(b, "\n"@);
    if let Some(i) = crate::text::find(b, "\n"@) {
        assert(b.subrange(i, i + 1)[0] == b[i]);
    }
    assert(lines(b) =~= seq![b]);
    assert(lines(task) =~= seq![a, b]);
    assert(seq![a, b].drop_last() =~= seq![a]);
    assert(joined(seq![a], " "@) == a);
    assert(joined(seq![a, b], " "@) == a + " "@ + b);
}

/// What was typed stays with a snapshot, up to the number that is kept.
pub proof fn law_snapshots_keep_the_commands(s: Session, messages: Seq<Turn>, now: u64)
    requires
        s.commands.len() > 300,
    ensures
        snapped(s, messages, now).commands == s.commands.skip(s.commands.len() - 300),
{
}

/// Sessions lie in a directory of their own.
pub proof fn law_sessions_have_their_directory(root: Seq<char>)
    ensures
        sessions_path(root) == joined_path(root, "sessions"@),
{
}

}
