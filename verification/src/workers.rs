//! Workers: where their records lie, what they are called and how they are summed up.
use crate::config::{holds_settings, opt_text, overlaid, AgentRole, Config, ConfigFile};
use crate::paths::{extension_of, file_name_of, is_absolute_path, join_path, joined_path};
use crate::provider::{lossy_text, text_of_bytes};
use crate::sorting::{latest_first, newest_first, of_time, Dated};
use crate::text::{
    after, before, chars_of, decimal, find, find_in, join, joined, lemma_find, lines, number, same,
    signed_decimal, signed_number, split_lines, string_of, strip_prefix_of, texts, trim, trim_of,
    trim_white, trimmed, without_prefix, CharClass,
};
use crate::worktrees::{worktree_path, worktree_place};
use vstd::prelude::*;
use vstd::string::*;
use vstd::utf8::encode_utf8;

verus! {

broadcast use {vstd::seq::group_seq_axioms, vstd::string::group_string_axioms};

/// How far a worker has come.
#[derive(Debug, Clone, Copy, PartialEq, Eq, Structural)]
pub enum WorkerStatus {
    Starting,
    Running,
    Finished,
    Failed,
}

/// What is kept of a worker.
#[derive(Debug, Clone)]
pub struct WorkerRecord {
    pub id: String,
    pub name: String,
    pub task: String,
    pub workspace: String,
    pub branch: String,
    pub config_file: String,
    pub task_file: String,
    pub log_file: String,
    pub pid: Option<u32>,
    pub status: WorkerStatus,
    pub created_at: u64,
    pub updated_at: u64,
    pub exit_status: Option<i32>,
}

impl Dated for WorkerRecord {
    open spec fn stamp(&self) -> u64 {
        self.updated_at
    }

    fn updated(&self) -> (r: u64) {
        self.updated_at
    }
}

// ---------------------------------------------------------------------------
// Where records lie
// ---------------------------------------------------------------------------

/// The directory that a workspace shares with the other worktrees of its repository,
/// given what `git rev-parse --git-common-dir` printed, or nothing where it failed.
pub open spec fn shared_root(workspace: Seq<char>, printed: Option<Seq<char>>) -> Seq<char> {
    let dir = match printed {
        Some(text) => if trimmed(text).len() == 0 {
            ".autofix"@
        } else {
            trimmed(text)
        },
        None => ".autofix"@,
    };
    joined_path(joined_path(workspace, dir), "autofix"@)
}

/// The shared directory of a workspace, given the text that git printed.
pub fn registry_root(workspace: &str, printed: Option<&str>) -> (r: String)
    ensures
        r@ == shared_root(
            workspace@,
            match printed {
                Some(text) => Some(text@),
                None => None,
            },
        ),
{
    let dir = match printed {
        Some(text) => {
            let dir = trim_white(text);
            if dir.as_str().unicode_len() == 0 {
                ".autofix".to_owned()
            } else {
                dir
            }
        },
        None => ".autofix".to_owned(),
    };
    join_path(&join_path(workspace, &dir), "autofix")
}

/// The shared directory of a workspace, given what `git rev-parse --git-common-dir`
/// printed, or nothing where it failed.
pub fn registry_root_for_workspace(workspace: &str, printed: Option<&[u8]>) -> (r: String)
    ensures
        r@ == shared_root(
            workspace@,
            match printed {
                Some(bytes) => Some(lossy_text(bytes@)),
                None => None,
            },
        ),
        forall|s: Seq<char>|
            printed is Some && #[trigger] encode_utf8(s) == printed->0@ ==> r@ == shared_root(
                workspace@,
                Some(s),
            ),
{
    match printed {
        Some(bytes) => {
            let text = text_of_bytes(bytes);
            registry_root(workspace, Some(text.as_str()))
        },
        None => registry_root(workspace, None),
    }
}

/// The directory of the workers' records.
pub open spec fn workers_path(root: Seq<char>) -> Seq<char> {
    joined_path(root, "workers"@)
}

/// The directory of the workers' records, in the shared directory `root`.
pub fn workers_dir(root: &str) -> (r: String)
    ensures
        r@ == workers_path(root@),
{
    join_path(root, "workers")
}

fn file_in(dir: &str, id: &str, ending: &str) -> (r: String)
    ensures
        r@ == joined_path(dir@, id@ + ending@),
{
    let mut name = id.to_owned();
    name.append(ending);
    join_path(dir, &name)
}

/// The file of a worker's record.
pub fn worker_record_path(root: &str, id: &str) -> (r: String)
    ensures
        r@ == joined_path(workers_path(root@), id@ + ".json"@),
{
    file_in(&workers_dir(root), id, ".json")
}

/// The file that a worker logs to.
pub fn worker_log_path(root: &str, id: &str) -> (r: String)
    ensures
        r@ == joined_path(workers_path(root@), id@ + ".log"@),
{
    file_in(&workers_dir(root), id, ".log")
}

/// The file of a worker's task.
pub fn worker_task_path(root: &str, id: &str) -> (r: String)
    ensures
        r@ == joined_path(workers_path(root@), id@ + ".task.md"@),
{
    file_in(&workers_dir(root), id, ".task.md")
}

/// Whether a file holds a record.
pub open spec fn holds_record(path: Seq<char>) -> bool {
    match crate::paths::file_name(path) {
        Some(name) => crate::paths::extension(name) == Some("json"@),
        None => false,
    }
}

/// Whether a file holds a record: its name ends in `.json`.
pub fn is_record_file(path: &str) -> (r: bool)
    ensures
        r == holds_record(path@),
{
    match file_name_of(path) {
        Some(name) => match extension_of(&name) {
            Some(ext) => same(&ext, "json"),
            None => false,
        },
        None => false,
    }
}

/// The records of the workers as they are listed: the latest first.
pub fn list_worker_records(found: Vec<WorkerRecord>) -> (r: Vec<WorkerRecord>)
    ensures
        latest_first(r@),
        forall|k: u64| #[trigger] of_time(r@, k) == of_time(found@, k),
        r@.to_multiset() == found@.to_multiset(),
{
    newest_first(found)
}

// ---------------------------------------------------------------------------
// Time and names
// ---------------------------------------------------------------------------

/// `SystemTime::now` as seconds since `UNIX_EPOCH`, and nothing where the clock stands
/// before it. Nothing is claimed of the result: it is what the clock says.
#[verifier::external_body]
fn clock_seconds() -> (r: Option<u64>) {
    std::time::SystemTime::now().duration_since(std::time::UNIX_EPOCH).map(|d| d.as_secs()).ok()
}

/// The time that records carry, given what the clock says.
pub fn epoch_of(clock: Option<u64>) -> (r: u64)
    ensures
        r == (match clock {
            Some(seconds) => seconds,
            None => 0,
        }),
{
    match clock {
        Some(seconds) => seconds,
        None => 0,
    }
}

/// The time that records carry, now.
pub fn now_epoch() -> (r: u64) {
    epoch_of(clock_seconds())
}

/// The characters that may stand in a name.
pub open spec fn is_plain(c: char) -> bool {
    ('a' <= c <= 'z') || ('A' <= c <= 'Z') || ('0' <= c <= '9') || c == '-'
}

/// A character, or a dash where it may not stand in a name.
pub open spec fn plain(c: char) -> char {
    if is_plain(c) {
        c
    } else {
        '-'
    }
}

/// A text as a name: a dash for each character that may not stand in one, and none at
/// either end.
pub open spec fn sanitized(s: Seq<char>) -> Seq<char> {
    trim(s.map_values(|c: char| plain(c)), CharClass::Is('-'))
}

/// A text as a name.
pub fn sanitize(value: &str) -> (r: String)
    ensures
        r@ == sanitized(value@),
{
    let chars = chars_of(value);
    let mut out: Vec<char> = Vec::new();
    let mut i: usize = 0;
    while i < chars.len()
        invariant
            i <= chars@.len(),
            out@.len() == i,
            forall|j: int| 0 <= j < i ==> #[trigger] out@[j] == plain(chars@[j]),
        decreases chars@.len() - i,
    {
        let c = chars[i];
        if ('a' <= c && c <= 'z') || ('A' <= c && c <= 'Z') || ('0' <= c && c <= '9') || c == '-' {
            out.push(c);
        } else {
            out.push('-');
        }
        i += 1;
    }
    assert(out@ =~= value@.map_values(|c: char| plain(c)));
    let n: usize = out.len();
    let text = string_of(&out, 0, n);
    assert(text@ =~= out@);
    trim_of(&text, CharClass::Is('-'))
}

/// The id of a worker that starts at a given time.
pub open spec fn worker_id(name: Seq<char>, now: u64) -> Seq<char> {
    sanitized(name) + "-"@ + decimal(now as nat)
}

/// The id of a worker that starts at a given time.
pub fn worker_id_at(name: &str, now: u64) -> (r: String)
    ensures
        r@ == worker_id(name@, now),
{
    let mut id = sanitize(name);
    id.append("-");
    id.append(number(now).as_str());
    id
}

/// The id of a worker that starts now.
pub fn make_worker_id(name: &str) -> (r: String)
    ensures
        exists|now: u64| r@ == #[trigger] worker_id(name@, now),
{
    worker_id_at(name, now_epoch())
}

// ---------------------------------------------------------------------------
// Summaries
// ---------------------------------------------------------------------------

/// The name of a status.
pub open spec fn status_word(status: WorkerStatus) -> Seq<char> {
    match status {
        WorkerStatus::Starting => "Starting"@,
        WorkerStatus::Running => "Running"@,
        WorkerStatus::Finished => "Finished"@,
        WorkerStatus::Failed => "Failed"@,
    }
}

/// The name of a status.
pub fn status_name(status: &WorkerStatus) -> (r: &'static str)
    ensures
        r@ == status_word(*status),
{
    match status {
        WorkerStatus::Starting => "Starting",
        WorkerStatus::Running => "Running",
        WorkerStatus::Finished => "Finished",
        WorkerStatus::Failed => "Failed",
    }
}

/// A worker in one line.
pub open spec fn worker_line(record: WorkerRecord) -> Seq<char> {
    record.id@ + " "@ + record.name@ + " status="@ + status_word(record.status) + " pid="@ + (
    match record.pid {
        Some(pid) => decimal(pid as nat),
        None => "none"@,
    }) + " branch="@ + record.branch@ + " workspace="@ + record.workspace@
}

/// A worker in one line.
pub fn summarize_worker(record: &WorkerRecord) -> (r: String)
    ensures
        r@ == worker_line(*record),
{
    let pid = match record.pid {
        Some(pid) => number(pid as u64),
        None => "none".to_owned(),
    };
    let mut out = record.id.clone();
    out.append(" ");
    out.append(record.name.as_str());
    out.append(" status=");
    out.append(status_name(&record.status));
    out.append(" pid=");
    out.append(pid.as_str());
    out.append(" branch=");
    out.append(record.branch.as_str());
    out.append(" workspace=");
    out.append(record.workspace.as_str());
    out
}

/// A worker in some lines.
pub open spec fn worker_lines(record: WorkerRecord) -> Seq<char> {
    "worker "@ + record.id@ + "\nstatus: "@ + status_word(record.status) + "\nworkspace: "@
        + record.workspace@ + "\nbranch: "@ + record.branch@ + "\nconfig: "@ + record.config_file@
        + "\nlog: "@ + record.log_file@ + "\nexit_status: "@ + (match record.exit_status {
        Some(status) => signed_decimal(status as int),
        None => "none"@,
    })
}

/// A worker in some lines.
pub fn worker_tail_summary(record: &WorkerRecord) -> (r: String)
    ensures
        r@ == worker_lines(*record),
{
    let exit_status = match record.exit_status {
        Some(status) => signed_number(status),
        None => "none".to_owned(),
    };
    let mut out = "worker ".to_owned();
    out.append(record.id.as_str());
    out.append("\nstatus: ");
    out.append(status_name(&record.status));
    out.append("\nworkspace: ");
    out.append(record.workspace.as_str());
    out.append("\nbranch: ");
    out.append(record.branch.as_str());
    out.append("\nconfig: ");
    out.append(record.config_file.as_str());
    out.append("\nlog: ");
    out.append(record.log_file.as_str());
    out.append("\nexit_status: ");
    out.append(exit_status.as_str());
    out
}

/// The first items of a list, at most `n`.
pub open spec fn first_of<T>(list: Seq<T>, n: int) -> Seq<T> {
    if list.len() <= n {
        list
    } else {
        list.take(n)
    }
}

/// The first texts of a list, at most `n`.
pub fn first_texts(list: &Vec<String>, n: usize) -> (r: Vec<String>)
    ensures
        texts(r@) == first_of(texts(list@), n as int),
{
    let mut out: Vec<String> = Vec::new();
    let mut i: usize = 0;
    while i < list.len() && i < n
        invariant
            i <= list@.len(),
            i <= n,
            out@.len() == i,
            forall|j: int| 0 <= j < i ==> #[trigger] out@[j] == list@[j],
        decreases list@.len() - i,
    {
        out.push(list[i].clone());
        i += 1;
    }
    assert(texts(out@) =~= first_of(texts(list@), n as int));
    out
}

/// The beginning of a task: its first eight lines, and dots where there are more.
pub open spec fn task_beginning(task: Seq<char>) -> Seq<char> {
    let preview = joined(first_of(lines(task), 8), "\n"@);
    if trimmed(preview).len() == 0 {
        "no task text"@
    } else if lines(task).len() > 8 {
        preview + "\n..."@
    } else {
        preview
    }
}

/// The beginning of a task.
pub fn task_excerpt(task: &str) -> (r: String)
    ensures
        r@ == task_beginning(task@),
{
    let all = split_lines(task);
    assert(texts(all@).len() == all@.len());
    let mut preview = join(&first_texts(&all, 8), "\n");
    if trim_white(&preview).as_str().unicode_len() == 0 {
        "no task text".to_owned()
    } else if all.len() > 8 {
        preview.append("\n...");
        preview
    } else {
        preview
    }
}

/// The workers, a line each.
pub open spec fn worker_list(records: Seq<WorkerRecord>) -> Seq<char> {
    if records.len() == 0 {
        "workers: none"@
    } else {
        joined(records.map_values(|r: WorkerRecord| worker_line(r)), "\n"@)
    }
}

/// The workers, a line each.
pub fn summarize_workers(records: &Vec<WorkerRecord>) -> (r: String)
    ensures
        r@ == worker_list(records@),
{
    if records.len() == 0 {
        return "workers: none".to_owned();
    }
    let mut out: Vec<String> = Vec::new();
    let mut i: usize = 0;
    while i < records.len()
        invariant
            i <= records@.len(),
            out@.len() == i,
            forall|j: int| 0 <= j < i ==> (#[trigger] out@[j])@ == worker_line(records@[j]),
        decreases records@.len() - i,
    {
        out.push(summarize_worker(&records[i]));
        i += 1;
    }
    assert(texts(out@) =~= records@.map_values(|r: WorkerRecord| worker_line(r)));
    join(&out, "\n")
}

/// A worker and the beginning of its task.
pub fn worker_report(record: &WorkerRecord) -> (r: String)
    ensures
        r@ == worker_lines(*record) + "\ntask:\n"@ + task_beginning(record.task@),
{
    let mut out = worker_tail_summary(record);
    out.append("\ntask:\n");
    out.append(task_excerpt(&record.task).as_str());
    out
}

// ---------------------------------------------------------------------------
// Starting and ending
// ---------------------------------------------------------------------------

/// Whether a record is that of a worker that is about to start, for a workspace whose
/// shared directory is `root`: it has an id, a branch and a worktree of its own.
pub open spec fn is_planned(
    record: WorkerRecord,
    root: Seq<char>,
    workspace: Seq<char>,
    name: Seq<char>,
    task: Seq<char>,
    now: u64,
) -> bool {
    let id = worker_id(name, now);
    let place = worktree_place(workspace, id);
    &&& record.id@ == id
    &&& record.name@ == name
    &&& record.task@ == task
    &&& record.workspace@ == place
    &&& record.branch@ == id
    &&& record.config_file@ == joined_path(place, "autofix_config.json"@)
    &&& record.task_file@ == joined_path(workers_path(root), id + ".task.md"@)
    &&& record.log_file@ == joined_path(workers_path(root), id + ".log"@)
    &&& record.pid is None
    &&& record.status == WorkerStatus::Starting
    &&& record.created_at == now
    &&& record.updated_at == now
    &&& record.exit_status is None
}

/// The record of a worker that is about to start.
pub fn plan_worker(root: &str, workspace: &str, name: &str, task: &str, now: u64) -> (r: WorkerRecord)
    ensures
        is_planned(r, root@, workspace@, name@, task@, now),
{
    let id = worker_id_at(name, now);
    let place = worktree_path(workspace, &id);
    WorkerRecord {
        name: name.to_owned(),
        task: task.to_owned(),
        branch: id.clone(),
        config_file: join_path(&place, "autofix_config.json"),
        task_file: worker_task_path(root, &id),
        log_file: worker_log_path(root, &id),
        workspace: place,
        id,
        pid: None,
        status: WorkerStatus::Starting,
        created_at: now,
        updated_at: now,
        exit_status: None,
    }
}

impl WorkerRecord {
    /// Notes that the worker runs.
    pub fn mark_started(&mut self, pid: Option<u32>, now: u64)
        ensures
            *final(self) == (WorkerRecord {
                pid,
                status: WorkerStatus::Running,
                updated_at: now,
                ..*old(self)
            }),
    {
        self.pid = pid;
        self.status = WorkerStatus::Running;
        self.updated_at = now;
    }

    /// Notes that the worker ended: well where it says so, with the code that it gave.
    pub fn mark_ended(&mut self, code: Option<i32>, now: u64)
        ensures
            *final(self) == (WorkerRecord {
                status: if code == Some(0i32) {
                    WorkerStatus::Finished
                } else {
                    WorkerStatus::Failed
                },
                exit_status: code,
                updated_at: now,
                ..*old(self)
            }),
    {
        let well = match code {
            Some(n) => n == 0,
            None => false,
        };
        self.status = if well {
            WorkerStatus::Finished
        } else {
            WorkerStatus::Failed
        };
        self.exit_status = code;
        self.updated_at = now;
    }

    /// The settings of the worker, for its config file: those of its master, but for its
    /// role, its task and all that names a place.
    pub fn settings(&self, master: &Config) -> (r: ConfigFile)
        ensures
            serves(r, *self, *master),
    {
        let mut file = master.snapshot_config_file();
        let ghost whole = file;
        file.role = Some(AgentRole::Worker);
        file.workspace = Some(self.workspace.clone());
        file.task_file = Some(self.task_file.clone());
        file.worker_id = Some(self.id.clone());
        file.worker_name = Some(self.name.clone());
        file.memory_file = Some("memory.json".to_owned());
        file.skills_dir = Some("skills".to_owned());
        assert(file == (ConfigFile {
            role: file.role,
            workspace: file.workspace,
            task_file: file.task_file,
            worker_id: file.worker_id,
            worker_name: file.worker_name,
            memory_file: file.memory_file,
            skills_dir: file.skills_dir,
            ..whole
        }));
        file
    }
}

/// Whether a config file holds the settings of a worker: those of its master, but for its
/// role, its task and all that names a place.
pub open spec fn serves(file: ConfigFile, record: WorkerRecord, master: Config) -> bool {
    &&& file.role == Some(AgentRole::Worker)
    &&& opt_text(file.workspace) == Some(record.workspace@)
    &&& opt_text(file.task_file) == Some(record.task_file@)
    &&& opt_text(file.worker_id) == Some(record.id@)
    &&& opt_text(file.worker_name) == Some(record.name@)
    &&& opt_text(file.memory_file) == Some("memory.json"@)
    &&& opt_text(file.skills_dir) == Some("skills"@)
    &&& exists|whole: ConfigFile|
        #[trigger] holds_settings(whole, master) && file == (ConfigFile {
            role: file.role,
            workspace: file.workspace,
            task_file: file.task_file,
            worker_id: file.worker_id,
            worker_name: file.worker_name,
            memory_file: file.memory_file,
            skills_dir: file.skills_dir,
            ..whole
        })
}

/// The files of a workspace that a worker gets a copy of, besides its config file.
pub fn copied_files() -> (r: Vec<&'static str>)
    ensures
        r@ =~= seq!["AGENT.md", "PLAN.md", "memory.json", "skills"],
{
    vec!["AGENT.md", "PLAN.md", "memory.json", "skills"]
}

// ---------------------------------------------------------------------------
// `/agents`
// ---------------------------------------------------------------------------

/// How `/agents` is used.
pub const AGENTS_USAGE: &'static str = "usage: /agents [list|spawn <name> | <task>|read <id>]";

/// What `/agents` calls for.
#[derive(Debug)]
pub enum AgentsEffect {
    /// The user is told that something is wrong.
    Error(String),
    /// The workers are listed.
    List,
    /// A worker starts.
    Spawn { name: String, task: String },
    /// The user is told of a worker.
    Read { id: String },
}

/// What `/agents` calls for as a mathematical object.
pub ghost enum AgentsWish {
    Error(Seq<char>),
    List,
    Spawn { name: Seq<char>, task: Seq<char> },
    Read { id: Seq<char> },
}

impl View for AgentsEffect {
    type V = AgentsWish;

    open spec fn view(&self) -> AgentsWish {
        match self {
            AgentsEffect::Error(t) => AgentsWish::Error(t@),
            AgentsEffect::List => AgentsWish::List,
            AgentsEffect::Spawn { name, task } => AgentsWish::Spawn { name: name@, task: task@ },
            AgentsEffect::Read { id } => AgentsWish::Read { id: id@ },
        }
    }
}

/// What `/agents spawn` calls for: a name and a task, with a bar between them.
pub open spec fn spawning(rest: Seq<char>) -> AgentsWish {
    match find(rest, "|"@) {
        Some(i) => if trimmed(rest.take(i)).len() == 0 || trimmed(rest.skip(i + 1)).len() == 0 {
            AgentsWish::Error(AGENTS_USAGE@)
        } else {
            AgentsWish::Spawn { name: trimmed(rest.take(i)), task: trimmed(rest.skip(i + 1)) }
        },
        None => AgentsWish::Error(AGENTS_USAGE@),
    }
}

/// What `/agents` calls for, given its argument.
pub open spec fn agents_wish(arg: Seq<char>) -> AgentsWish {
    if arg.len() == 0 || arg == "list"@ {
        AgentsWish::List
    } else {
        match (without_prefix(arg, "spawn "@), without_prefix(arg, "read "@)) {
            (Some(rest), _) => spawning(rest),
            (None, Some(id)) => if trimmed(id).len() == 0 {
                AgentsWish::Error(AGENTS_USAGE@)
            } else {
                AgentsWish::Read { id: trimmed(id) }
            },
            (None, None) => AgentsWish::Error(AGENTS_USAGE@),
        }
    }
}

fn spawn_command(rest: &str) -> (r: AgentsEffect)
    ensures
        r@ == spawning(rest@),
{
    match find_in(rest, "|") {
        Some(bar) => {
            proof {
                lemma_find(rest@, "|"@);
                reveal_strlit("|");
            }
            let name = trim_white(&before(rest, bar));
            let task = trim_white(&after(rest, bar + 1));
            if name.as_str().unicode_len() == 0 || task.as_str().unicode_len() == 0 {
                AgentsEffect::Error(AGENTS_USAGE.to_owned())
            } else {
                AgentsEffect::Spawn { name, task }
            }
        },
        None => AgentsEffect::Error(AGENTS_USAGE.to_owned()),
    }
}

/// `/agents`, given its argument.
pub fn agents_command(arg: &str) -> (r: AgentsEffect)
    ensures
        r@ == agents_wish(arg@),
{
    if arg.unicode_len() == 0 || same(arg, "list") {
        AgentsEffect::List
    } else {
        match (strip_prefix_of(arg, "spawn "), strip_prefix_of(arg, "read ")) {
            (Some(rest), _) => spawn_command(&rest),
            (None, Some(id)) => {
                let id = trim_white(&id);
                if id.as_str().unicode_len() == 0 {
                    AgentsEffect::Error(AGENTS_USAGE.to_owned())
                } else {
                    AgentsEffect::Read { id }
                }
            },
            (None, None) => AgentsEffect::Error(AGENTS_USAGE.to_owned()),
        }
    }
}

// ---------------------------------------------------------------------------
// Laws
// ---------------------------------------------------------------------------

/// A worker's config file makes a process a worker on its own task, in its own workspace,
/// whatever the settings were before.
pub proof fn law_workers_have_their_own_place(
    file: ConfigFile,
    record: WorkerRecord,
    master: Config,
    c: Config,
)
    requires
        serves(file, record, master),
    ensures
        overlaid(c, file).role == AgentRole::Worker,
        overlaid(c, file).workspace@ == record.workspace@,
        opt_text(overlaid(c, file).task_file) == Some(record.task_file@),
        overlaid(c, file).provider == master.provider,
{
}

/// A name holds letters, digits and dashes only, and has no dash at either end.
pub proof fn law_names_are_plain(s: Seq<char>)
    ensures
        forall|i: int| 0 <= i < sanitized(s).len() ==> is_plain(#[trigger] sanitized(s)[i]),
        sanitized(s).len() > 0 ==> sanitized(s)[0] != '-' && sanitized(s).last() != '-',
{
    let m = s.map_values(|c: char| plain(c));
    let class = CharClass::Is('-');
    crate::text::lemma_run_len(m, class);
    let t = crate::text::trim_start(m, class);
    crate::text::lemma_trim_end(t, class);
    let n = sanitized(s).len() as int;
    assert(sanitized(s) == t.take(n));
    let k = crate::text::run_len(m, class) as int;
    assert forall|i: int| 0 <= i < n implies is_plain(#[trigger] sanitized(s)[i]) by {
        assert(sanitized(s)[i] == m[k + i]);
    }
    if n > 0 {
        assert(sanitized(s)[0] == m[k]);
    }
}

/// A name stays as it is when it is made a name again.
pub proof fn law_names_stay(s: Seq<char>)
    ensures
        sanitized(sanitized(s)) == sanitized(s),
{
    law_names_are_plain(s);
    let n = sanitized(s);
    let class = CharClass::Is('-');
    assert(n.map_values(|c: char| plain(c)) =~= n);
    crate::text::lemma_run_len_is(n, class, 0);
    assert(crate::text::trim_start(n, class) =~= n);
    crate::text::lemma_trim_end_is(n, class, n.len() as int);
    assert(n.take(n.len() as int) =~= n);
}

/// The shared directory lies below the one that git names, or below one of the workspace where
/// git names none.
pub proof fn law_records_lie_where_git_says(
    workspace: Seq<char>,
    dir: Seq<char>,
    printed: Seq<char>,
    blank: Seq<char>,
)
    requires
        workspace.len() > 0,
        workspace.last() != '/',
        trimmed(printed) == dir,
        dir.len() > 0,
        dir.last() != '/',
        trimmed(blank).len() == 0,
    ensures
        is_absolute_path(dir) ==> shared_root(workspace, Some(printed)) == dir + "/"@ + "autofix"@,
        !is_absolute_path(dir) ==> shared_root(workspace, Some(printed)) == workspace + "/"@ + dir
            + "/"@ + "autofix"@,
        shared_root(workspace, None) == workspace + "/"@ + ".autofix"@ + "/"@ + "autofix"@,
        shared_root(workspace, Some(blank)) == shared_root(workspace, None),
{
    reveal_strlit(".autofix");
    reveal_strlit("autofix");
    reveal_strlit("/");
    let below = workspace + "/"@ + dir;
    assert(below.last() == dir.last());
    let own = workspace + "/"@ + ".autofix"@;
    assert(own.last() == 'x');
}

/// A file is a record where its name ends in `.json` behind a name of its own, and no other
/// is.
pub proof fn law_records_are_json_files(path: Seq<char>, name: Seq<char>)
    requires
        crate::paths::file_name(path) == Some(name),
    ensures
        holds_record(path) <==> crate::paths::extension(name) == Some("json"@),
        forall|stem: Seq<char>|
            stem.len() > 0 && name == #[trigger] (stem + ".json"@) ==> holds_record(path),
{
    assert forall|stem: Seq<char>|
        stem.len() > 0 && name == #[trigger] (stem + ".json"@) implies holds_record(path) by {
        reveal_strlit(".json");
        reveal_strlit(".");
        reveal_strlit("json");
        let n = stem.len() as int;
        assert(name.subrange(n, n + 1) =~= "."@);
        assert forall|j: int| n < j implies !#[trigger] crate::text::occurs_at(name, "."@, j) by {
            if crate::text::occurs_at(name, "."@, j) {
                assert(name.subrange(j, j + 1)[0] == name[j]);
                assert(name[j] == ".json"@[j - n]);
            }
        }
        crate::text::lemma_rfind_is(name, "."@, n);
        assert(name.skip(n + 1) =~= "json"@);
    }
}

/// A name of letters, digits and dashes that neither begins nor ends with a dash is kept as it
/// is, and any other character between two such names becomes a dash.
pub proof fn law_plain_names_are_kept(a: Seq<char>, c: char, b: Seq<char>)
    requires
        a.len() > 0,
        b.len() > 0,
        forall|i: int| 0 <= i < a.len() ==> is_plain(#[trigger] a[i]),
        forall|i: int| 0 <= i < b.len() ==> is_plain(#[trigger] b[i]),
        a[0] != '-',
        a.last() != '-',
        b[0] != '-',
        b.last() != '-',
        !is_plain(c),
    ensures
        sanitized(a) == a,
        sanitized(a.push(c) + b) == a.push('-') + b,
{
    lemma_kept_name(a);
    let s = a.push(c) + b;
    let t = a.push('-') + b;
    let made = s.map_values(|c: char| plain(c));
    assert(made =~= t);
    lemma_untrimmed(t);
}

proof fn lemma_untrimmed(t: Seq<char>)
    requires
        t.len() > 0,
        t[0] != '-',
        t.last() != '-',
    ensures
        trim(t, CharClass::Is('-')) == t,
{
    crate::text::lemma_run_len_is(t, CharClass::Is('-'), 0);
    assert(t.skip(0) =~= t);
    crate::text::lemma_trim_end_is(t, CharClass::Is('-'), t.len() as int);
    assert(t.take(t.len() as int) =~= t);
}

proof fn lemma_kept_name(a: Seq<char>)
    requires
        a.len() > 0,
        forall|i: int| 0 <= i < a.len() ==> is_plain(#[trigger] a[i]),
        a[0] != '-',
        a.last() != '-',
    ensures
        sanitized(a) == a,
{
    assert(a.map_values(|c: char| plain(c)) =~= a);
    lemma_untrimmed(a);
}

/// The characters that stay in a name are the letters, the digits and the dash.
pub proof fn law_letters_digits_and_dashes_stay(c: char)
    ensures
        ('a' <= c <= 'z') || ('A' <= c <= 'Z') || ('0' <= c <= '9') || c == '-' ==> plain(c) == c,
        !(('a' <= c <= 'z') || ('A' <= c <= 'Z') || ('0' <= c <= '9') || c == '-') ==> plain(c)
            == '-',
{
}

/// The id of a worker is its name and its time.
pub proof fn law_worker_ids_tell_name_and_time(name: Seq<char>, now: u64)
    requires
        name.len() > 0,
        forall|i: int| 0 <= i < name.len() ==> is_plain(#[trigger] name[i]),
        name[0] != '-',
        name.last() != '-',
    ensures
        worker_id(name, now) == name + "-"@ + decimal(now as nat),
{
    lemma_kept_name(name);
}

/// A worker is told by its id, its name, its status, its process, its branch and its workspace.
pub proof fn law_worker_lines_tell_the_worker(record: WorkerRecord)
    ensures
        ({
            let status = match record.status {
                WorkerStatus::Starting => "Starting"@,
                WorkerStatus::Running => "Running"@,
                WorkerStatus::Finished => "Finished"@,
                WorkerStatus::Failed => "Failed"@,
            };
            &&& record.pid is None ==> worker_line(record) == record.id@ + " "@ + record.name@
                + " status="@ + status + " pid="@ + "none"@ + " branch="@ + record.branch@
                + " workspace="@ + record.workspace@
            &&& record.pid is Some ==> worker_line(record) == record.id@ + " "@ + record.name@
                + " status="@ + status + " pid="@ + decimal(record.pid->0 as nat) + " branch="@
                + record.branch@ + " workspace="@ + record.workspace@
            &&& record.exit_status is None ==> worker_lines(record) == "worker "@ + record.id@
                + "\nstatus: "@ + status + "\nworkspace: "@ + record.workspace@ + "\nbranch: "@
                + record.branch@ + "\nconfig: "@ + record.config_file@ + "\nlog: "@
                + record.log_file@ + "\nexit_status: "@ + "none"@
            &&& record.exit_status is Some && record.exit_status->0 >= 0 ==> worker_lines(record)
                == "worker "@ + record.id@ + "\nstatus: "@ + status + "\nworkspace: "@
                + record.workspace@ + "\nbranch: "@ + record.branch@ + "\nconfig: "@
                + record.config_file@ + "\nlog: "@ + record.log_file@ + "\nexit_status: "@
                + decimal(record.exit_status->0 as nat)
            &&& record.exit_status is Some && record.exit_status->0 < 0 ==> worker_lines(record)
                == "worker "@ + record.id@ + "\nstatus: "@ + status + "\nworkspace: "@
                + record.workspace@ + "\nbranch: "@ + record.branch@ + "\nconfig: "@
                + record.config_file@ + "\nlog: "@ + record.log_file@ + "\nexit_status: "@ + (
            seq!['-'] + decimal((-record.exit_status->0) as nat))
        }),
{
}

/// Each worker is told on a line of its own, in order.
pub proof fn law_each_worker_is_listed(records: Seq<WorkerRecord>, record: WorkerRecord)
    ensures
        worker_list(seq![]) == "workers: none"@,
        worker_list(seq![record]) == worker_line(record),
        records.len() > 0 ==> worker_list(records.push(record)) == worker_list(records) + "\n"@
            + worker_line(record),
{
    let told = |r: WorkerRecord| worker_line(r);
    let all = records.push(record).map_values(told);
    assert(all.drop_last() =~= records.map_values(told));
    assert(records.push(record).map_values(|r: WorkerRecord| worker_line(r)) =~= all);
    assert(records.map_values(|r: WorkerRecord| worker_line(r)) =~= records.map_values(told));
    assert(seq![record].map_values(|r: WorkerRecord| worker_line(r)) =~= seq![worker_line(record)]);
}

/// A task of at most eight lines is told whole, a longer one by its first eight and a mark, and
/// one without text as such.
pub proof fn law_tasks_are_told_by_their_beginning(task: Seq<char>)
    ensures
        lines(task).len() <= 8 && trimmed(joined(lines(task), "\n"@)).len() > 0 ==> task_beginning(
            task,
        ) == joined(lines(task), "\n"@),
        lines(task).len() > 8 && trimmed(joined(lines(task).take(8), "\n"@)).len() > 0
            ==> task_beginning(task) == joined(lines(task).take(8), "\n"@) + "\n..."@,
        lines(task).len() <= 8 && trimmed(joined(lines(task), "\n"@)).len() == 0 ==> task_beginning(
            task,
        ) == "no task text"@,
{
}

/// Of a list the first items are kept and in order, of a short one all.
pub proof fn law_the_first_are_kept<T>(list: Seq<T>, n: int)
    requires
        0 <= n,
    ensures
        list.len() <= n ==> first_of(list, n) == list,
        list.len() > n ==> first_of(list, n) == list.take(n),
{
}

/// A worker that is planned has the name and the task that it is given, works on a branch and
/// in a worktree of its own, both named by its id, and has its files in the shared directory.
pub proof fn law_planned_workers_are_their_own(
    record: WorkerRecord,
    root: Seq<char>,
    workspace: Seq<char>,
    name: Seq<char>,
    task: Seq<char>,
    now: u64,
)
    requires
        is_planned(record, root, workspace, name, task, now),
    ensures
        record.name@ == name,
        record.task@ == task,
        record.id@ == worker_id(name, now),
        record.branch@ == record.id@,
        record.workspace@ == worktree_place(workspace, record.id@),
        record.config_file@ == joined_path(record.workspace@, "autofix_config.json"@),
        record.task_file@ == joined_path(joined_path(root, "workers"@), record.id@ + ".task.md"@),
        record.log_file@ == joined_path(joined_path(root, "workers"@), record.id@ + ".log"@),
        record.pid is None,
        record.exit_status is None,
        record.status == WorkerStatus::Starting,
        record.created_at == now,
        record.updated_at == now,
{
}

/// A worker is set up with the provider, the model, the key and every other setting of its
/// master, but with its own workspace, task, id and name.
pub proof fn law_workers_inherit_the_settings(
    file: ConfigFile,
    record: WorkerRecord,
    master: Config,
)
    requires
        serves(file, record, master),
    ensures
        file.role == Some(AgentRole::Worker),
        file.workspace is Some && file.workspace->0@ == record.workspace@,
        file.task_file is Some && file.task_file->0@ == record.task_file@,
        file.worker_id is Some && file.worker_id->0@ == record.id@,
        file.worker_name is Some && file.worker_name->0@ == record.name@,
        file.memory_file is Some && file.memory_file->0@ == "memory.json"@,
        file.skills_dir is Some && file.skills_dir->0@ == "skills"@,
        file.provider == Some(master.provider),
        file.model == master.model,
        file.base_url == master.base_url,
        file.api_key == master.api_key,
        file.system == master.system,
        file.think == Some(master.think),
        file.approval_mode == Some(master.approval_mode),
        file.max_tool_rounds == Some(master.max_tool_rounds),
        file.unlimited_tool_rounds == Some(master.unlimited_tool_rounds),
        file.hide_thinking == Some(master.hide_thinking),
        file.session_id is None,
        file.stop_sequences is Some && file.stop_sequences->0@ == master.stop_sequences@,
        file.active_skills is Some && file.active_skills->0@ == master.active_skills@,
{
}

/// `/agents` lists the workers, starts one with the name before the bar and the task behind
/// it, or tells of the one that is named; what is none of these is told its usage.
pub proof fn law_agents_commands_are_carried_out(
    name: Seq<char>,
    task: Seq<char>,
    id: Seq<char>,
    arg: Seq<char>,
)
    requires
        forall|i: int| 0 <= i < name.len() ==> #[trigger] name[i] != '|',
    ensures
        agents_wish(""@) == AgentsWish::List,
        agents_wish("list"@) == AgentsWish::List,
        trimmed(name).len() > 0 && trimmed(task).len() > 0 ==> agents_wish(
            "spawn "@ + name + "|"@ + task,
        ) == (AgentsWish::Spawn { name: trimmed(name), task: trimmed(task) }),
        trimmed(name).len() == 0 || trimmed(task).len() == 0 ==> agents_wish(
            "spawn "@ + name + "|"@ + task,
        ) == AgentsWish::Error(AGENTS_USAGE@),
        trimmed(id).len() > 0 ==> agents_wish("read "@ + id) == (AgentsWish::Read {
            id: trimmed(id),
        }),
        trimmed(id).len() == 0 ==> agents_wish("read "@ + id) == AgentsWish::Error(AGENTS_USAGE@),
        arg.len() > 0 && arg != "list"@ && !crate::text::begins(arg, "spawn "@)
            && !crate::text::begins(arg, "read "@) ==> agents_wish(arg) == AgentsWish::Error(
            AGENTS_USAGE@,
        ),
{
    reveal_strlit("");
    reveal_strlit("list");
    reveal_strlit("spawn ");
    reveal_strlit("read ");
    reveal_strlit("|");
    let rest = name + "|"@ + task;
    let all = "spawn "@ + name + "|"@ + task;
    assert(all =~= "spawn "@ + rest);
    assert(all.subrange(0, 6) =~= "spawn "@);
    assert(all.skip(6) =~= rest);
    assert(all[0] == 's' && "list"@[0] == 'l');
    let n = name.len() as int;
    assert(rest.subrange(n, n + 1) =~= "|"@);
    assert forall|j: int| 0 <= j < n implies !#[trigger] crate::text::occurs_at(rest, "|"@, j) by {
        assert(rest.subrange(j, j + 1)[0] == name[j]);
    }
    crate::text::lemma_find_is(rest, "|"@, n);
    assert(rest.take(n) =~= name);
    assert(rest.skip(n + 1) =~= task);
    let read = "read "@ + id;
    assert(read.subrange(0, 5) =~= "read "@);
    assert(read.skip(5) =~= id);
    assert(read[0] == 'r');
    if crate::text::begins(read, "spawn "@) {
        assert(read.subrange(0, 6)[0] == read[0]);
    }
}

/// A name keeps its characters in order, each as it is or as a dash, but for dashes at both
/// ends.
pub proof fn law_names_keep_their_characters(s: Seq<char>)
    ensures
        exists|k: int|
            #![trigger s.skip(k)]
            {
                &&& 0 <= k
                &&& k + sanitized(s).len() <= s.len()
                &&& forall|i: int|
                    0 <= i < sanitized(s).len() ==> #[trigger] sanitized(s)[i] == plain(s[k + i])
                &&& forall|i: int| 0 <= i < k ==> plain(#[trigger] s[i]) == '-'
                &&& forall|i: int|
                    k + sanitized(s).len() <= i < s.len() ==> plain(#[trigger] s[i]) == '-'
            },
{
    let dash = CharClass::Is('-');
    let made = s.map_values(|c: char| plain(c));
    crate::text::lemma_run_len(made, dash);
    let k = crate::text::run_len(made, dash) as int;
    let t = crate::text::trim_start(made, dash);
    crate::text::lemma_trim_end(t, dash);
    let kept = sanitized(s);
    assert forall|i: int| 0 <= i < k implies plain(#[trigger] s[i]) == '-' by {
        assert(dash.has(made[i]));
    }
    assert forall|i: int| k + kept.len() <= i < s.len() implies plain(#[trigger] s[i]) == '-' by {
        assert(dash.has(t[i - k]));
        assert(t[i - k] == made[i]);
    }
    assert forall|i: int| 0 <= i < kept.len() implies #[trigger] kept[i] == plain(s[k + i]) by {
        assert(kept[i] == t[i]);
        assert(t[i] == made[k + i]);
    }
    let witness = s.skip(k);
}

/// Wherever git says that it keeps its data, relative to the workspace or not, the records lie
/// below it.
pub proof fn law_records_lie_below_the_git_directory(workspace: Seq<char>, printed: Seq<char>)
    requires
        trimmed(printed).len() > 0,
    ensures
        shared_root(workspace, Some(printed)) == joined_path(
            joined_path(workspace, trimmed(printed)),
            "autofix"@,
        ),
        workers_path(workspace) == joined_path(workspace, "workers"@),
{
}

/// A long task that begins with blank lines only is told to have no text.
pub proof fn law_blank_beginnings_are_told(task: Seq<char>)
    requires
        lines(task).len() > 8,
        trimmed(joined(lines(task).take(8), "\n"@)).len() == 0,
    ensures
        task_beginning(task) == "no task text"@,
{
}

/// A path without a file name holds no record.
pub proof fn law_nameless_paths_hold_no_record(path: Seq<char>)
    requires
        crate::paths::file_name(path) is None,
    ensures
        !holds_record(path),
{
}

}
