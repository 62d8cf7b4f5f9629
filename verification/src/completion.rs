//! Completion: which words, paths and skills complete what is typed.
use crate::paths::{
    file_name, file_name_of, join_path, joined_path, parent, parent_of, stem, stem_of,
};
use crate::sorting::{in_order, sort_texts};
use crate::text::{
    after, before, begins, byte_count, byte_len, char_count, chars_of, ends, finishes, has_text,
    holds_text, lemma_rfind, lemma_trim_end, rfind, rfind_before, same, split_words, starts, texts,
    trim_end, trim_end_of, words, CharClass,
};
use crate::tools::text_or;
use vstd::prelude::*;
use vstd::string::*;

verus! {

broadcast use {vstd::seq::group_seq_axioms, vstd::string::group_string_axioms};

/// What completes the input.
#[derive(Debug)]
pub struct AgentCompleter {
    pub workspace: String,
    pub shell_mode: bool,
}

/// A place in the file system that is searched for a name that begins as typed.
#[derive(Debug)]
pub struct PathQuery {
    /// The directory as it is typed.
    pub dir: String,
    /// The directory to read.
    pub read_dir: String,
    /// What a name begins with.
    pub prefix: String,
}

/// What completes an input. `start` is the byte at which what is typed gives way.
#[derive(Debug)]
pub enum Completion {
    /// Some words.
    Words { start: usize, candidates: Vec<String> },
    /// The names in a directory.
    Paths { start: usize, query: PathQuery },
    /// The names of the skills.
    Skills { start: usize, dir: String, prefix: String },
}

/// What completes an input as a mathematical object.
pub ghost enum Completed {
    Words { start: nat, candidates: Seq<Seq<char>> },
    Paths { start: nat, dir: Seq<char>, read_dir: Seq<char>, prefix: Seq<char> },
    Skills { start: nat, dir: Seq<char>, prefix: Seq<char> },
}

impl View for Completion {
    type V = Completed;

    open spec fn view(&self) -> Completed {
        match self {
            Completion::Words { start, candidates } => Completed::Words {
                start: *start as nat,
                candidates: texts(candidates@),
            },
            Completion::Paths { start, query } => Completed::Paths {
                start: *start as nat,
                dir: query.dir@,
                read_dir: query.read_dir@,
                prefix: query.prefix@,
            },
            Completion::Skills { start, dir, prefix } => Completed::Skills {
                start: *start as nat,
                dir: dir@,
                prefix: prefix@,
            },
        }
    }
}

// ---------------------------------------------------------------------------
// Words
// ---------------------------------------------------------------------------

/// The commands.
pub open spec fn command_words() -> Seq<Seq<char>> {
    seq![
        "/agents"@,
        "/chat"@,
        "/clear"@,
        "/config"@,
        "/exit"@,
        "/exit-shell"@,
        "/help"@,
        "/hide-thinking"@,
        "/history"@,
        "/interrupt"@,
        "/list"@,
        "/memory"@,
        "/models"@,
        "/permissions"@,
        "/provider"@,
        "/read"@,
        "/attach"@,
        "/search"@,
        "/session"@,
        "/shell"@,
        "/show-thinking"@,
        "/skills"@,
        "/stop"@,
        "/terminal"@,
        "/thinking"@,
        "/use-model"@,
        "/worktree"@,
        "/write"@,
    ]
}

/// The words that a command takes, if it takes words.
pub open spec fn argument_words(command: Seq<char>) -> Option<Seq<Seq<char>>> {
    if command == "/attach"@ {
        Some(seq!["show"@, "clear"@, "file"@, "image"@])
    } else if command == "/config"@ {
        Some(seq!["show"@, "reload"@])
    } else if command == "/memory"@ {
        Some(seq!["show"@, "add"@, "clear"@, "reload"@])
    } else if command == "/skills"@ {
        Some(seq!["show"@, "list"@, "reload"@, "enable"@, "disable"@])
    } else if command == "/session"@ {
        Some(seq!["show"@, "list"@, "history"@, "save"@, "new"@, "resume"@])
    } else if command == "/worktree"@ {
        Some(seq!["status"@, "list"@, "auto"@, "add"@, "switch"@, "remove"@, "prune"@])
    } else if command == "/agents"@ {
        Some(seq!["list"@, "spawn"@, "read"@])
    } else if command == "/permissions"@ {
        Some(seq!["ask"@, "allow"@, "deny"@, "shell"@, "write"@])
    } else if command == "/thinking"@ {
        Some(seq!["auto"@, "on"@, "off"@, "low"@, "medium"@, "high"@, "show"@, "hide"@])
    } else if command == "/stop"@ {
        Some(seq!["add"@, "set"@, "clear"@])
    } else {
        None
    }
}

fn commands() -> (r: Vec<&'static str>)
    ensures
        names(r@) == command_words(),
{
    let r = vec![
        "/agents", "/chat", "/clear", "/config", "/exit", "/exit-shell", "/help", "/hide-thinking",
        "/history", "/interrupt", "/list", "/memory", "/models", "/permissions", "/provider", "/read",
        "/attach", "/search", "/session", "/shell", "/show-thinking", "/skills", "/stop", "/terminal",
        "/thinking", "/use-model", "/worktree", "/write",
    ];
    assert(names(r@) =~= command_words());
    r
}

/// The texts of a list of literals.
pub open spec fn names(list: Seq<&'static str>) -> Seq<Seq<char>> {
    Seq::new(list.len(), |i: int| list[i]@)
}

fn arguments(command: &str) -> (r: Option<Vec<&'static str>>)
    ensures
        match r {
            Some(list) => argument_words(command@) == Some(names(list@)),
            None => argument_words(command@) is None,
        },
{
    let r = if same(command, "/attach") {
        Some(vec!["show", "clear", "file", "image"])
    } else if same(command, "/config") {
        Some(vec!["show", "reload"])
    } else if same(command, "/memory") {
        Some(vec!["show", "add", "clear", "reload"])
    } else if same(command, "/skills") {
        Some(vec!["show", "list", "reload", "enable", "disable"])
    } else if same(command, "/session") {
        Some(vec!["show", "list", "history", "save", "new", "resume"])
    } else if same(command, "/worktree") {
        Some(vec!["status", "list", "auto", "add", "switch", "remove", "prune"])
    } else if same(command, "/agents") {
        Some(vec!["list", "spawn", "read"])
    } else if same(command, "/permissions") {
        Some(vec!["ask", "allow", "deny", "shell", "write"])
    } else if same(command, "/thinking") {
        Some(vec!["auto", "on", "off", "low", "medium", "high", "show", "hide"])
    } else if same(command, "/stop") {
        Some(vec!["add", "set", "clear"])
    } else {
        None
    };
    assert(r is Some ==> names(r->0@) =~= argument_words(command@)->0);
    r
}

/// The place of the last word: behind the last white space.
pub open spec fn word_start(line: Seq<char>) -> nat {
    trim_end(line, CharClass::Ink).len()
}

/// The last word of a line.
pub open spec fn last_word(line: Seq<char>) -> Seq<char> {
    line.skip(word_start(line) as int)
}

/// The byte at which the character of that place begins.
pub open spec fn byte_at(line: Seq<char>, place: int) -> nat {
    byte_len(line.take(place))
}

/// The place and the text of the last word of a line.
pub fn current_word(line: &str) -> (r: (usize, String))
    ensures
        r.0 == byte_at(line@, word_start(line@) as int),
        r.1@ == last_word(line@),
{
    proof {
        lemma_trim_end(line@, CharClass::Ink);
    }
    let head = trim_end_of(line, CharClass::Ink);
    let n: usize = char_count(&head);
    (byte_count(&head), after(line, n))
}

/// The words of a list that begin as typed.
pub open spec fn beginning_with(list: Seq<Seq<char>>, typed: Seq<char>) -> Seq<Seq<char>>
    decreases list.len(),
{
    if list.len() == 0 {
        seq![]
    } else if begins(list.last(), typed) {
        beginning_with(list.drop_last(), typed).push(list.last())
    } else {
        beginning_with(list.drop_last(), typed)
    }
}

/// The words that complete the last word of a line.
pub open spec fn completed_words(line: Seq<char>, list: Seq<Seq<char>>) -> Completed {
    Completed::Words {
        start: byte_at(line, word_start(line) as int),
        candidates: beginning_with(list, last_word(line)),
    }
}

/// The words that complete the last word of a line.
fn complete_words(line: &str, list: &Vec<&'static str>) -> (r: Completion)
    ensures
        r@ == completed_words(line@, names(list@)),
{
    let (start, typed) = current_word(line);
    let mut candidates: Vec<String> = Vec::new();
    let mut i: usize = 0;
    let ghost all = names(list@);
    assert(all.take(0) =~= seq![]);
    assert(texts(candidates@) =~= seq![]);
    while i < list.len()
        invariant
            i <= list@.len(),
            all == names(list@),
            texts(candidates@) == beginning_with(all.take(i as int), typed@),
        decreases list@.len() - i,
    {
        let ghost had = texts(candidates@);
        let word = list[i];
        assert(all.take(i + 1).drop_last() =~= all.take(i as int));
        assert(all.take(i + 1).last() == word@);
        if starts(word, &typed) {
            candidates.push(word.to_owned());
            assert(texts(candidates@) =~= had.push(word@));
        }
        i += 1;
    }
    assert(all.take(all.len() as int) =~= all);
    Completion::Words { start, candidates }
}

fn no_words(start: usize) -> (r: Completion)
    ensures
        r@ == (Completed::Words { start: start as nat, candidates: seq![] }),
{
    let candidates: Vec<String> = Vec::new();
    assert(texts(candidates@) =~= seq![]);
    Completion::Words { start, candidates }
}

// ---------------------------------------------------------------------------
// Paths and skills
// ---------------------------------------------------------------------------

/// Where the names that complete a path stand; nothing for a path that is absolute or
/// leads upwards.
pub open spec fn path_search(typed: Seq<char>) -> Option<(Seq<char>, Seq<char>)> {
    if begins(typed, "/"@) || holds_text(typed, ".."@) {
        None
    } else if ends(typed, "/"@) {
        Some((typed, ""@))
    } else {
        Some((text_or(parent(typed), ""@), text_or(file_name(typed), ""@)))
    }
}

/// What completes a path that is typed from a given byte on.
pub open spec fn completed_path(workspace: Seq<char>, start: nat, typed: Seq<char>) -> Completed {
    match path_search(typed) {
        None => Completed::Words { start, candidates: seq![] },
        Some((dir, prefix)) => Completed::Paths {
            start,
            dir,
            read_dir: joined_path(workspace, dir),
            prefix,
        },
    }
}

fn complete_path(workspace: &str, start: usize, typed: &str) -> (r: Completion)
    ensures
        r@ == completed_path(workspace@, start as nat, typed@),
{
    if starts(typed, "/") || has_text(typed, "..") {
        return no_words(start);
    }
    let (dir, prefix) = if finishes(typed, "/") {
        (typed.to_owned(), "".to_owned())
    } else {
        let dir = match parent_of(typed) {
            Some(dir) => dir,
            None => "".to_owned(),
        };
        let prefix = match file_name_of(typed) {
            Some(name) => name,
            None => "".to_owned(),
        };
        (dir, prefix)
    };
    let read_dir = join_path(workspace, &dir);
    Completion::Paths { start, query: PathQuery { dir, read_dir, prefix } }
}

/// What stands for an entry of a directory: its path as typed, with a slash behind a
/// directory.
pub open spec fn path_candidate(dir: Seq<char>, name: Seq<char>, is_dir: bool) -> Seq<char> {
    if is_dir {
        joined_path(dir, name) + "/"@
    } else {
        joined_path(dir, name)
    }
}

/// What stands for the entries of a directory that begin as typed.
pub open spec fn path_candidates_of(
    dir: Seq<char>,
    prefix: Seq<char>,
    entries: Seq<(String, bool)>,
) -> Seq<Seq<char>>
    decreases entries.len(),
{
    if entries.len() == 0 {
        seq![]
    } else {
        let rest = path_candidates_of(dir, prefix, entries.drop_last());
        if begins(entries.last().0@, prefix) {
            rest.push(path_candidate(dir, entries.last().0@, entries.last().1))
        } else {
            rest
        }
    }
}

/// The candidates for a path, in order, given the names in the directory and whether each
/// is a directory.
pub fn path_pairs(query: &PathQuery, entries: &Vec<(String, bool)>) -> (r: Vec<String>)
    ensures
        in_order(texts(r@)),
        texts(r@).to_multiset() == path_candidates_of(
            query.dir@,
            query.prefix@,
            entries@,
        ).to_multiset(),
{
    let mut out: Vec<String> = Vec::new();
    let mut i: usize = 0;
    assert(entries@.take(0) =~= seq![]);
    assert(texts(out@) =~= seq![]);
    while i < entries.len()
        invariant
            i <= entries@.len(),
            texts(out@) == path_candidates_of(query.dir@, query.prefix@, entries@.take(i as int)),
        decreases entries@.len() - i,
    {
        let ghost had = texts(out@);
        assert(entries@.take(i + 1).drop_last() =~= entries@.take(i as int));
        assert(entries@.take(i + 1).last() == entries@[i as int]);
        if starts(&entries[i].0, &query.prefix) {
            let mut candidate = join_path(&query.dir, &entries[i].0);
            if entries[i].1 {
                candidate.append("/");
            }
            let ghost c = candidate@;
            out.push(candidate);
            assert(texts(out@) =~= had.push(c));
        }
        i += 1;
    }
    assert(entries@.take(entries@.len() as int) =~= entries@);
    sort_texts(out)
}

/// The names of the skills that begin as typed: the file names without their endings.
pub open spec fn skill_names(prefix: Seq<char>, files: Seq<Seq<char>>) -> Seq<Seq<char>>
    decreases files.len(),
{
    if files.len() == 0 {
        seq![]
    } else {
        let rest = skill_names(prefix, files.drop_last());
        if begins(stem(files.last()), prefix) {
            rest.push(stem(files.last()))
        } else {
            rest
        }
    }
}

/// The candidates for a skill, in order, given the names of the files in its directory.
pub fn skill_pairs(prefix: &str, files: &Vec<String>) -> (r: Vec<String>)
    ensures
        in_order(texts(r@)),
        texts(r@).to_multiset() == skill_names(prefix@, texts(files@)).to_multiset(),
{
    let mut out: Vec<String> = Vec::new();
    let mut i: usize = 0;
    let ghost all = texts(files@);
    assert(all.take(0) =~= seq![]);
    assert(texts(out@) =~= seq![]);
    while i < files.len()
        invariant
            i <= files@.len(),
            all == texts(files@),
            texts(out@) == skill_names(prefix@, all.take(i as int)),
        decreases files@.len() - i,
    {
        let ghost had = texts(out@);
        assert(all.take(i + 1).drop_last() =~= all.take(i as int));
        assert(all.take(i + 1).last() == files@[i as int]@);
        let name = stem_of(&files[i]);
        if starts(&name, prefix) {
            let ghost n = name@;
            out.push(name);
            assert(texts(out@) =~= had.push(n));
        }
        i += 1;
    }
    assert(all.take(all.len() as int) =~= all);
    sort_texts(out)
}

// ---------------------------------------------------------------------------
// Commands
// ---------------------------------------------------------------------------

/// The place behind the last blank of a line, and its end where it has none.
pub open spec fn argument_start(line: Seq<char>) -> int {
    match rfind(line, " "@) {
        Some(i) => i + 1,
        None => line.len() as int,
    }
}

fn argument_of(line: &str) -> (r: (usize, String))
    ensures
        r.0 == byte_at(line@, argument_start(line@)),
        r.1@ == line@.skip(argument_start(line@)),
{
    let chars = chars_of(line);
    let n: usize = chars.len();
    assert(chars@.take(n as int) =~= line@);
    proof {
        lemma_rfind(line@, " "@);
        reveal_strlit(" ");
    }
    let place: usize = match rfind_before(&chars, " ", n) {
        Some(i) => i + 1,
        None => n,
    };
    (byte_count(&before(line, place)), after(line, place))
}

/// Whether a command has a path for its argument.
pub open spec fn takes_path(parts: Seq<Seq<char>>) -> bool {
    ||| parts[0] == "/read"@
    ||| parts[0] == "/write"@
    ||| parts[0] == "/list"@
    ||| parts[0] == "/attach"@ && parts.len() > 1 && (parts[1] == "file"@ || parts[1] == "image"@)
}

/// Whether a command has a skill for its argument.
pub open spec fn takes_skill(parts: Seq<Seq<char>>) -> bool {
    parts[0] == "/skills"@ && parts.len() >= 3 && (parts[1] == "enable"@ || parts[1] == "disable"@)
}

/// What completes a command or its argument.
pub open spec fn completed_command(workspace: Seq<char>, line: Seq<char>) -> Completed {
    let parts = words(line);
    if parts.len() == 0 || (parts.len() == 1 && !ends(line, " "@)) {
        completed_words(line, command_words())
    } else {
        let start = byte_at(line, argument_start(line));
        let typed = line.skip(argument_start(line));
        if takes_path(parts) {
            completed_path(workspace, start, typed)
        } else if takes_skill(parts) {
            Completed::Skills { start, dir: joined_path(workspace, "skills"@), prefix: typed }
        } else {
            match argument_words(parts[0]) {
                Some(list) => completed_words(line, list),
                None => Completed::Words { start: byte_len(line), candidates: seq![] },
            }
        }
    }
}

/// What completes a command or its argument.
fn complete_command_or_arg(workspace: &str, line: &str) -> (r: Completion)
    ensures
        r@ == completed_command(workspace@, line@),
{
    let parts = split_words(line);
    assert(texts(parts@).len() == parts@.len());
    assert(forall|i: int| 0 <= i < parts@.len() ==> texts(parts@)[i] == #[trigger] parts@[i]@);
    if parts.len() == 0 || (parts.len() == 1 && !finishes(line, " ")) {
        return complete_words(line, &commands());
    }
    let command = &parts[0];
    let path = same(command, "/read") || same(command, "/write") || same(command, "/list") || (same(
        command,
        "/attach",
    ) && parts.len() > 1 && (same(&parts[1], "file") || same(&parts[1], "image")));
    if path {
        let (start, typed) = argument_of(line);
        return complete_path(workspace, start, &typed);
    }
    let skill = same(command, "/skills") && parts.len() >= 3 && (same(&parts[1], "enable") || same(
        &parts[1],
        "disable",
    ));
    if skill {
        let (start, typed) = argument_of(line);
        return Completion::Skills {
            start,
            dir: join_path(workspace, "skills"),
            prefix: typed,
        };
    }
    match arguments(command) {
        Some(list) => complete_words(line, &list),
        None => no_words(byte_count(line)),
    }
}

/// What completes the input before the cursor.
pub open spec fn completed(workspace: Seq<char>, shell_mode: bool, line: Seq<char>) -> Completed {
    if begins(line, "/"@) {
        completed_command(workspace, line)
    } else if shell_mode {
        completed_path(workspace, byte_at(line, word_start(line) as int), last_word(line))
    } else {
        Completed::Words { start: byte_len(line), candidates: seq![] }
    }
}

impl AgentCompleter {
    /// A completer for a workspace.
    pub fn new(workspace: String) -> (r: AgentCompleter)
        ensures
            r == (AgentCompleter { workspace, shell_mode: false }),
    {
        AgentCompleter { workspace, shell_mode: false }
    }

    /// Changes whether the input is a shell command.
    pub fn set_shell_mode(&mut self, shell_mode: bool)
        ensures
            *final(self) == (AgentCompleter { shell_mode, ..*old(self) }),
    {
        self.shell_mode = shell_mode;
    }

    /// What completes `line`, the input before the cursor.
    pub fn complete(&self, line: &str) -> (r: Completion)
        ensures
            r@ == completed(self.workspace@, self.shell_mode, line@),
    {
        if starts(line, "/") {
            complete_command_or_arg(&self.workspace, line)
        } else if self.shell_mode {
            let (start, typed) = current_word(line);
            complete_path(&self.workspace, start, &typed)
        } else {
            no_words(byte_count(line))
        }
    }
}

/// What stands before the input.
pub open spec fn prompt(shell_mode: bool) -> Seq<char> {
    if shell_mode {
        "\x1b[1m\x1b[35mshell>\x1b[0m "@
    } else {
        "\x1b[1m\x1b[32muser>\x1b[0m "@
    }
}

/// What stands before the input.
pub fn prompt_text(shell_mode: bool) -> (r: &'static str)
    ensures
        r@ == prompt(shell_mode),
{
    if shell_mode {
        "\x1b[1m\x1b[35mshell>\x1b[0m "
    } else {
        "\x1b[1m\x1b[32muser>\x1b[0m "
    }
}

// ---------------------------------------------------------------------------
// Laws
// ---------------------------------------------------------------------------

/// Each word that is offered begins with what is typed, is one of the list, and none that
/// does is left out.
pub proof fn law_offered_words_fit(list: Seq<Seq<char>>, typed: Seq<char>)
    ensures
        forall|w: Seq<char>|
            #[trigger] beginning_with(list, typed).contains(w) <==> list.contains(w) && begins(
                w,
                typed,
            ),
    decreases list.len(),
{
    if list.len() > 0 {
        let rest = list.drop_last();
        law_offered_words_fit(rest, typed);
        assert(list =~= rest.push(list.last()));
        assert forall|w: Seq<char>|
            #[trigger] beginning_with(list, typed).contains(w) <==> list.contains(w) && begins(
                w,
                typed,
            ) by {
            let had = beginning_with(rest, typed);
            assert(list.contains(w) <==> rest.contains(w) || w == list.last()) by {
                if list.contains(w) {
                    let i = choose|i: int| 0 <= i < list.len() && list[i] == w;
                    if i < rest.len() {
                        assert(rest[i] == w);
                    }
                }
                if rest.contains(w) {
                    let i = choose|i: int| 0 <= i < rest.len() && rest[i] == w;
                    assert(list[i] == w);
                }
                assert(list[list.len() - 1] == list.last());
            }
            assert(had.push(list.last()).contains(w) <==> had.contains(w) || w == list.last()) by {
                let more = had.push(list.last());
                if more.contains(w) {
                    let i = choose|i: int| 0 <= i < more.len() && more[i] == w;
                    if i < had.len() {
                        assert(had[i] == w);
                    }
                }
                if had.contains(w) {
                    let i = choose|i: int| 0 <= i < had.len() && had[i] == w;
                    assert(more[i] == w);
                }
                assert(more[had.len() as int] == list.last());
            }
            assert(had.contains(w) <==> rest.contains(w) && begins(w, typed));
        }
    }
}

/// A word that is taken over leaves what is typed before it, and goes on from what is
/// typed of it.
pub proof fn law_taken_word_continues_the_line(line: Seq<char>, list: Seq<Seq<char>>, w: Seq<char>)
    requires
        beginning_with(list, last_word(line)).contains(w),
    ensures
        begins(line.take(word_start(line) as int) + w, line),
{
    law_offered_words_fit(list, last_word(line));
    lemma_trim_end(line, CharClass::Ink);
    let k = word_start(line) as int;
    let typed = last_word(line);
    assert(w.subrange(0, typed.len() as int) == typed);
    assert((line.take(k) + w).subrange(0, line.len() as int) =~= line) by {
        assert forall|i: int| 0 <= i < line.len() implies (line.take(k) + w)[i] == line[i] by {
            if i >= k {
                assert(w.subrange(0, typed.len() as int)[i - k] == typed[i - k]);
            }
        }
    }
}

/// Without a slash in front nothing but a shell command is completed.
pub proof fn law_chat_is_not_completed(workspace: Seq<char>, line: Seq<char>)
    requires
        !begins(line, "/"@),
    ensures
        completed(workspace, false, line) == (Completed::Words {
            start: byte_len(line),
            candidates: seq![],
        }),
{
}

/// No path is offered for what is absolute or leads upwards.
pub proof fn law_paths_stay_below(workspace: Seq<char>, start: nat, typed: Seq<char>)
    requires
        begins(typed, "/"@) || holds_text(typed, ".."@),
    ensures
        completed_path(workspace, start, typed) == (Completed::Words { start, candidates: seq![] }),
{
}

/// Each word that fits is offered in its turn, and no other is.
pub proof fn law_words_are_offered_in_order(list: Seq<Seq<char>>, word: Seq<char>, typed: Seq<char>)
    ensures
        beginning_with(seq![], typed).len() == 0,
        begins(word, typed) ==> beginning_with(list.push(word), typed) == beginning_with(
            list,
            typed,
        ).push(word),
        !begins(word, typed) ==> beginning_with(list.push(word), typed) == beginning_with(
            list,
            typed,
        ),
{
    assert(list.push(word).drop_last() =~= list);
}

/// The word that is completed is the one at the end of the line, behind the last blank.
pub proof fn law_the_last_word_is_completed(head: Seq<char>, word: Seq<char>)
    requires
        head.len() > 0 ==> crate::text::is_white(head.last()),
        forall|i: int| 0 <= i < word.len() ==> !crate::text::is_white(#[trigger] word[i]),
    ensures
        last_word(head + word) == word,
        word_start(head + word) == head.len(),
        byte_at(head + word, word_start(head + word) as int) == byte_len(head),
{
    let line = head + word;
    let n = head.len() as int;
    assert forall|i: int| n <= i < line.len() implies CharClass::Ink.has(#[trigger] line[i]) by {
        assert(line[i] == word[i - n]);
    }
    crate::text::lemma_trim_end_is(line, CharClass::Ink, n);
    assert(line.take(n) =~= head);
    assert(line.skip(n) =~= word);
}

proof fn lemma_one_word(line: Seq<char>)
    requires
        line.len() > 0,
        forall|i: int| 0 <= i < line.len() ==> !crate::text::is_white(#[trigger] line[i]),
    ensures
        words(line) == seq![line],
{
    crate::text::lemma_run_len_is(line, CharClass::White, 0);
    assert(line.skip(0) =~= line);
    assert forall|i: int| 0 <= i < line.len() implies CharClass::Ink.has(#[trigger] line[i]) by {}
    crate::text::lemma_run_len_is(line, CharClass::Ink, line.len() as int);
    assert(line.take(line.len() as int) =~= line);
    let rest = line.skip(line.len() as int);
    crate::text::lemma_run_len(rest, CharClass::White);
    crate::text::lemma_run_len(
        rest.skip(crate::text::run_len(rest, CharClass::White) as int),
        CharClass::Ink,
    );
    assert(words(rest) =~= seq![]);
    assert(words(line) =~= seq![line]);
}

/// A word that begins with a slash is completed to the commands that begin with it, from the
/// start of the line.
pub proof fn law_commands_are_completed(workspace: Seq<char>, shell_mode: bool, line: Seq<char>)
    requires
        line.len() > 0,
        line[0] == '/',
        forall|i: int| 0 <= i < line.len() ==> !crate::text::is_white(#[trigger] line[i]),
    ensures
        completed(workspace, shell_mode, line) matches Completed::Words { start, candidates }
            && start == byte_len(seq![]) && candidates == beginning_with(command_words(), line),
{
    reveal_strlit("/");
    reveal_strlit(" ");
    assert(line.subrange(0, 1) =~= "/"@);
    lemma_one_word(line);
    if ends(line, " "@) {
        assert(line.subrange(line.len() - 1, line.len() as int)[0] == line.last());
        assert(!crate::text::is_white(line[line.len() - 1]));
    }
    let none: Seq<char> = seq![];
    assert(none + line =~= line);
    law_the_last_word_is_completed(none, line);
}

/// A command of the interface is offered for each beginning of it that is typed.
pub proof fn law_every_command_is_offered(typed: Seq<char>)
    ensures
        command_words().len() == 28,
        begins("/agents"@, typed) ==> beginning_with(command_words(), typed).contains("/agents"@),
        begins("/chat"@, typed) ==> beginning_with(command_words(), typed).contains("/chat"@),
        begins("/clear"@, typed) ==> beginning_with(command_words(), typed).contains("/clear"@),
        begins("/config"@, typed) ==> beginning_with(command_words(), typed).contains("/config"@),
        begins("/exit"@, typed) ==> beginning_with(command_words(), typed).contains("/exit"@),
        begins("/exit-shell"@, typed) ==> beginning_with(command_words(), typed).contains("/exit-shell"@),
        begins("/help"@, typed) ==> beginning_with(command_words(), typed).contains("/help"@),
        begins("/hide-thinking"@, typed) ==> beginning_with(command_words(), typed).contains("/hide-thinking"@),
        begins("/history"@, typed) ==> beginning_with(command_words(), typed).contains("/history"@),
        begins("/interrupt"@, typed) ==> beginning_with(command_words(), typed).contains("/interrupt"@),
        begins("/list"@, typed) ==> beginning_with(command_words(), typed).contains("/list"@),
        begins("/memory"@, typed) ==> beginning_with(command_words(), typed).contains("/memory"@),
        begins("/models"@, typed) ==> beginning_with(command_words(), typed).contains("/models"@),
        begins("/permissions"@, typed) ==> beginning_with(command_words(), typed).contains("/permissions"@),
        begins("/provider"@, typed) ==> beginning_with(command_words(), typed).contains("/provider"@),
        begins("/read"@, typed) ==> beginning_with(command_words(), typed).contains("/read"@),
        begins("/attach"@, typed) ==> beginning_with(command_words(), typed).contains("/attach"@),
        begins("/search"@, typed) ==> beginning_with(command_words(), typed).contains("/search"@),
        begins("/session"@, typed) ==> beginning_with(command_words(), typed).contains("/session"@),
        begins("/shell"@, typed) ==> beginning_with(command_words(), typed).contains("/shell"@),
        begins("/show-thinking"@, typed) ==> beginning_with(command_words(), typed).contains("/show-thinking"@),
        begins("/skills"@, typed) ==> beginning_with(command_words(), typed).contains("/skills"@),
        begins("/stop"@, typed) ==> beginning_with(command_words(), typed).contains("/stop"@),
        begins("/terminal"@, typed) ==> beginning_with(command_words(), typed).contains("/terminal"@),
        begins("/thinking"@, typed) ==> beginning_with(command_words(), typed).contains("/thinking"@),
        begins("/use-model"@, typed) ==> beginning_with(command_words(), typed).contains("/use-model"@),
        begins("/worktree"@, typed) ==> beginning_with(command_words(), typed).contains("/worktree"@),
        begins("/write"@, typed) ==> beginning_with(command_words(), typed).contains("/write"@),
{
    let all = command_words();
    assert(all[0] == "/agents"@);
    assert(all[1] == "/chat"@);
    assert(all[2] == "/clear"@);
    assert(all[3] == "/config"@);
    assert(all[4] == "/exit"@);
    assert(all[5] == "/exit-shell"@);
    assert(all[6] == "/help"@);
    assert(all[7] == "/hide-thinking"@);
    assert(all[8] == "/history"@);
    assert(all[9] == "/interrupt"@);
    assert(all[10] == "/list"@);
    assert(all[11] == "/memory"@);
    assert(all[12] == "/models"@);
    assert(all[13] == "/permissions"@);
    assert(all[14] == "/provider"@);
    assert(all[15] == "/read"@);
    assert(all[16] == "/attach"@);
    assert(all[17] == "/search"@);
    assert(all[18] == "/session"@);
    assert(all[19] == "/shell"@);
    assert(all[20] == "/show-thinking"@);
    assert(all[21] == "/skills"@);
    assert(all[22] == "/stop"@);
    assert(all[23] == "/terminal"@);
    assert(all[24] == "/thinking"@);
    assert(all[25] == "/use-model"@);
    assert(all[26] == "/worktree"@);
    assert(all[27] == "/write"@);
    law_offered_words_fit(all, typed);
}

proof fn lemma_argument_commands_differ()
    ensures
        "/attach"@.len() == 7,
        "/config"@.len() == 7,
        "/memory"@.len() == 7,
        "/skills"@.len() == 7,
        "/session"@.len() == 8,
        "/worktree"@.len() == 9,
        "/agents"@.len() == 7,
        "/permissions"@.len() == 12,
        "/thinking"@.len() == 9,
        "/stop"@.len() == 5,
        "/read"@.len() == 5,
        "/write"@.len() == 6,
        "/list"@.len() == 5,
        "/attach"@[1] == 'a' && "/attach"@[2] == 't',
        "/config"@[1] == 'c',
        "/memory"@[1] == 'm',
        "/skills"@[1] == 's' && "/skills"@[2] == 'k',
        "/agents"@[1] == 'a' && "/agents"@[2] == 'g',
        "/session"@[1] == 's',
        "/worktree"@[1] == 'w',
        "/thinking"@[1] == 't',
        "/stop"@[1] == 's',
        "/read"@[1] == 'r',
        "/list"@[1] == 'l',
        "/write"@[1] == 'w',
{
    reveal_strlit("/attach");
    reveal_strlit("/config");
    reveal_strlit("/memory");
    reveal_strlit("/skills");
    reveal_strlit("/session");
    reveal_strlit("/worktree");
    reveal_strlit("/agents");
    reveal_strlit("/permissions");
    reveal_strlit("/thinking");
    reveal_strlit("/stop");
    reveal_strlit("/read");
    reveal_strlit("/write");
    reveal_strlit("/list");
}

/// The arguments of a command are completed to those that it knows and that begin with what is
/// typed of the last one.
pub proof fn law_arguments_are_completed(workspace: Seq<char>, line: Seq<char>)
    requires
        words(line).len() >= 2 || words(line).len() == 1 && ends(line, " "@),
        words(line).len() >= 3 ==> words(line)[1] != "enable"@ && words(line)[1] != "disable"@,
        begins(line, "/"@),
    ensures
        ({
            let command = words(line)[0];
            let typed = last_word(line);
            let start = byte_len(line.take(word_start(line) as int));
            let offered = |list: Seq<Seq<char>>|
                Completed::Words { start, candidates: beginning_with(list, typed) };
            let found = completed(workspace, false, line);
            &&& command == "/attach"@ && (words(line).len() == 1 || words(line)[1] != "file"@ && words(
                line,
            )[1] != "image"@) ==> found
                == offered(seq!["show"@, "clear"@, "file"@, "image"@])
            &&& command == "/config"@ ==> found == offered(
                seq!["show"@, "reload"@],
            )
            &&& command == "/memory"@ ==> found == offered(
                seq!["show"@, "add"@, "clear"@, "reload"@],
            )
            &&& command == "/skills"@ ==> found == offered(
                seq!["show"@, "list"@, "reload"@, "enable"@, "disable"@],
            )
            &&& command == "/session"@ ==> found == offered(
                seq!["show"@, "list"@, "history"@, "save"@, "new"@, "resume"@],
            )
            &&& command == "/worktree"@ ==> found == offered(
                seq!["status"@, "list"@, "auto"@, "add"@, "switch"@, "remove"@, "prune"@],
            )
            &&& command == "/agents"@ ==> found == offered(
                seq!["list"@, "spawn"@, "read"@],
            )
            &&& command == "/permissions"@ ==> found == offered(
                seq!["ask"@, "allow"@, "deny"@, "shell"@, "write"@],
            )
            &&& command == "/thinking"@ ==> found == offered(
                seq!["auto"@, "on"@, "off"@, "low"@, "medium"@, "high"@, "show"@, "hide"@],
            )
            &&& command == "/stop"@ ==> found == offered(
                seq!["add"@, "set"@, "clear"@],
            )
        }),
{
    lemma_argument_commands_differ();
}

/// What is typed behind the last space of a line is what is completed of an argument.
pub proof fn law_arguments_begin_behind_the_last_space(head: Seq<char>, typed: Seq<char>)
    requires
        forall|i: int| 0 <= i < typed.len() ==> #[trigger] typed[i] != ' ',
    ensures
        (head + " "@ + typed).skip(argument_start(head + " "@ + typed)) == typed,
{
    reveal_strlit(" ");
    let line = head + " "@ + typed;
    let n = head.len() as int;
    assert(line.subrange(n, n + 1) =~= " "@);
    assert forall|j: int| n < j implies !#[trigger] crate::text::occurs_at(line, " "@, j) by {
        if crate::text::occurs_at(line, " "@, j) {
            assert(line.subrange(j, j + 1)[0] == line[j]);
            assert(line[j] == typed[j - n - 1]);
        }
    }
    crate::text::lemma_rfind_is(line, " "@, n);
    assert(line.skip(n + 1) =~= typed);
}

/// A path is completed behind `/read`, `/write`, `/list`, `/attach file` and `/attach image`,
/// and a skill behind `/skills enable` and `/skills disable`.
pub proof fn law_paths_and_skills_are_completed(workspace: Seq<char>, line: Seq<char>)
    requires
        words(line).len() >= 2 || words(line).len() == 1 && ends(line, " "@),
        begins(line, "/"@),
    ensures
        ({
            let parts = words(line);
            let typed = line.skip(argument_start(line));
            let start = byte_len(line.take(argument_start(line)));
            let found = completed(workspace, false, line);
            &&& parts[0] == "/read"@ || parts[0] == "/write"@ || parts[0] == "/list"@ ==> found
                == completed_path(workspace, start, typed)
            &&& parts.len() >= 2 && parts[0] == "/attach"@ && (parts[1] == "file"@ || parts[1]
                == "image"@) ==> found == completed_path(workspace, start, typed)
            &&& parts.len() >= 3 && parts[0] == "/skills"@ && (parts[1] == "enable"@ || parts[1] == "disable"@)
                ==> found == (Completed::Skills {
                start,
                dir: joined_path(workspace, "skills"@),
                prefix: typed,
            })
        }),
{
    lemma_argument_commands_differ();
}

/// A path that ends in a slash is completed by what its directory holds, another by what holds
/// its last name and begins with it; one that leads out of the workspace not at all.
pub proof fn law_paths_are_completed_in_their_directory(
    workspace: Seq<char>,
    start: nat,
    typed: Seq<char>,
)
    requires
        !begins(typed, "/"@),
        !holds_text(typed, ".."@),
    ensures
        ends(typed, "/"@) ==> completed_path(workspace, start, typed) == (Completed::Paths {
            start,
            dir: typed,
            read_dir: joined_path(workspace, typed),
            prefix: ""@,
        }),
        !ends(typed, "/"@) && parent(typed) is Some && file_name(typed) is Some ==> completed_path(
            workspace,
            start,
            typed,
        ) == (Completed::Paths {
            start,
            dir: parent(typed)->0,
            read_dir: joined_path(workspace, parent(typed)->0),
            prefix: file_name(typed)->0,
        }),
{
}

/// In shell mode the last word is completed as a path.
pub proof fn law_shell_words_are_paths(workspace: Seq<char>, line: Seq<char>)
    requires
        !begins(line, "/"@),
    ensures
        completed(workspace, true, line) == completed_path(
            workspace,
            byte_len(line.take(word_start(line) as int)),
            last_word(line),
        ),
{
}

/// Each entry whose name begins with what is typed is offered, below the directory that is
/// typed and with a slash behind a directory; no other is.
pub proof fn law_entries_are_offered(
    dir: Seq<char>,
    prefix: Seq<char>,
    entries: Seq<(String, bool)>,
    entry: (String, bool),
)
    ensures
        path_candidates_of(dir, prefix, seq![]).len() == 0,
        begins(entry.0@, prefix) && entry.1 ==> path_candidates_of(dir, prefix, entries.push(entry))
            == path_candidates_of(dir, prefix, entries).push(joined_path(dir, entry.0@) + "/"@),
        begins(entry.0@, prefix) && !entry.1 ==> path_candidates_of(
            dir,
            prefix,
            entries.push(entry),
        ) == path_candidates_of(dir, prefix, entries).push(joined_path(dir, entry.0@)),
        !begins(entry.0@, prefix) ==> path_candidates_of(dir, prefix, entries.push(entry))
            == path_candidates_of(dir, prefix, entries),
{
    assert(entries.push(entry).drop_last() =~= entries);
}

/// Each skill whose name begins with what is typed is offered by its name, which is that of its
/// file without the ending; no other is.
pub proof fn law_skills_are_offered(prefix: Seq<char>, files: Seq<Seq<char>>, file: Seq<char>)
    ensures
        skill_names(prefix, seq![]).len() == 0,
        begins(stem(file), prefix) ==> skill_names(prefix, files.push(file)) == skill_names(
            prefix,
            files,
        ).push(stem(file)),
        !begins(stem(file), prefix) ==> skill_names(prefix, files.push(file)) == skill_names(
            prefix,
            files,
        ),
{
    assert(files.push(file).drop_last() =~= files);
}

/// The prompt tells shell mode from chat.
pub proof fn law_prompts_tell_the_mode(shell_mode: bool)
    ensures
        shell_mode ==> prompt(shell_mode) == "\x1b[1m\x1b[35mshell>\x1b[0m "@,
        !shell_mode ==> prompt(shell_mode) == "\x1b[1m\x1b[32muser>\x1b[0m "@,
{
}

/// A command that takes no known argument is completed to nothing.
pub proof fn law_other_arguments_are_not_completed(workspace: Seq<char>, line: Seq<char>)
    requires
        words(line).len() >= 2,
        begins(line, "/"@),
        argument_words(words(line)[0]) is None,
        words(line)[0] != "/read"@ && words(line)[0] != "/write"@ && words(line)[0] != "/list"@,
        words(line)[0] != "/attach"@ && words(line)[0] != "/skills"@,
    ensures
        completed(workspace, false, line) == (Completed::Words {
            start: byte_len(line),
            candidates: seq![],
        }),
{
}

/// Commands are completed in the same way in both modes.
pub proof fn law_modes_complete_commands_alike(workspace: Seq<char>, line: Seq<char>)
    requires
        begins(line, "/"@),
    ensures
        completed(workspace, true, line) == completed(workspace, false, line),
{
}

/// The commands are offered in this order.
pub proof fn law_commands_are_offered_in_order()
    ensures
        command_words()[0] == "/agents"@,
        command_words()[1] == "/chat"@,
        command_words()[2] == "/clear"@,
        command_words()[3] == "/config"@,
        command_words()[4] == "/exit"@,
        command_words()[5] == "/exit-shell"@,
        command_words()[6] == "/help"@,
        command_words()[7] == "/hide-thinking"@,
        command_words()[8] == "/history"@,
        command_words()[9] == "/interrupt"@,
        command_words()[10] == "/list"@,
        command_words()[11] == "/memory"@,
        command_words()[12] == "/models"@,
        command_words()[13] == "/permissions"@,
        command_words()[14] == "/provider"@,
        command_words()[15] == "/read"@,
        command_words()[16] == "/attach"@,
        command_words()[17] == "/search"@,
        command_words()[18] == "/session"@,
        command_words()[19] == "/shell"@,
        command_words()[20] == "/show-thinking"@,
        command_words()[21] == "/skills"@,
        command_words()[22] == "/stop"@,
        command_words()[23] == "/terminal"@,
        command_words()[24] == "/thinking"@,
        command_words()[25] == "/use-model"@,
        command_words()[26] == "/worktree"@,
        command_words()[27] == "/write"@,
{
}

/// Only these commands offer words for what follows them.
pub proof fn law_other_commands_offer_no_words(command: Seq<char>)
    requires
        command != "/attach"@,
        command != "/config"@,
        command != "/memory"@,
        command != "/skills"@,
        command != "/session"@,
        command != "/worktree"@,
        command != "/agents"@,
        command != "/permissions"@,
        command != "/thinking"@,
        command != "/stop"@,
    ensures
        argument_words(command) is None,
{
}

/// What names no directory is completed in the workspace, and what names no file is completed with
/// every entry.
pub proof fn law_bare_paths_are_completed(workspace: Seq<char>, start: nat, typed: Seq<char>)
    requires
        !begins(typed, "/"@),
        !holds_text(typed, ".."@),
        !ends(typed, "/"@),
    ensures
        completed_path(workspace, start, typed) matches Completed::Paths {
            start: at,
            dir,
            read_dir,
            prefix,
        } && at == start && read_dir == joined_path(workspace, dir) && (parent(typed) is None ==> dir
            == ""@) && (file_name(typed) is None ==> prefix == ""@),
{
}

}
