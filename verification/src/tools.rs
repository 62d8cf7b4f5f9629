//! Tools: the calls a model makes, what they may reach, what is asked first and what
//! they report.
use crate::config::{opt_text, PermissionMode};
use crate::json::{as_text, at_key, json_read, key_of, parse_json, seen, text_of, Json, JsonModel};
use crate::paths::{
    components, file_name, file_name_of, is_absolute, is_absolute_path, join_path, joined_path,
    parent, parent_of, path_begins, path_starts_with, relative, relative_to, same_path,
};
use crate::provider::{lossy_text, text_of_bytes};
use crate::text::{
    after, before, byte_count, byte_len, char_count, chars_of, decimal, find, find_in, is_digit,
    join, joined, lines, same, size_number, split_lines, texts, trim_white, trimmed,
};
use vstd::prelude::*;
use vstd::string::*;
use vstd::utf8::encode_utf8;

verus! {

broadcast use {vstd::seq::group_seq_axioms, vstd::string::group_string_axioms};

/// A call that a model makes.
#[derive(Debug)]
pub enum ToolCall {
    ListFiles { path: Option<String> },
    ReadFile { path: String },
    WriteFile { path: String, content: String },
    RunShell { command: String },
    WebSearch { query: String, max_results: Option<usize> },
    SpawnWorker { name: Option<String>, task: String },
    ListWorkers,
    ReadWorker { id: String },
}

/// A call that a model makes as a mathematical object.
pub ghost enum ToolUse {
    ListFiles { path: Option<Seq<char>> },
    ReadFile { path: Seq<char> },
    WriteFile { path: Seq<char>, content: Seq<char> },
    RunShell { command: Seq<char> },
    WebSearch { query: Seq<char>, max_results: Option<usize> },
    SpawnWorker { name: Option<Seq<char>>, task: Seq<char> },
    ListWorkers,
    ReadWorker { id: Seq<char> },
}

impl View for ToolCall {
    type V = ToolUse;

    open spec fn view(&self) -> ToolUse {
        match self {
            ToolCall::ListFiles { path } => ToolUse::ListFiles { path: opt_text(*path) },
            ToolCall::ReadFile { path } => ToolUse::ReadFile { path: path@ },
            ToolCall::WriteFile { path, content } => ToolUse::WriteFile {
                path: path@,
                content: content@,
            },
            ToolCall::RunShell { command } => ToolUse::RunShell { command: command@ },
            ToolCall::WebSearch { query, max_results } => ToolUse::WebSearch {
                query: query@,
                max_results: *max_results,
            },
            ToolCall::SpawnWorker { name, task } => ToolUse::SpawnWorker {
                name: opt_text(*name),
                task: task@,
            },
            ToolCall::ListWorkers => ToolUse::ListWorkers,
            ToolCall::ReadWorker { id } => ToolUse::ReadWorker { id: id@ },
        }
    }
}

/// A text, or another where there is none.
pub open spec fn text_or(t: Option<Seq<char>>, other: Seq<char>) -> Seq<char> {
    match t {
        Some(t) => t,
        None => other,
    }
}

fn or_text(t: &Option<String>, other: &str) -> (r: String)
    ensures
        r@ == text_or(opt_text(*t), other@),
{
    match t {
        Some(t) => t.clone(),
        None => other.to_owned(),
    }
}

/// The first line of a text.
pub open spec fn first_line(s: Seq<char>) -> Seq<char> {
    if lines(s).len() > 0 {
        lines(s)[0]
    } else {
        ""@
    }
}

fn first_line_of(s: &str) -> (r: String)
    ensures
        r@ == first_line(s@),
{
    let all = split_lines(s);
    assert(texts(all@).len() == all@.len());
    if all.len() > 0 {
        assert(texts(all@)[0] == all@[0]@);
        all[0].clone()
    } else {
        "".to_owned()
    }
}

/// A call on one line.
pub open spec fn call_line(call: ToolUse) -> Seq<char> {
    match call {
        ToolUse::ListFiles { path } => "list_files path="@ + text_or(path, "."@),
        ToolUse::ReadFile { path } => "read_file path="@ + path,
        ToolUse::WriteFile { path, content } => "write_file path="@ + path + " bytes="@ + decimal(
            byte_len(content),
        ),
        ToolUse::RunShell { command } => "run_shell command="@ + command,
        ToolUse::WebSearch { query, max_results } => "web_search query="@ + query + " results="@
            + decimal(results_wanted(max_results)),
        ToolUse::SpawnWorker { name, task } => "spawn_worker name="@ + text_or(name, "worker"@)
            + " task="@ + trimmed(first_line(task)),
        ToolUse::ListWorkers => "list_workers"@,
        ToolUse::ReadWorker { id } => "read_worker id="@ + id,
    }
}

/// The number of results that a search asks for.
pub open spec fn results_wanted(max_results: Option<usize>) -> nat {
    match max_results {
        Some(n) => n as nat,
        None => 5,
    }
}

impl ToolCall {
    /// The call on one line.
    pub fn summary(&self) -> (r: String)
        ensures
            r@ == call_line(self@),
    {
        match self {
            ToolCall::ListFiles { path } => {
                let mut out = "list_files path=".to_owned();
                out.append(or_text(path, ".").as_str());
                out
            },
            ToolCall::ReadFile { path } => {
                let mut out = "read_file path=".to_owned();
                out.append(path.as_str());
                out
            },
            ToolCall::WriteFile { path, content } => {
                let mut out = "write_file path=".to_owned();
                out.append(path.as_str());
                out.append(" bytes=");
                out.append(size_number(byte_count(content)).as_str());
                out
            },
            ToolCall::RunShell { command } => {
                let mut out = "run_shell command=".to_owned();
                out.append(command.as_str());
                out
            },
            ToolCall::WebSearch { query, max_results } => {
                let n: usize = match max_results {
                    Some(n) => *n,
                    None => 5,
                };
                let mut out = "web_search query=".to_owned();
                out.append(query.as_str());
                out.append(" results=");
                out.append(size_number(n).as_str());
                out
            },
            ToolCall::SpawnWorker { name, task } => {
                let mut out = "spawn_worker name=".to_owned();
                out.append(or_text(name, "worker").as_str());
                out.append(" task=");
                out.append(trim_white(&first_line_of(task)).as_str());
                out
            },
            ToolCall::ListWorkers => "list_workers".to_owned(),
            ToolCall::ReadWorker { id } => {
                let mut out = "read_worker id=".to_owned();
                out.append(id.as_str());
                out
            },
        }
    }
}

// ---------------------------------------------------------------------------
// Reading calls
// ---------------------------------------------------------------------------

/// The number that a text of digits writes.
pub open spec fn digits_value(s: Seq<char>) -> nat
    decreases s.len(),
{
    if s.len() == 0 {
        0
    } else {
        digits_value(s.drop_last()) * 10 + (s.last() as nat - '0' as nat) as nat
    }
}

/// The size that a number writes: digits only, and no more than a size can be.
pub open spec fn size_in(s: Seq<char>) -> Option<usize> {
    if s.len() > 0 && (forall|i: int| 0 <= i < s.len() ==> is_digit(#[trigger] s[i]))
        && digits_value(s) <= usize::MAX {
        Some(digits_value(s) as usize)
    } else {
        None
    }
}

proof fn lemma_digits_grow(s: Seq<char>, n: int)
    requires
        0 <= n <= s.len(),
    ensures
        digits_value(s.take(n)) <= digits_value(s),
    decreases s.len(),
{
    if n == s.len() {
        assert(s.take(n) =~= s);
    } else {
        assert(s.drop_last().take(n) =~= s.take(n));
        lemma_digits_grow(s.drop_last(), n);
    }
}

/// The size that a number writes.
pub fn parse_size(s: &str) -> (r: Option<usize>)
    ensures
        r == size_in(s@),
{
    let chars = chars_of(s);
    if chars.len() == 0 {
        return None;
    }
    let mut value: usize = 0;
    let mut i: usize = 0;
    assert(s@.take(0) =~= seq![]);
    while i < chars.len()
        invariant
            i <= chars@.len(),
            chars@ == s@,
            value == digits_value(s@.take(i as int)),
            forall|j: int| 0 <= j < i ==> is_digit(#[trigger] s@[j]),
        decreases chars@.len() - i,
    {
        let c = chars[i];
        proof {
            assert(s@.take(i + 1).drop_last() =~= s@.take(i as int));
            assert(s@.take(i + 1).last() == c);
            lemma_digits_grow(s@, i + 1);
        }
        if !('0' <= c && c <= '9') {
            return None;
        }
        let d: usize = (c as u32 - '0' as u32) as usize;
        match value.checked_mul(10) {
            None => {
                return None;
            },
            Some(tens) => match tens.checked_add(d) {
                None => {
                    return None;
                },
                Some(next) => {
                    value = next;
                },
            },
        }
        i += 1;
    }
    assert(s@.take(s@.len() as int) =~= s@);
    Some(value)
}

/// A text that must be there.
pub open spec fn needed_text(value: JsonModel, key: Seq<char>) -> Option<Seq<char>> {
    as_text(at_key(value, key))
}

/// A text that may be left out: the value is there, or null, or wrong.
pub open spec fn optional_text(value: JsonModel, key: Seq<char>) -> Option<Option<Seq<char>>> {
    match at_key(value, key) {
        JsonModel::Null => Some(None),
        JsonModel::Text(t) => Some(Some(t)),
        _ => None,
    }
}

/// A size that may be left out: the value is there, or null, or wrong.
pub open spec fn optional_size(value: JsonModel, key: Seq<char>) -> Option<Option<usize>> {
    match at_key(value, key) {
        JsonModel::Null => Some(None),
        JsonModel::Number(n) => match size_in(n) {
            Some(size) => Some(Some(size)),
            None => None,
        },
        _ => None,
    }
}

/// The call that a value is: `tool` names it, the other members are its arguments.
pub open spec fn call_in(value: JsonModel) -> Option<ToolUse> {
    match needed_text(value, "tool"@) {
        None => None,
        Some(tool) => if tool == "list_files"@ {
            match optional_text(value, "path"@) {
                Some(path) => Some(ToolUse::ListFiles { path }),
                None => None,
            }
        } else if tool == "read_file"@ {
            match needed_text(value, "path"@) {
                Some(path) => Some(ToolUse::ReadFile { path }),
                None => None,
            }
        } else if tool == "write_file"@ {
            match (needed_text(value, "path"@), needed_text(value, "content"@)) {
                (Some(path), Some(content)) => Some(ToolUse::WriteFile { path, content }),
                _ => None,
            }
        } else if tool == "run_shell"@ {
            match needed_text(value, "command"@) {
                Some(command) => Some(ToolUse::RunShell { command }),
                None => None,
            }
        } else if tool == "web_search"@ {
            match (needed_text(value, "query"@), optional_size(value, "max_results"@)) {
                (Some(query), Some(max_results)) => Some(
                    ToolUse::WebSearch { query, max_results },
                ),
                _ => None,
            }
        } else if tool == "spawn_worker"@ {
            match (optional_text(value, "name"@), needed_text(value, "task"@)) {
                (Some(name), Some(task)) => Some(ToolUse::SpawnWorker { name, task }),
                _ => None,
            }
        } else if tool == "list_workers"@ {
            Some(ToolUse::ListWorkers)
        } else if tool == "read_worker"@ {
            match needed_text(value, "id"@) {
                Some(id) => Some(ToolUse::ReadWorker { id }),
                None => None,
            }
        } else {
            None
        },
    }
}

fn text_at(value: &Json, key: &str) -> (r: Option<String>)
    ensures
        opt_text(r) == needed_text(value@, key@),
{
    text_of(key_of(Some(value), key))
}

fn optional_text_at(value: &Json, key: &str) -> (r: Option<Option<String>>)
    ensures
        match r {
            Some(t) => optional_text(value@, key@) == Some(opt_text(t)),
            None => optional_text(value@, key@) is None,
        },
{
    match key_of(Some(value), key) {
        None => Some(None),
        Some(Json::Null) => Some(None),
        Some(Json::Text(t)) => Some(Some(t.clone())),
        Some(_) => None,
    }
}

fn optional_size_at(value: &Json, key: &str) -> (r: Option<Option<usize>>)
    ensures
        r == optional_size(value@, key@),
{
    match key_of(Some(value), key) {
        None => Some(None),
        Some(Json::Null) => Some(None),
        Some(Json::Number(n)) => match parse_size(n) {
            Some(size) => Some(Some(size)),
            None => None,
        },
        Some(_) => None,
    }
}

/// What a result stands for.
pub open spec fn use_of(call: Option<ToolCall>) -> Option<ToolUse> {
    match call {
        Some(c) => Some(c@),
        None => None,
    }
}

/// The call that a value is.
pub fn read_call(value: &Json) -> (r: Option<ToolCall>)
    ensures
        use_of(r) == call_in(value@),
        r matches Some(ToolCall::ReadFile { path }) ==> at_key(value@, "path"@) == JsonModel::Text(
            path@,
        ),
        r matches Some(ToolCall::WriteFile { path, content }) ==> at_key(value@, "path"@)
            == JsonModel::Text(path@) && at_key(value@, "content"@) == JsonModel::Text(content@),
        r matches Some(ToolCall::RunShell { command }) ==> at_key(value@, "command"@)
            == JsonModel::Text(command@),
        r matches Some(ToolCall::WebSearch { query, max_results }) ==> at_key(value@, "query"@)
            == JsonModel::Text(query@),
        r matches Some(ToolCall::SpawnWorker { name, task }) ==> at_key(value@, "task"@)
            == JsonModel::Text(task@),
        r matches Some(ToolCall::ReadWorker { id }) ==> at_key(value@, "id"@) == JsonModel::Text(
            id@,
        ),
{
    let tool = match text_at(value, "tool") {
        Some(tool) => tool,
        None => {
            return None;
        },
    };
    if same(&tool, "list_files") {
        match optional_text_at(value, "path") {
            Some(path) => Some(ToolCall::ListFiles { path }),
            None => None,
        }
    } else if same(&tool, "read_file") {
        match text_at(value, "path") {
            Some(path) => Some(ToolCall::ReadFile { path }),
            None => None,
        }
    } else if same(&tool, "write_file") {
        match (text_at(value, "path"), text_at(value, "content")) {
            (Some(path), Some(content)) => Some(ToolCall::WriteFile { path, content }),
            _ => None,
        }
    } else if same(&tool, "run_shell") {
        match text_at(value, "command") {
            Some(command) => Some(ToolCall::RunShell { command }),
            None => None,
        }
    } else if same(&tool, "web_search") {
        match (text_at(value, "query"), optional_size_at(value, "max_results")) {
            (Some(query), Some(max_results)) => Some(ToolCall::WebSearch { query, max_results }),
            _ => None,
        }
    } else if same(&tool, "spawn_worker") {
        match (optional_text_at(value, "name"), text_at(value, "task")) {
            (Some(name), Some(task)) => Some(ToolCall::SpawnWorker { name, task }),
            _ => None,
        }
    } else if same(&tool, "list_workers") {
        Some(ToolCall::ListWorkers)
    } else if same(&tool, "read_worker") {
        match text_at(value, "id") {
            Some(id) => Some(ToolCall::ReadWorker { id }),
            None => None,
        }
    } else {
        None
    }
}


/// What a list of calls stands for.
pub open spec fn uses(calls: Seq<ToolCall>) -> Seq<ToolUse> {
    Seq::new(calls.len(), |i: int| calls[i]@)
}

/// The calls that a list of values is; nothing where one of them is no call.
pub open spec fn all_calls(values: Seq<JsonModel>) -> Option<Seq<ToolUse>>
    decreases values.len(),
{
    if values.len() == 0 {
        Some(seq![])
    } else {
        match (all_calls(values.drop_last()), call_in(values.last())) {
            (Some(calls), Some(call)) => Some(calls.push(call)),
            _ => None,
        }
    }
}

/// Whether a value is a turn of the protocol: calls, or an end.
pub open spec fn is_turn(value: JsonModel) -> bool {
    match as_text(at_key(value, "type"@)) {
        Some(kind) => kind == "tool_calls"@ || is_end(kind),
        None => false,
    }
}

/// The kinds of turn that end the work on a prompt.
pub open spec fn is_end(kind: Seq<char>) -> bool {
    kind == "final"@ || kind == "blocked"@ || kind == "needs_worker"@
}

/// The calls that a value makes: those of a turn of the protocol, or the one that the
/// value itself is; nothing where they cannot be read.
pub open spec fn calls_in(value: JsonModel) -> Option<Seq<ToolUse>> {
    match as_text(at_key(value, "type"@)) {
        Some(kind) => if kind == "tool_calls"@ {
            match at_key(value, "calls"@) {
                JsonModel::Array(values) => all_calls(values),
                _ => None,
            }
        } else if is_end(kind) {
            Some(seq![])
        } else {
            one_call(value)
        },
        None => one_call(value),
    }
}

/// The call that a value is, as a list.
pub open spec fn one_call(value: JsonModel) -> Option<Seq<ToolUse>> {
    match call_in(value) {
        Some(call) => Some(seq![call]),
        None => None,
    }
}

proof fn lemma_not_all_calls(values: Seq<JsonModel>, n: int)
    requires
        0 <= n <= values.len(),
        all_calls(values.take(n)) is None,
    ensures
        all_calls(values) is None,
    decreases values.len() - n,
{
    if n < values.len() {
        assert(values.take(n + 1).drop_last() =~= values.take(n));
        lemma_not_all_calls(values, n + 1);
    } else {
        assert(values.take(n) =~= values);
    }
}

fn read_all_calls(values: &Vec<Json>) -> (r: Option<Vec<ToolCall>>)
    ensures
        match r {
            Some(calls) => all_calls(Json::Array(*values)@->Array_0) == Some(uses(calls@)),
            None => all_calls(Json::Array(*values)@->Array_0) is None,
        },
{
    let ghost all = Json::Array(*values)@->Array_0;
    let mut calls: Vec<ToolCall> = Vec::new();
    let mut i: usize = 0;
    assert(all.take(0) =~= seq![]);
    assert(uses(calls@) =~= seq![]);
    while i < values.len()
        invariant
            i <= values@.len(),
            all == Json::Array(*values)@->Array_0,
            all.len() == values@.len(),
            forall|j: int| 0 <= j < all.len() ==> #[trigger] all[j] == values@[j]@,
            all_calls(all.take(i as int)) == Some(uses(calls@)),
        decreases values@.len() - i,
    {
        let ghost had = uses(calls@);
        assert(all.take(i + 1).drop_last() =~= all.take(i as int));
        assert(all.take(i + 1).last() == all[i as int]);
        match read_call(&values[i]) {
            Some(call) => {
                let ghost u = call@;
                calls.push(call);
                assert(uses(calls@) =~= had.push(u));
            },
            None => {
                proof {
                    lemma_not_all_calls(all, i + 1);
                }
                return None;
            },
        }
        i += 1;
    }
    assert(all.take(all.len() as int) =~= all);
    Some(calls)
}

/// The calls that a value makes.
pub fn read_calls(value: &Json) -> (r: Option<Vec<ToolCall>>)
    ensures
        match r {
            Some(calls) => calls_in(value@) == Some(uses(calls@)),
            None => calls_in(value@) is None,
        },
{
    if let Some(kind) = text_at(value, "type") {
        if same(&kind, "tool_calls") {
            return match key_of(Some(value), "calls") {
                Some(Json::Array(values)) => read_all_calls(values),
                _ => None,
            };
        }
        if same(&kind, "final") || same(&kind, "blocked") || same(&kind, "needs_worker") {
            let none: Vec<ToolCall> = Vec::new();
            assert(uses(none@) =~= seq![]);
            return Some(none);
        }
    }
    match read_call(value) {
        Some(call) => {
            let ghost u = call@;
            let mut calls: Vec<ToolCall> = Vec::new();
            calls.push(call);
            assert(uses(calls@) =~= seq![u]);
            Some(calls)
        },
        None => None,
    }
}

/// Whether a value is a turn of the protocol.
pub fn is_protocol_turn(value: &Json) -> (r: bool)
    ensures
        r == is_turn(value@),
{
    match text_at(value, "type") {
        Some(kind) => same(&kind, "tool_calls") || same(&kind, "final") || same(&kind, "blocked")
            || same(&kind, "needs_worker"),
        None => false,
    }
}

/// What the first block of JSON in a reply holds.
pub open spec fn fenced(answer: Seq<char>) -> Option<Seq<char>> {
    match find(answer, "```json"@) {
        None => None,
        Some(start) => {
            let inside = answer.skip(start + "```json"@.len());
            match find(inside, "```"@) {
                None => None,
                Some(end) => Some(inside.take(end)),
            }
        },
    }
}

/// What the first block of JSON in a reply holds.
pub fn json_block(answer: &str) -> (r: Option<String>)
    ensures
        opt_text(r) == fenced(answer@),
{
    match find_in(answer, "```json") {
        None => None,
        Some(start) => {
            let skip: usize = char_count("```json");
            let inside = after(answer, start + skip);
            match find_in(&inside, "```") {
                None => None,
                Some(end) => Some(before(&inside, end)),
            }
        },
    }
}

/// A call that cannot be read: its text, and what is wrong with it.
#[derive(Debug)]
pub struct CallError {
    pub text: String,
    pub cause: String,
}

impl CallError {
    /// What the user reads of the error.
    pub fn message(&self) -> (r: String)
        ensures
            r@ == "failed to parse tool call JSON: "@ + self.text@,
    {
        let mut out = "failed to parse tool call JSON: ".to_owned();
        out.append(self.text.as_str());
        out
    }
}

/// What is wrong with a value that was read but makes no call.
pub const NOT_A_CALL: &'static str = "not a tool call";

/// Why calls cannot be read as a mathematical object: the text, and what is wrong with it.
pub ghost struct Unreadable {
    pub text: Seq<char>,
    pub cause: Seq<char>,
}

impl View for CallError {
    type V = Unreadable;

    open spec fn view(&self) -> Unreadable {
        Unreadable { text: self.text@, cause: self.cause@ }
    }
}

/// The calls that a value makes, where it must make some; `text` is what it was read from.
pub open spec fn calls_of(value: JsonModel, text: Seq<char>) -> Result<Seq<ToolUse>, Unreadable> {
    match calls_in(value) {
        Some(calls) => Ok(calls),
        None => Err(Unreadable { text, cause: NOT_A_CALL@ }),
    }
}

/// The calls that a block of JSON makes.
pub open spec fn block_calls(block: Seq<char>) -> Result<Seq<ToolUse>, Unreadable> {
    match json_read(trimmed(block)) {
        Ok(value) => calls_of(value, block),
        Err(cause) => Err(Unreadable { text: block, cause }),
    }
}

/// Whether a whole reply is a turn of the protocol.
pub open spec fn is_turn_text(answer: Seq<char>) -> bool {
    json_read(trimmed(answer)) matches Ok(value) && is_turn(value)
}

/// The calls that a reply makes: those of the reply itself where it is a turn of the
/// protocol, or else those of its first block of JSON, if it has one.
pub open spec fn calls_found(answer: Seq<char>) -> Result<Seq<ToolUse>, Unreadable> {
    if is_turn_text(answer) {
        calls_of(json_read(trimmed(answer))->Ok_0, trimmed(answer))
    } else {
        match fenced(answer) {
            Some(block) => block_calls(block),
            None => Ok(seq![]),
        }
    }
}

fn calls_or_error(value: &Json, text: String) -> (r: Result<Vec<ToolCall>, CallError>)
    ensures
        match r {
            Ok(calls) => calls_of(value@, text@) == Ok::<Seq<ToolUse>, Unreadable>(uses(calls@)),
            Err(e) => calls_of(value@, text@) == Err::<Seq<ToolUse>, Unreadable>(e@),
        },
{
    match read_calls(value) {
        Some(calls) => Ok(calls),
        None => Err(CallError { text, cause: NOT_A_CALL.to_owned() }),
    }
}

/// The calls that a reply makes.
pub fn extract_tool_calls(answer: &str) -> (r: Result<Vec<ToolCall>, CallError>)
    ensures
        match r {
            Ok(calls) => calls_found(answer@) == Ok::<Seq<ToolUse>, Unreadable>(uses(calls@)),
            Err(e) => calls_found(answer@) == Err::<Seq<ToolUse>, Unreadable>(e@),
        },
{
    let whole = trim_white(answer);
    if let Ok(value) = parse_json(&whole) {
        if is_protocol_turn(&value) {
            return calls_or_error(&value, whole);
        }
    }
    match json_block(answer) {
        Some(block) => match parse_json(&trim_white(&block)) {
            Ok(value) => calls_or_error(&value, block),
            Err(cause) => Err(CallError { text: block, cause }),
        },
        None => {
            let none: Vec<ToolCall> = Vec::new();
            assert(uses(none@) =~= seq![]);
            Ok(none)
        },
    }
}

/// How a turn ends the work on a prompt.
#[derive(Debug)]
pub enum Ending {
    /// It is done.
    Final { summary: String },
    /// It cannot go on.
    Blocked { reason: String },
    /// A worker has to go on.
    NeedsWorker { task: String },
}

/// How a turn ends the work on a prompt as a mathematical object.
pub ghost enum TurnEnd {
    Final { summary: Seq<char> },
    Blocked { reason: Seq<char> },
    NeedsWorker { task: Seq<char> },
}

impl View for Ending {
    type V = TurnEnd;

    open spec fn view(&self) -> TurnEnd {
        match self {
            Ending::Final { summary } => TurnEnd::Final { summary: summary@ },
            Ending::Blocked { reason } => TurnEnd::Blocked { reason: reason@ },
            Ending::NeedsWorker { task } => TurnEnd::NeedsWorker { task: task@ },
        }
    }
}

/// How a value ends the work on a prompt, if it does. What it leaves out is empty.
pub open spec fn end_in(value: JsonModel) -> Option<TurnEnd> {
    match as_text(at_key(value, "type"@)) {
        Some(kind) => if kind == "final"@ {
            Some(TurnEnd::Final { summary: text_or(as_text(at_key(value, "summary"@)), ""@) })
        } else if kind == "blocked"@ {
            Some(TurnEnd::Blocked { reason: text_or(as_text(at_key(value, "reason"@)), ""@) })
        } else if kind == "needs_worker"@ {
            Some(TurnEnd::NeedsWorker { task: text_or(as_text(at_key(value, "task"@)), ""@) })
        } else {
            None
        },
        None => None,
    }
}

/// How a text ends the work on a prompt, if it is a turn that does.
pub open spec fn end_read(text: Seq<char>) -> Option<TurnEnd> {
    match json_read(trimmed(text)) {
        Ok(value) => end_in(value),
        Err(_) => None,
    }
}

/// How a reply ends the work on a prompt, if it says so: itself where it is a turn of the
/// protocol, or else in its first block of JSON, if it has one.
pub open spec fn end_of(answer: Seq<char>) -> Option<TurnEnd> {
    if is_turn_text(answer) {
        end_read(answer)
    } else {
        match fenced(answer) {
            Some(block) => end_read(block),
            None => None,
        }
    }
}

/// How a value ends the work on a prompt, if it does.
pub fn ending_in(value: &Json) -> (r: Option<Ending>)
    ensures
        match r {
            Some(end) => end_in(value@) == Some(end@),
            None => end_in(value@) is None,
        },
{
    match text_at(value, "type") {
        Some(kind) => if same(&kind, "final") {
            Some(Ending::Final { summary: or_text(&text_at(value, "summary"), "") })
        } else if same(&kind, "blocked") {
            Some(Ending::Blocked { reason: or_text(&text_at(value, "reason"), "") })
        } else if same(&kind, "needs_worker") {
            Some(Ending::NeedsWorker { task: or_text(&text_at(value, "task"), "") })
        } else {
            None
        },
        None => None,
    }
}

/// How a reply ends the work on a prompt, if it says so.
pub fn ending_of(answer: &str) -> (r: Option<Ending>)
    ensures
        match r {
            Some(end) => end_of(answer@) == Some(end@),
            None => end_of(answer@) is None,
        },
{
    if let Ok(value) = parse_json(&trim_white(answer)) {
        if is_protocol_turn(&value) {
            return ending_in(&value);
        }
    }
    match json_block(answer) {
        Some(block) => match parse_json(&trim_white(&block)) {
            Ok(value) => ending_in(&value),
            Err(_) => None,
        },
        None => None,
    }
}

/// Who does what a call asks for.
#[derive(Debug)]
pub enum Duty {
    /// The tools.
    Tool(ToolCall),
    /// The agent starts a worker.
    Spawn { name: String, task: String },
    /// The agent lists its workers.
    ListWorkers,
    /// The agent tells of a worker.
    ReadWorker { id: String },
}

/// Who does what a call asks for as a mathematical object.
pub ghost enum Charge {
    Tool(ToolUse),
    Spawn { name: Seq<char>, task: Seq<char> },
    ListWorkers,
    ReadWorker { id: Seq<char> },
}

impl View for Duty {
    type V = Charge;

    open spec fn view(&self) -> Charge {
        match self {
            Duty::Tool(call) => Charge::Tool(call@),
            Duty::Spawn { name, task } => Charge::Spawn { name: name@, task: task@ },
            Duty::ListWorkers => Charge::ListWorkers,
            Duty::ReadWorker { id } => Charge::ReadWorker { id: id@ },
        }
    }
}

/// Who does what a call asks for: the agent where it is about workers, else the tools. A
/// worker without a name is called `worker`.
pub open spec fn charge_of(call: ToolUse) -> Charge {
    match call {
        ToolUse::SpawnWorker { name, task } => Charge::Spawn {
            name: text_or(name, "worker"@),
            task,
        },
        ToolUse::ListWorkers => Charge::ListWorkers,
        ToolUse::ReadWorker { id } => Charge::ReadWorker { id },
        other => Charge::Tool(other),
    }
}

/// Who does what a call asks for.
pub fn duty_of(call: ToolCall) -> (r: Duty)
    ensures
        r@ == charge_of(call@),
        call matches ToolCall::SpawnWorker { name: Some(name), task } ==> (
        r matches Duty::Spawn { name: n, task: t } && n@ == name@ && t@ == task@),
        call matches ToolCall::SpawnWorker { name: None, task } ==> (
        r matches Duty::Spawn { name: n, task: t } && n@ == "worker"@ && t@ == task@),
        call matches ToolCall::ReadWorker { id } ==> (r matches Duty::ReadWorker { id: i } && i@
            == id@),
{
    match call {
        ToolCall::SpawnWorker { name, task } => Duty::Spawn { name: or_text(&name, "worker"), task },
        ToolCall::ListWorkers => Duty::ListWorkers,
        ToolCall::ReadWorker { id } => Duty::ReadWorker { id },
        other => Duty::Tool(other),
    }
}

// ---------------------------------------------------------------------------
// The runtime
// ---------------------------------------------------------------------------

/// What tools may do, and where.
pub struct ToolRuntime {
    pub workspace: String,
    pub shell_permission: PermissionMode,
    pub write_permission: PermissionMode,
    pub full_system_access: bool,
}

/// Why a tool does nothing.
#[derive(Debug)]
pub enum ToolError {
    /// The path is absolute and the tools are confined to the workspace.
    AbsolutePath { path: String },
    /// Where the path leads cannot be found out, with what the system said.
    Inaccessible { anchor: String, cause: String },
    /// The path leads out of the workspace.
    Escapes { path: String },
    /// The tool is not one of the runtime's.
    Orchestration,
}

/// What the user reads of an error.
pub open spec fn tool_error_text(e: ToolError) -> Seq<char> {
    match e {
        ToolError::AbsolutePath { path } =>
            "absolute paths are not allowed without --full-system-access: "@ + path@,
        ToolError::Inaccessible { anchor, cause } => "path parent is not accessible: "@ + anchor@,
        ToolError::Escapes { path } => "path escapes workspace: "@ + path@,
        ToolError::Orchestration => "agent orchestration tools must be handled by the master agent"@,
    }
}

impl ToolError {
    /// What the user reads of the error.
    pub fn message(&self) -> (r: String)
        ensures
            r@ == tool_error_text(*self),
    {
        match self {
            ToolError::AbsolutePath { path } => {
                let mut out =
                    "absolute paths are not allowed without --full-system-access: ".to_owned();
                out.append(path.as_str());
                out
            },
            ToolError::Inaccessible { anchor, cause: _ } => {
                let mut out = "path parent is not accessible: ".to_owned();
                out.append(anchor.as_str());
                out
            },
            ToolError::Escapes { path } => {
                let mut out = "path escapes workspace: ".to_owned();
                out.append(path.as_str());
                out
            },
            ToolError::Orchestration => {
                "agent orchestration tools must be handled by the master agent".to_owned()
            },
        }
    }
}

/// What decides whether a relative path stays in the workspace: the directory that holds
/// the file it names, or the path itself where it ends in no name, as `.` and `..` do.
pub open spec fn anchor_path(workspace: Seq<char>, path: Seq<char>) -> Seq<char> {
    if file_name(path) is Some {
        match parent(joined_path(workspace, path)) {
            Some(dir) => dir,
            None => workspace,
        }
    } else {
        joined_path(workspace, path)
    }
}

/// Why a path is not used.
pub ghost enum Refusal {
    Absolute { path: Seq<char> },
    Inaccessible { anchor: Seq<char> },
    Escapes { path: Seq<char> },
    Other,
}

/// Why a path is not used, as an error says it.
pub open spec fn refusal_in(e: ToolError) -> Refusal {
    match e {
        ToolError::AbsolutePath { path } => Refusal::Absolute { path: path@ },
        ToolError::Inaccessible { anchor, cause } => Refusal::Inaccessible { anchor: anchor@ },
        ToolError::Escapes { path } => Refusal::Escapes { path: path@ },
        ToolError::Orchestration => Refusal::Other,
    }
}

/// Where a path truly leads, if that could be found out.
pub open spec fn true_place(place: Result<String, String>) -> Option<Seq<char>> {
    match place {
        Ok(p) => Some(p@),
        Err(_) => None,
    }
}

/// The path that a tool uses, or why it uses none. `place` is where the anchor of the
/// path truly leads.
pub open spec fn path_verdict(
    workspace: Seq<char>,
    full: bool,
    path: Seq<char>,
    place: Option<Seq<char>>,
) -> Result<Seq<char>, Refusal> {
    if is_absolute_path(path) {
        if full {
            Ok(path)
        } else {
            Err(Refusal::Absolute { path })
        }
    } else {
        match place {
            None => Err(Refusal::Inaccessible { anchor: anchor_path(workspace, path) }),
            Some(p) => if full || path_begins(p, workspace) {
                Ok(joined_path(workspace, path))
            } else {
                Err(Refusal::Escapes { path })
            },
        }
    }
}

/// What an action does.
#[derive(Debug)]
pub enum Action {
    ListFiles { path: String },
    ReadFile { path: String },
    WriteFile { path: String, content: String },
    RunShell { command: String },
    WebSearch { query: String, max_results: usize },
}

/// What an action does as a mathematical object.
pub ghost enum Deed {
    ListFiles { path: Seq<char> },
    ReadFile { path: Seq<char> },
    WriteFile { path: Seq<char>, content: Seq<char> },
    RunShell { command: Seq<char> },
    WebSearch { query: Seq<char>, max_results: nat },
}

impl View for Action {
    type V = Deed;

    open spec fn view(&self) -> Deed {
        match self {
            Action::ListFiles { path } => Deed::ListFiles { path: path@ },
            Action::ReadFile { path } => Deed::ReadFile { path: path@ },
            Action::WriteFile { path, content } => Deed::WriteFile {
                path: path@,
                content: content@,
            },
            Action::RunShell { command } => Deed::RunShell { command: command@ },
            Action::WebSearch { query, max_results } => Deed::WebSearch {
                query: query@,
                max_results: *max_results as nat,
            },
        }
    }
}

/// What a call has done; nothing where it is not the runtime's to do.
pub open spec fn deed_of(call: ToolUse) -> Option<Deed> {
    match call {
        ToolUse::ListFiles { path } => Some(Deed::ListFiles { path: text_or(path, "."@) }),
        ToolUse::ReadFile { path } => Some(Deed::ReadFile { path }),
        ToolUse::WriteFile { path, content } => Some(Deed::WriteFile { path, content }),
        ToolUse::RunShell { command } => Some(Deed::RunShell { command }),
        ToolUse::WebSearch { query, max_results } => Some(
            Deed::WebSearch { query, max_results: results_wanted(max_results) },
        ),
        ToolUse::SpawnWorker { .. } => None,
        ToolUse::ListWorkers => None,
        ToolUse::ReadWorker { .. } => None,
    }
}

/// What comes of asking for permission.
#[derive(Debug, Clone, Copy, PartialEq, Eq, Structural)]
pub enum Approval {
    Approved,
    Cancelled,
    Denied,
}

/// Whether a typed answer means yes.
pub open spec fn means_yes(answer: Seq<char>) -> bool {
    let a = trimmed(answer);
    a == "y"@ || a == "Y"@ || a == "yes"@ || a == "YES"@
}

/// Whether a typed answer means yes.
pub fn confirm(answer: &str) -> (r: bool)
    ensures
        r == means_yes(answer@),
{
    let a = trim_white(answer);
    same(&a, "y") || same(&a, "Y") || same(&a, "yes") || same(&a, "YES")
}

/// Whether a permission is asked for.
pub fn asks(permission: PermissionMode) -> (r: bool)
    ensures
        r == (permission == PermissionMode::Ask),
{
    permission == PermissionMode::Ask
}

/// What comes of a permission, given the answer where it was asked for.
pub open spec fn approval(permission: PermissionMode, answer: Seq<char>) -> Approval {
    match permission {
        PermissionMode::Allow => Approval::Approved,
        PermissionMode::Deny => Approval::Denied,
        PermissionMode::Ask => if means_yes(answer) {
            Approval::Approved
        } else {
            Approval::Cancelled
        },
    }
}

/// What comes of a permission, given the answer where it was asked for.
pub fn approve(permission: PermissionMode, answer: &str) -> (r: Approval)
    ensures
        r == approval(permission, answer@),
{
    match permission {
        PermissionMode::Allow => Approval::Approved,
        PermissionMode::Deny => Approval::Denied,
        PermissionMode::Ask => if confirm(answer) {
            Approval::Approved
        } else {
            Approval::Cancelled
        },
    }
}

/// What is reported of an action that was not approved; nothing of one that was.
pub open spec fn refusal(what: Seq<char>, a: Approval) -> Option<Seq<char>> {
    match a {
        Approval::Approved => None,
        Approval::Cancelled => Some(what + " cancelled by user"@),
        Approval::Denied => Some(what + " denied by permission mode"@),
    }
}

fn refusal_text(what: &str, a: Approval) -> (r: Option<String>)
    ensures
        opt_text(r) == refusal(what@, a),
{
    match a {
        Approval::Approved => None,
        Approval::Cancelled => {
            let mut out = what.to_owned();
            out.append(" cancelled by user");
            Some(out)
        },
        Approval::Denied => {
            let mut out = what.to_owned();
            out.append(" denied by permission mode");
            Some(out)
        },
    }
}

/// What is reported of a command that ran.
pub open spec fn run_report(status: Seq<char>, stdout: Seq<char>, stderr: Seq<char>) -> Seq<char> {
    "status: "@ + status + "\nstdout:\n"@ + stdout + "\nstderr:\n"@ + stderr
}

/// What is reported of a command that ran, given what it printed.
pub fn report_of(status: &str, stdout: &str, stderr: &str) -> (r: String)
    ensures
        r@ == run_report(status@, stdout@, stderr@),
{
    let mut out = "status: ".to_owned();
    out.append(status);
    out.append("\nstdout:\n");
    out.append(stdout);
    out.append("\nstderr:\n");
    out.append(stderr);
    out
}

/// What is reported of a command that ran, given the bytes it printed.
pub fn command_report(status: &str, stdout: &[u8], stderr: &[u8]) -> (r: String)
    ensures
        r@ == run_report(status@, lossy_text(stdout@), lossy_text(stderr@)),
        forall|a: Seq<char>, b: Seq<char>| #[trigger]
            encode_utf8(a) == stdout@ && #[trigger] encode_utf8(b) == stderr@ ==> r@ == run_report(
                status@,
                a,
                b,
            ),
{
    report_of(status, &text_of_bytes(stdout), &text_of_bytes(stderr))
}

/// What is reported of a git command: of one that failed, as an error.
pub fn git_report(success: bool, status: &str, stdout: &[u8], stderr: &[u8]) -> (r: Result<
    String,
    String,
>)
    ensures
        match r {
            Ok(text) => success && text@ == run_report(
                status@,
                lossy_text(stdout@),
                lossy_text(stderr@),
            ),
            Err(text) => !success && text@ == "git command failed: "@ + status@ + "\nstdout:\n"@
                + lossy_text(stdout@) + "\nstderr:\n"@ + lossy_text(stderr@),
        },
{
    if success {
        Ok(command_report(status, stdout, stderr))
    } else {
        let mut out = "git command failed: ".to_owned();
        out.append(status);
        out.append("\nstdout:\n");
        out.append(text_of_bytes(stdout).as_str());
        out.append("\nstderr:\n");
        out.append(text_of_bytes(stderr).as_str());
        Err(out)
    }
}

/// A git command as it is typed.
pub open spec fn git_line(args: Seq<Seq<char>>) -> Seq<char> {
    "git "@ + joined(args, " "@)
}

/// A git command as it is typed.
pub fn git_command(args: &Vec<String>) -> (r: String)
    ensures
        r@ == git_line(texts(args@)),
{
    let mut out = "git ".to_owned();
    out.append(join(args, " ").as_str());
    out
}

impl ToolRuntime {
    /// Tools for a workspace.
    pub fn new(
        workspace: String,
        shell_permission: PermissionMode,
        write_permission: PermissionMode,
        full_system_access: bool,
    ) -> (r: ToolRuntime)
        ensures
            r == (ToolRuntime { workspace, shell_permission, write_permission, full_system_access }),
    {
        ToolRuntime { workspace, shell_permission, write_permission, full_system_access }
    }

    /// How shell commands are approved.
    pub fn shell_permission(&self) -> (r: PermissionMode)
        ensures
            r == self.shell_permission,
    {
        self.shell_permission
    }

    /// How writes are approved.
    pub fn write_permission(&self) -> (r: PermissionMode)
        ensures
            r == self.write_permission,
    {
        self.write_permission
    }

    /// Whether the tools reach beyond the workspace.
    pub fn full_system_access(&self) -> (r: bool)
        ensures
            r == self.full_system_access,
    {
        self.full_system_access
    }

    /// Changes how shell commands are approved.
    pub fn set_shell_permission(&mut self, permission: PermissionMode)
        ensures
            *final(self) == (ToolRuntime { shell_permission: permission, ..*old(self) }),
    {
        self.shell_permission = permission;
    }

    /// Changes how writes are approved.
    pub fn set_write_permission(&mut self, permission: PermissionMode)
        ensures
            *final(self) == (ToolRuntime { write_permission: permission, ..*old(self) }),
    {
        self.write_permission = permission;
    }

    /// What a call has done.
    pub fn execute(&self, call: ToolCall) -> (r: Result<Action, ToolError>)
        ensures
            match r {
                Ok(action) => deed_of(call@) == Some(action@),
                Err(e) => deed_of(call@) is None && e == ToolError::Orchestration,
            },
            call matches ToolCall::ListFiles { path: Some(path) } ==> (
            r matches Ok(Action::ListFiles { path: p }) && p@ == path@),
            call matches ToolCall::ListFiles { path: None } ==> (
            r matches Ok(Action::ListFiles { path: p }) && p@ == "."@),
            call matches ToolCall::ReadFile { path } ==> (r matches Ok(Action::ReadFile { path: p })
                && p@ == path@),
            call matches ToolCall::WriteFile { path, content } ==> (
            r matches Ok(Action::WriteFile { path: p, content: c }) && p@ == path@ && c@
                == content@),
            call matches ToolCall::RunShell { command } ==> (
            r matches Ok(Action::RunShell { command: c }) && c@ == command@),
            call matches ToolCall::WebSearch { query, max_results } ==> (
            r matches Ok(Action::WebSearch { query: q, max_results: n }) && q@ == query@ && (
            max_results matches Some(wanted) ==> n == wanted) && (max_results is None ==> n == 5)),
            call matches ToolCall::SpawnWorker { .. } ==> r is Err,
            call matches ToolCall::ListWorkers ==> r is Err,
            call matches ToolCall::ReadWorker { .. } ==> r is Err,
    {
        match call {
            ToolCall::ListFiles { path } => Ok(Action::ListFiles { path: or_text(&path, ".") }),
            ToolCall::ReadFile { path } => Ok(Action::ReadFile { path }),
            ToolCall::WriteFile { path, content } => Ok(Action::WriteFile { path, content }),
            ToolCall::RunShell { command } => Ok(Action::RunShell { command }),
            ToolCall::WebSearch { query, max_results } => {
                let n: usize = match max_results {
                    Some(n) => n,
                    None => 5,
                };
                Ok(Action::WebSearch { query, max_results: n })
            },
            ToolCall::SpawnWorker { .. } => Err(ToolError::Orchestration),
            ToolCall::ListWorkers => Err(ToolError::Orchestration),
            ToolCall::ReadWorker { .. } => Err(ToolError::Orchestration),
        }
    }

    /// The path whose true place decides whether `path` may be used; nothing where that
    /// does not depend on any.
    pub fn anchor(&self, path: &str) -> (r: Option<String>)
        ensures
            opt_text(r) == (if is_absolute_path(path@) {
                None
            } else {
                Some(anchor_path(self.workspace@, path@))
            }),
    {
        if is_absolute(path) {
            return None;
        }
        let joined = join_path(&self.workspace, path);
        if file_name_of(path).is_some() {
            match parent_of(&joined) {
                Some(dir) => Some(dir),
                None => Some(self.workspace.clone()),
            }
        } else {
            Some(joined)
        }
    }

    /// The path that a tool uses for `path`, given the true path of its anchor or what the
    /// system said instead.
    pub fn resolve_path(&self, path: &str, place: Result<String, String>) -> (r: Result<
        String,
        ToolError,
    >)
        ensures
            match r {
                Ok(p) => path_verdict(
                    self.workspace@,
                    self.full_system_access,
                    path@,
                    true_place(place),
                ) == Ok::<Seq<char>, Refusal>(p@),
                Err(e) => path_verdict(
                    self.workspace@,
                    self.full_system_access,
                    path@,
                    true_place(place),
                ) == Err::<Seq<char>, Refusal>(refusal_in(e)),
            },
            r matches Err(ToolError::Inaccessible { anchor, cause }) ==> place == Err::<
                String,
                String,
            >(cause),
            !(r matches Err(ToolError::Orchestration)),
    {
        match self.anchor(path) {
            None => if self.full_system_access {
                Ok(path.to_owned())
            } else {
                Err(ToolError::AbsolutePath { path: path.to_owned() })
            },
            Some(anchor) => match place {
                Err(cause) => Err(ToolError::Inaccessible { anchor, cause }),
                Ok(place) => if !self.full_system_access && !path_starts_with(
                    &place,
                    &self.workspace,
                ) {
                    Err(ToolError::Escapes { path: path.to_owned() })
                } else {
                    Ok(join_path(&self.workspace, path))
                },
            },
        }
    }

    /// What is asked before a file is written.
    pub fn write_question(&self, path: &str) -> (r: String)
        ensures
            r@ == "write "@ + path@ + "?"@,
    {
        let mut out = "write ".to_owned();
        out.append(path);
        out.append("?");
        out
    }

    /// What is reported of a write that was not approved; nothing of one that was.
    pub fn write_refusal(&self, answer: &str) -> (r: Option<String>)
        ensures
            opt_text(r) == refusal("write"@, approval(self.write_permission, answer@)),
    {
        refusal_text("write", approve(self.write_permission, answer))
    }

    /// What is reported of a write.
    pub fn write_report(&self, path: &str) -> (r: String)
        ensures
            r@ == "wrote "@ + path@,
    {
        let mut out = "wrote ".to_owned();
        out.append(path);
        out
    }

    /// What is asked before a shell command runs.
    pub fn shell_question(&self, command: &str) -> (r: String)
        ensures
            r@ == "run shell command `"@ + command@ + "`?"@,
    {
        let mut out = "run shell command `".to_owned();
        out.append(command);
        out.append("`?");
        out
    }

    /// What is reported of a shell command that was not approved; nothing of one that was.
    pub fn shell_refusal(&self, answer: &str) -> (r: Option<String>)
        ensures
            opt_text(r) == refusal("shell command"@, approval(self.shell_permission, answer@)),
    {
        refusal_text("shell command", approve(self.shell_permission, answer))
    }

    /// What is asked before a git command runs.
    pub fn git_question(&self, args: &Vec<String>) -> (r: String)
        ensures
            r@ == "run git command `"@ + git_line(texts(args@)) + "`?"@,
    {
        let mut out = "run git command `".to_owned();
        out.append(git_command(args).as_str());
        out.append("`?");
        out
    }

    /// What is reported of a git command that was not approved; nothing of one that was.
    pub fn git_refusal(&self, answer: &str) -> (r: Option<String>)
        ensures
            opt_text(r) == refusal("git command"@, approval(self.shell_permission, answer@)),
    {
        refusal_text("git command", approve(self.shell_permission, answer))
    }
}

// ---------------------------------------------------------------------------
// Listings
// ---------------------------------------------------------------------------

/// The number of entries that a listing shows.
pub const MAX_LISTED: usize = 200;

/// A list of files as it grows.
pub struct FileListing {
    pub workspace: String,
    pub lines: Vec<String>,
}

/// The line of one entry: its path as seen from the workspace, with a slash behind a
/// directory.
pub open spec fn entry_line(workspace: Seq<char>, path: Seq<char>, is_dir: bool) -> Seq<char> {
    let shown = match relative(path, workspace) {
        Some(rest) => rest,
        None => path,
    };
    if is_dir {
        shown + "/"@
    } else {
        shown
    }
}

/// A list of lines after one more entry: the workspace itself is left out, and the list
/// ends at its limit, with a line that says so.
pub open spec fn listed_more(
    workspace: Seq<char>,
    had: Seq<Seq<char>>,
    path: Seq<char>,
    is_dir: bool,
) -> Seq<Seq<char>> {
    if had.len() > MAX_LISTED || components(path) == components(workspace) {
        had
    } else {
        let more = had.push(entry_line(workspace, path, is_dir));
        if more.len() >= MAX_LISTED {
            more.push("... truncated at 200 entries"@)
        } else {
            more
        }
    }
}

/// The lines of a list of entries.
pub open spec fn listed(workspace: Seq<char>, entries: Seq<(Seq<char>, bool)>) -> Seq<Seq<char>>
    decreases entries.len(),
{
    if entries.len() == 0 {
        seq![]
    } else {
        listed_more(
            workspace,
            listed(workspace, entries.drop_last()),
            entries.last().0,
            entries.last().1,
        )
    }
}

impl FileListing {
    /// A list without entries.
    pub fn new(workspace: &str) -> (r: FileListing)
        ensures
            r.workspace@ == workspace@,
            texts(r.lines@) == listed(workspace@, seq![]),
    {
        let r = FileListing { workspace: workspace.to_owned(), lines: Vec::new() };
        assert(texts(r.lines@) =~= seq![]);
        r
    }

    /// Adds an entry. The result says whether the list is at its end.
    pub fn add(&mut self, path: &str, is_dir: bool) -> (r: bool)
        ensures
            final(self).workspace == old(self).workspace,
            texts(final(self).lines@) == listed_more(
                old(self).workspace@,
                texts(old(self).lines@),
                path@,
                is_dir,
            ),
            r == (final(self).lines@.len() > MAX_LISTED),
    {
        let ghost had = texts(self.lines@);
        if self.lines.len() > MAX_LISTED {
            return true;
        }
        if same_path(path, &self.workspace) {
            return false;
        }
        let mut line = match relative_to(path, &self.workspace) {
            Some(rest) => rest,
            None => path.to_owned(),
        };
        if is_dir {
            line.append("/");
        }
        let ghost shown = line@;
        self.lines.push(line);
        assert(texts(self.lines@) =~= had.push(shown));
        if self.lines.len() >= MAX_LISTED {
            self.lines.push("... truncated at 200 entries".to_owned());
            assert(texts(self.lines@) =~= had.push(shown).push("... truncated at 200 entries"@));
            true
        } else {
            false
        }
    }

    /// The list as it is reported.
    pub fn text(&self) -> (r: String)
        ensures
            r@ == joined(texts(self.lines@), "\n"@),
    {
        join(&self.lines, "\n")
    }
}

impl ToolRuntime {
    /// The list of some entries as it is reported.
    pub fn list_files(&self, entries: &Vec<(String, bool)>) -> (r: String)
        ensures
            r@ == joined(
                listed(
                    self.workspace@,
                    Seq::new(entries@.len(), |i: int| (entries@[i].0@, entries@[i].1)),
                ),
                "\n"@,
            ),
    {
        let ghost all = Seq::new(entries@.len(), |i: int| (entries@[i].0@, entries@[i].1));
        let mut listing = FileListing::new(&self.workspace);
        let mut i: usize = 0;
        assert(all.take(0) =~= seq![]);
        while i < entries.len()
            invariant
                i <= entries@.len(),
                all == Seq::new(entries@.len(), |i: int| (entries@[i].0@, entries@[i].1)),
                listing.workspace@ == self.workspace@,
                texts(listing.lines@) == listed(self.workspace@, all.take(i as int)),
            decreases entries@.len() - i,
        {
            assert(all.take(i + 1).drop_last() =~= all.take(i as int));
            assert(all.take(i + 1).last() == all[i as int]);
            let _ = listing.add(&entries[i].0, entries[i].1);
            i += 1;
        }
        assert(all.take(all.len() as int) =~= all);
        listing.text()
    }
}

// ---------------------------------------------------------------------------
// Laws
// ---------------------------------------------------------------------------

/// Tools that are confined to a workspace use no absolute path, and no path whose anchor
/// truly lies outside it; what they use is seen from the workspace.
pub proof fn law_confined_tools_stay_inside(
    workspace: Seq<char>,
    path: Seq<char>,
    place: Option<Seq<char>>,
)
    ensures
        path_verdict(workspace, false, path, place) matches Ok(used) ==> !is_absolute_path(path)
            && place is Some && path_begins(place->0, workspace) && used == joined_path(
            workspace,
            path,
        ),
        is_absolute_path(path) ==> path_verdict(workspace, false, path, place) == Err::<
            Seq<char>,
            Refusal,
        >(Refusal::Absolute { path }),
{
}

/// A path that ends in no name, such as one that ends in `..`, is judged by where it leads
/// itself: where that is outside the workspace, the path is not used.
pub proof fn law_upward_paths_are_refused(workspace: Seq<char>, path: Seq<char>, place: Seq<char>)
    requires
        file_name(path) is None,
        !is_absolute_path(path),
        !path_begins(place, workspace),
    ensures
        anchor_path(workspace, path) == joined_path(workspace, path),
        path_verdict(workspace, false, path, Some(place)) == Err::<Seq<char>, Refusal>(
            Refusal::Escapes { path },
        ),
{
}

/// With full system access every path is used whose anchor can be found, absolute ones as
/// they stand.
pub proof fn law_full_access_reaches_everything(
    workspace: Seq<char>,
    path: Seq<char>,
    place: Option<Seq<char>>,
)
    requires
        is_absolute_path(path) || place is Some,
    ensures
        path_verdict(workspace, true, path, place) == Ok::<Seq<char>, Refusal>(
            joined_path(workspace, path),
        ),
{
}

/// The workspace itself may be listed, under the name that it has where no path is given.
pub proof fn law_workspace_may_be_listed(workspace: Seq<char>)
    ensures
        deed_of(ToolUse::ListFiles { path: None }) == Some(Deed::ListFiles { path: "."@ }),
        path_verdict(workspace, false, "."@, Some(workspace)) is Ok,
{
    reveal_strlit(".");
    let list = components(workspace);
    assert(list.is_prefix_of(list));
}

/// An action is asked about only where the permission says so: allowing and denying
/// never depend on an answer.
pub proof fn law_only_ask_asks(permission: PermissionMode, a: Seq<char>, b: Seq<char>)
    requires
        permission != PermissionMode::Ask,
    ensures
        approval(permission, a) == approval(permission, b),
        approval(permission, a) == Approval::Approved <==> permission == PermissionMode::Allow,
{
}

/// What is denied is never done, and what is asked about is done on a yes alone.
pub proof fn law_nothing_is_done_unapproved(permission: PermissionMode, answer: Seq<char>)
    ensures
        refusal("write"@, approval(permission, answer)) is None <==> (permission
            == PermissionMode::Allow || (permission == PermissionMode::Ask && means_yes(answer))),
{
}

/// A listing shows at most its limit of entries, and one line more that says so.
pub proof fn law_listings_are_bounded(workspace: Seq<char>, entries: Seq<(Seq<char>, bool)>)
    ensures
        listed(workspace, entries).len() <= MAX_LISTED + 1,
        listed(workspace, entries).len() != MAX_LISTED,
    decreases entries.len(),
{
    if entries.len() > 0 {
        law_listings_are_bounded(workspace, entries.drop_last());
    }
}

/// Once a listing is at its end no entry changes it.
pub proof fn law_full_listing_stays(
    workspace: Seq<char>,
    had: Seq<Seq<char>>,
    path: Seq<char>,
    is_dir: bool,
)
    requires
        had.len() > MAX_LISTED,
    ensures
        listed_more(workspace, had, path, is_dir) == had,
{
}

/// No call goes undone: what is not the agent's to do, the tools do.
pub proof fn law_every_call_is_carried_out(call: ToolUse)
    ensures
        charge_of(call) matches Charge::Tool(c) ==> c == call && deed_of(c) is Some,
        deed_of(call) is None ==> !(charge_of(call) is Tool),
{
}

/// A reply that ends the work on a prompt makes no call.
pub proof fn law_ended_work_calls_nothing(answer: Seq<char>)
    requires
        end_of(answer) is Some,
    ensures
        calls_found(answer) == Ok::<Seq<ToolUse>, Unreadable>(seq![]),
{
    reveal_strlit("final");
    reveal_strlit("blocked");
    reveal_strlit("needs_worker");
    reveal_strlit("tool_calls");
    let text = if is_turn_text(answer) {
        answer
    } else {
        fenced(answer)->0
    };
    let value = json_read(trimmed(text))->Ok_0;
    let kind = as_text(at_key(value, "type"@))->0;
    assert("tool_calls"@.len() == 10 && kind.len() != 10);
    assert(calls_in(value) == Some(Seq::<ToolUse>::empty()));
}

/// A reply without a block of JSON that is no turn of the protocol makes no call.
pub proof fn law_plain_replies_call_nothing(answer: Seq<char>)
    requires
        fenced(answer) is None,
        !is_turn_text(answer),
    ensures
        calls_found(answer) == Ok::<Seq<ToolUse>, Unreadable>(seq![]),
{
}

/// A reply that is a turn of calls makes those calls, each once and in order, whatever
/// their texts hold: no block of JSON inside one of them is looked at.
pub proof fn law_turns_are_read_whole(answer: Seq<char>, values: Seq<JsonModel>)
    requires
        json_read(trimmed(answer)) matches Ok(turn) && as_text(at_key(turn, "type"@)) == Some(
            "tool_calls"@,
        ) && at_key(turn, "calls"@) == JsonModel::Array(values),
        forall|i: int| 0 <= i < values.len() ==> call_in(#[trigger] values[i]) is Some,
    ensures
        calls_found(answer) matches Ok(calls) && calls.len() == values.len() && forall|i: int|
            0 <= i < values.len() ==> call_in(values[i]) == Some(#[trigger] calls[i]),
{
    law_calls_come_in_order(values);
}

/// The calls of a turn come out as they stand in it: one for each value, in order.
pub proof fn law_calls_come_in_order(values: Seq<JsonModel>)
    ensures
        all_calls(values) is Some <==> (forall|i: int|
            0 <= i < values.len() ==> call_in(#[trigger] values[i]) is Some),
        all_calls(values) matches Some(calls) ==> calls.len() == values.len() && forall|i: int|
            0 <= i < values.len() ==> call_in(values[i]) == Some(#[trigger] calls[i]),
    decreases values.len(),
{
    if values.len() > 0 {
        let n = values.len() - 1;
        law_calls_come_in_order(values.drop_last());
        assert(forall|i: int| 0 <= i < n ==> values.drop_last()[i] == values[i]);
        assert(values.last() == values[n]);
        if all_calls(values) is Some {
            let rest = all_calls(values.drop_last())->0;
            assert forall|i: int| 0 <= i < values.len() implies call_in(values[i]) == Some(
                #[trigger] all_calls(values)->0[i],
            ) by {
                if i < n {
                    assert(all_calls(values)->0[i] == rest[i]);
                    assert(values.drop_last()[i] == values[i]);
                }
            }
            assert forall|i: int| 0 <= i < values.len() implies call_in(#[trigger] values[i]) is Some
                by {
                assert(call_in(values[i]) == Some(all_calls(values)->0[i]));
            }
        } else if forall|i: int| 0 <= i < values.len() ==> call_in(#[trigger] values[i]) is Some {
            assert(call_in(values[n]) is Some);
            assert forall|i: int| 0 <= i < values.drop_last().len() implies call_in(
                #[trigger] values.drop_last()[i],
            ) is Some by {
                assert(call_in(values[i]) is Some);
            }
        }
    }
}

/// What is done is the tool that was called, with the arguments of the call: a call that names
/// no directory lists the workspace, a search that names no number asks for five results.
pub proof fn law_actions_keep_their_arguments(a: Seq<char>, b: Seq<char>, n: usize)
    ensures
        deed_of(ToolUse::ListFiles { path: Some(a) }) == Some(Deed::ListFiles { path: a }),
        deed_of(ToolUse::ListFiles { path: None }) == Some(Deed::ListFiles { path: "."@ }),
        deed_of(ToolUse::ReadFile { path: a }) == Some(Deed::ReadFile { path: a }),
        deed_of(ToolUse::WriteFile { path: a, content: b }) == Some(
            Deed::WriteFile { path: a, content: b },
        ),
        deed_of(ToolUse::RunShell { command: a }) == Some(Deed::RunShell { command: a }),
        deed_of(ToolUse::WebSearch { query: a, max_results: Some(n) }) == Some(
            Deed::WebSearch { query: a, max_results: n as nat },
        ),
        deed_of(ToolUse::WebSearch { query: a, max_results: None }) == Some(
            Deed::WebSearch { query: a, max_results: 5 },
        ),
        deed_of(ToolUse::SpawnWorker { name: Some(a), task: b }) is None,
        deed_of(ToolUse::SpawnWorker { name: None, task: b }) is None,
        deed_of(ToolUse::ListWorkers) is None,
        deed_of(ToolUse::ReadWorker { id: a }) is None,
{
}

/// A call about workers is the agent's to carry out, with the name, the task and the id of the
/// call; a worker without a name is called `worker`.
pub proof fn law_workers_get_the_task_of_the_call(name: Seq<char>, task: Seq<char>, id: Seq<char>)
    ensures
        charge_of(ToolUse::SpawnWorker { name: Some(name), task }) == (Charge::Spawn { name, task }),
        charge_of(ToolUse::SpawnWorker { name: None, task }) == (Charge::Spawn {
            name: "worker"@,
            task,
        }),
        charge_of(ToolUse::ListWorkers) == Charge::ListWorkers,
        charge_of(ToolUse::ReadWorker { id }) == (Charge::ReadWorker { id }),
        charge_of(ToolUse::ReadFile { path: id }) == Charge::Tool(ToolUse::ReadFile { path: id }),
        charge_of(ToolUse::RunShell { command: id }) == Charge::Tool(
            ToolUse::RunShell { command: id },
        ),
{
}

proof fn lemma_tool_names_differ()
    ensures
        "list_files"@.len() == 10 && "list_files"@[0] == 'l',
        "read_file"@.len() == 9 && "read_file"@[1] == 'e',
        "write_file"@.len() == 10 && "write_file"@[0] == 'w' && "write_file"@[1] == 'r',
        "run_shell"@.len() == 9 && "run_shell"@[1] == 'u',
        "web_search"@.len() == 10 && "web_search"@[0] == 'w' && "web_search"@[1] == 'e',
        "spawn_worker"@.len() == 12 && "spawn_worker"@[0] == 's',
        "list_workers"@.len() == 12 && "list_workers"@[0] == 'l',
        "read_worker"@.len() == 11,
        "tool_calls"@.len() == 10 && "tool_calls"@[0] == 't',
        "final"@.len() == 5,
        "blocked"@.len() == 7,
        "needs_worker"@.len() == 12 && "needs_worker"@[0] == 'n',
{
    reveal_strlit("list_files");
    reveal_strlit("read_file");
    reveal_strlit("write_file");
    reveal_strlit("run_shell");
    reveal_strlit("web_search");
    reveal_strlit("spawn_worker");
    reveal_strlit("list_workers");
    reveal_strlit("read_worker");
    reveal_strlit("tool_calls");
    reveal_strlit("final");
    reveal_strlit("blocked");
    reveal_strlit("needs_worker");
}

/// A value makes the call that its `tool` names, with its other members as the arguments, each
/// under its own name. What a call must have and the value lacks makes it no call, and so does a
/// tool of another name.
pub proof fn law_calls_are_read_from_their_members(value: JsonModel, tool: Seq<char>)
    requires
        at_key(value, "tool"@) == JsonModel::Text(tool),
    ensures
        tool == "list_files"@ && at_key(value, "path"@) is Text ==> call_in(value) == Some(
            ToolUse::ListFiles { path: Some(at_key(value, "path"@)->Text_0) },
        ),
        tool == "list_files"@ && at_key(value, "path"@) is Null ==> call_in(value) == Some(
            ToolUse::ListFiles { path: None },
        ),
        tool == "read_file"@ && at_key(value, "path"@) is Text ==> call_in(value) == Some(
            ToolUse::ReadFile { path: at_key(value, "path"@)->Text_0 },
        ),
        tool == "read_file"@ && !(at_key(value, "path"@) is Text) ==> call_in(value) is None,
        tool == "write_file"@ && at_key(value, "path"@) is Text && at_key(value, "content"@) is Text
            ==> call_in(value) == Some(
            ToolUse::WriteFile {
                path: at_key(value, "path"@)->Text_0,
                content: at_key(value, "content"@)->Text_0,
            },
        ),
        tool == "write_file"@ && !(at_key(value, "path"@) is Text && at_key(
            value,
            "content"@,
        ) is Text) ==> call_in(value) is None,
        tool == "run_shell"@ && at_key(value, "command"@) is Text ==> call_in(value) == Some(
            ToolUse::RunShell { command: at_key(value, "command"@)->Text_0 },
        ),
        tool == "run_shell"@ && !(at_key(value, "command"@) is Text) ==> call_in(value) is None,
        tool == "web_search"@ && at_key(value, "query"@) is Text && at_key(
            value,
            "max_results"@,
        ) is Null ==> call_in(value) == Some(
            ToolUse::WebSearch { query: at_key(value, "query"@)->Text_0, max_results: None },
        ),
        tool == "web_search"@ && !(at_key(value, "query"@) is Text) ==> call_in(value) is None,
        tool == "spawn_worker"@ && at_key(value, "name"@) is Text && at_key(value, "task"@) is Text
            ==> call_in(value) == Some(
            ToolUse::SpawnWorker {
                name: Some(at_key(value, "name"@)->Text_0),
                task: at_key(value, "task"@)->Text_0,
            },
        ),
        tool == "spawn_worker"@ && at_key(value, "name"@) is Null && at_key(value, "task"@) is Text
            ==> call_in(value) == Some(
            ToolUse::SpawnWorker { name: None, task: at_key(value, "task"@)->Text_0 },
        ),
        tool == "spawn_worker"@ && !(at_key(value, "task"@) is Text) ==> call_in(value) is None,
        tool == "list_workers"@ ==> call_in(value) == Some(ToolUse::ListWorkers),
        tool == "read_worker"@ && at_key(value, "id"@) is Text ==> call_in(value) == Some(
            ToolUse::ReadWorker { id: at_key(value, "id"@)->Text_0 },
        ),
        tool == "read_worker"@ && !(at_key(value, "id"@) is Text) ==> call_in(value) is None,
        tool != "list_files"@ && tool != "read_file"@ && tool != "write_file"@ && tool
            != "run_shell"@ && tool != "web_search"@ && tool != "spawn_worker"@ && tool
            != "list_workers"@ && tool != "read_worker"@ ==> call_in(value) is None,
{
    lemma_tool_names_differ();
}

/// A value without the name of a tool makes no call.
pub proof fn law_nameless_tools_are_no_calls(value: JsonModel)
    requires
        !(at_key(value, "tool"@) is Text),
    ensures
        call_in(value) is None,
{
}

proof fn lemma_decimal_digits(n: nat)
    ensures
        digits_value(decimal(n)) == n,
        decimal(n).len() > 0,
        forall|i: int| 0 <= i < decimal(n).len() ==> is_digit(#[trigger] decimal(n)[i]),
    decreases n,
{
    if n < 10 {
        assert(decimal(n).drop_last() =~= seq![]);
        assert(digits_value(seq![]) == 0);
    } else {
        lemma_decimal_digits(n / 10);
        let head = decimal(n / 10);
        assert(decimal(n).drop_last() =~= head);
        assert forall|i: int| 0 <= i < decimal(n).len() implies is_digit(#[trigger] decimal(n)[i]) by {
            if i < head.len() {
                assert(decimal(n)[i] == head[i]);
            }
        }
    }
}

/// A number that is written out reads as itself, and so does the number of results that a
/// search asks for.
pub proof fn law_numbers_read_as_written(value: JsonModel, n: usize)
    requires
        at_key(value, "tool"@) == JsonModel::Text("web_search"@),
        at_key(value, "query"@) is Text,
        at_key(value, "max_results"@) == JsonModel::Number(decimal(n as nat)),
    ensures
        size_in(decimal(n as nat)) == Some(n),
        call_in(value) == Some(
            ToolUse::WebSearch { query: at_key(value, "query"@)->Text_0, max_results: Some(n) },
        ),
{
    lemma_decimal_digits(n as nat);
    lemma_tool_names_differ();
}

/// A value that is a call and no turn of the protocol makes exactly that call.
pub proof fn law_a_call_alone_is_one_call(value: JsonModel, call: ToolUse)
    requires
        call_in(value) == Some(call),
        !is_turn(value),
    ensures
        calls_in(value) == Some(seq![call]),
{
}

/// What stands between the first fence for JSON in a reply and the next fence is what is read
/// of it.
pub proof fn law_fenced_blocks_are_found(head: Seq<char>, block: Seq<char>, rest: Seq<char>)
    requires
        find(head + "```json"@ + block + "```"@ + rest, "```json"@) == Some(head.len() as int),
        find(block + "```"@ + rest, "```"@) == Some(block.len() as int),
    ensures
        fenced(head + "```json"@ + block + "```"@ + rest) == Some(block),
{
    let answer = head + "```json"@ + block + "```"@ + rest;
    let inside = answer.skip((head.len() + "```json"@.len()) as int);
    assert(inside =~= block + "```"@ + rest);
    assert(inside.take(block.len() as int) =~= block);
}

/// A reply that is no turn of the protocol makes the call that its block of JSON is.
pub proof fn law_fenced_calls_are_made(
    answer: Seq<char>,
    block: Seq<char>,
    value: JsonModel,
    call: ToolUse,
)
    requires
        !is_turn_text(answer),
        fenced(answer) == Some(block),
        json_read(trimmed(block)) == Ok::<JsonModel, Seq<char>>(value),
        call_in(value) == Some(call),
        !is_turn(value),
    ensures
        calls_found(answer) == Ok::<Seq<ToolUse>, Unreadable>(seq![call]),
{
}

/// A block that cannot be read, and one that is no call, is told with its own text.
pub proof fn law_unreadable_calls_are_told(answer: Seq<char>, block: Seq<char>)
    requires
        !is_turn_text(answer),
        fenced(answer) == Some(block),
    ensures
        json_read(trimmed(block)) matches Err(cause) ==> calls_found(answer) == Err::<
            Seq<ToolUse>,
            Unreadable,
        >(Unreadable { text: block, cause }),
        json_read(trimmed(block)) matches Ok(value) && calls_in(value) is None ==> (calls_found(
            answer,
        ) matches Err(e) && e.text == block && e.cause == "not a tool call"@),
{
}

/// A turn of the protocol is one whose `type` is `tool_calls`, `final`, `blocked` or
/// `needs_worker`, and the last three end the work with what they say: the summary, the reason
/// or the task.
pub proof fn law_turns_end_with_what_they_say(value: JsonModel, kind: Seq<char>)
    requires
        at_key(value, "type"@) == JsonModel::Text(kind),
    ensures
        is_turn(value) <==> kind == "tool_calls"@ || kind == "final"@ || kind == "blocked"@ || kind
            == "needs_worker"@,
        kind == "final"@ && at_key(value, "summary"@) is Text ==> end_in(value) == Some(
            TurnEnd::Final { summary: at_key(value, "summary"@)->Text_0 },
        ),
        kind == "final"@ && !(at_key(value, "summary"@) is Text) ==> end_in(value) == Some(
            TurnEnd::Final { summary: ""@ },
        ),
        kind == "blocked"@ && at_key(value, "reason"@) is Text ==> end_in(value) == Some(
            TurnEnd::Blocked { reason: at_key(value, "reason"@)->Text_0 },
        ),
        kind == "blocked"@ && !(at_key(value, "reason"@) is Text) ==> end_in(value) == Some(
            TurnEnd::Blocked { reason: ""@ },
        ),
        kind == "needs_worker"@ && at_key(value, "task"@) is Text ==> end_in(value) == Some(
            TurnEnd::NeedsWorker { task: at_key(value, "task"@)->Text_0 },
        ),
        kind == "needs_worker"@ && !(at_key(value, "task"@) is Text) ==> end_in(value) == Some(
            TurnEnd::NeedsWorker { task: ""@ },
        ),
        kind != "final"@ && kind != "blocked"@ && kind != "needs_worker"@ ==> end_in(value) is None,
        kind == "final"@ || kind == "blocked"@ || kind == "needs_worker"@ ==> calls_in(value)
            == Some(Seq::<ToolUse>::empty()),
{
    lemma_tool_names_differ();
}

/// A value without a `type` is no turn of the protocol and ends no work.
pub proof fn law_values_without_a_type_end_nothing(value: JsonModel)
    requires
        !(at_key(value, "type"@) is Text),
    ensures
        !is_turn(value),
        end_in(value) is None,
{
}

/// A reply ends the work as its turn does, or else as its block of JSON does.
pub proof fn law_replies_end_as_their_turns(answer: Seq<char>, value: JsonModel)
    ensures
        is_turn(value) && json_read(trimmed(answer)) == Ok::<JsonModel, Seq<char>>(value) ==> end_of(
            answer,
        ) == end_in(value),
        !is_turn_text(answer) && (fenced(answer) matches Some(block) && json_read(trimmed(block))
            == Ok::<JsonModel, Seq<char>>(value)) ==> end_of(answer) == end_in(value),
        !is_turn_text(answer) && fenced(answer) is None ==> end_of(answer) is None,
{
}

/// The line that tells of a call names the tool and what it is called on.
pub proof fn law_calls_are_told(a: Seq<char>, b: Seq<char>, n: usize)
    ensures
        call_line(ToolUse::ListFiles { path: Some(a) }) == "list_files path="@ + a,
        call_line(ToolUse::ListFiles { path: None }) == "list_files path="@ + "."@,
        call_line(ToolUse::ReadFile { path: a }) == "read_file path="@ + a,
        call_line(ToolUse::WriteFile { path: a, content: b }) == "write_file path="@ + a
            + " bytes="@ + decimal(encode_utf8(b).len()),
        call_line(ToolUse::RunShell { command: a }) == "run_shell command="@ + a,
        call_line(ToolUse::WebSearch { query: a, max_results: Some(n) }) == "web_search query="@ + a
            + " results="@ + decimal(n as nat),
        call_line(ToolUse::WebSearch { query: a, max_results: None }) == "web_search query="@ + a
            + " results="@ + decimal(5),
        call_line(ToolUse::ListWorkers) == "list_workers"@,
        call_line(ToolUse::ReadWorker { id: a }) == "read_worker id="@ + a,
{
}

/// The line that tells of a new worker names it and the first line of its task.
pub proof fn law_new_workers_are_told(name: Seq<char>, line: Seq<char>, rest: Seq<char>)
    requires
        line.len() > 0,
        forall|i: int| 0 <= i < line.len() ==> #[trigger] line[i] != '\n' && line[i] != '\r',
    ensures
        call_line(ToolUse::SpawnWorker { name: Some(name), task: line + "\n"@ + rest })
            == "spawn_worker name="@ + name + " task="@ + trimmed(line),
        call_line(ToolUse::SpawnWorker { name: None, task: line + "\n"@ + rest })
            == "spawn_worker name="@ + "worker"@ + " task="@ + trimmed(line),
        call_line(ToolUse::SpawnWorker { name: Some(name), task: line }) == "spawn_worker name="@
            + name + " task="@ + trimmed(line),
{
    reveal_strlit("\n");
    let task = line + "\n"@ + rest;
    let n = line.len() as int;
    assert(task.subrange(n, n + 1) =~= "\n"@);
    assert forall|j: int| 0 <= j < n implies !#[trigger] crate::text::occurs_at(task, "\n"@, j) by {
        assert(task.subrange(j, j + 1)[0] == line[j]);
    }
    crate::text::lemma_find_is(task, "\n"@, n);
    assert(task.take(n) =~= line);
    crate::text::lemma_find(line, "\n"@);
    if let Some(i) = find(line, "\n"@) {
        assert(line.subrange(i, i + 1)[0] == line[i]);
        assert(line[i] == '\n');
    }
    assert(lines(task)[0] == line);
    assert(lines(line)[0] == line);
}

/// A relative path is used as seen from the workspace where its anchor truly lies inside, and
/// is refused where it lies outside or cannot be found out; with full access it is used
/// wherever it lies. An absolute path is used as it is, with full access only.
pub proof fn law_paths_are_judged_by_their_place(
    workspace: Seq<char>,
    path: Seq<char>,
    place: Seq<char>,
)
    ensures
        !is_absolute_path(path) && path_begins(place, workspace) ==> path_verdict(
            workspace,
            false,
            path,
            Some(place),
        ) == Ok::<Seq<char>, Refusal>(joined_path(workspace, path)),
        !is_absolute_path(path) && !path_begins(place, workspace) ==> path_verdict(
            workspace,
            false,
            path,
            Some(place),
        ) == Err::<Seq<char>, Refusal>(Refusal::Escapes { path }),
        !is_absolute_path(path) ==> path_verdict(workspace, true, path, Some(place)) == Ok::<
            Seq<char>,
            Refusal,
        >(joined_path(workspace, path)),
        forall|full: bool|
            !is_absolute_path(path) ==> #[trigger] path_verdict(workspace, full, path, None) == Err::<
                Seq<char>,
                Refusal,
            >(Refusal::Inaccessible { anchor: anchor_path(workspace, path) }),
        forall|at: Option<Seq<char>>|
            is_absolute_path(path) ==> #[trigger] path_verdict(workspace, true, path, at) == Ok::<
                Seq<char>,
                Refusal,
            >(path),
{
}

/// A path that ends in a name is judged by the directory that holds it, one that does not by
/// itself.
pub proof fn law_anchors_hold_what_is_named(workspace: Seq<char>, path: Seq<char>)
    ensures
        file_name(path) is Some && parent(joined_path(workspace, path)) is Some ==> Some(
            anchor_path(workspace, path),
        ) == parent(joined_path(workspace, path)),
        file_name(path) is Some && parent(joined_path(workspace, path)) is None ==> anchor_path(
            workspace,
            path,
        ) == workspace,
        file_name(path) is None ==> anchor_path(workspace, path) == joined_path(workspace, path),
{
}

/// Each refusal is told with the path that it is about.
pub proof fn law_refusals_name_the_path(path: String, cause: String)
    ensures
        tool_error_text(ToolError::AbsolutePath { path })
            == "absolute paths are not allowed without --full-system-access: "@ + path@,
        tool_error_text(ToolError::Inaccessible { anchor: path, cause })
            == "path parent is not accessible: "@ + path@,
        tool_error_text(ToolError::Escapes { path }) == "path escapes workspace: "@ + path@,
        tool_error_text(ToolError::Orchestration)
            == "agent orchestration tools must be handled by the master agent"@,
        refusal_in(ToolError::AbsolutePath { path }) == (Refusal::Absolute { path: path@ }),
        refusal_in(ToolError::Inaccessible { anchor: path, cause }) == (Refusal::Inaccessible {
            anchor: path@,
        }),
        refusal_in(ToolError::Escapes { path }) == (Refusal::Escapes { path: path@ }),
{
}

/// What is allowed is done, what is denied is not, and what is asked for is done where the
/// answer is yes and cancelled where it is anything else.
pub proof fn law_permissions_decide(answer: Seq<char>)
    ensures
        approval(PermissionMode::Allow, answer) == Approval::Approved,
        approval(PermissionMode::Deny, answer) == Approval::Denied,
        trimmed(answer) == "y"@ || trimmed(answer) == "Y"@ || trimmed(answer) == "yes"@ || trimmed(
            answer,
        ) == "YES"@ ==> approval(PermissionMode::Ask, answer) == Approval::Approved,
        trimmed(answer) != "y"@ && trimmed(answer) != "Y"@ && trimmed(answer) != "yes"@ && trimmed(
            answer,
        ) != "YES"@ ==> approval(PermissionMode::Ask, answer) == Approval::Cancelled,
{
}

/// What was not done is told, with what it would have been and why; what was done is not
/// refused.
pub proof fn law_refusals_say_why(what: Seq<char>)
    ensures
        refusal(what, Approval::Approved) is None,
        refusal(what, Approval::Cancelled) == Some(what + " cancelled by user"@),
        refusal(what, Approval::Denied) == Some(what + " denied by permission mode"@),
{
}

/// The report of a command holds its status, then all that it printed, then all its errors.
pub proof fn law_reports_hold_what_was_printed(
    status: Seq<char>,
    stdout: Seq<char>,
    stderr: Seq<char>,
)
    ensures
        ({
            let report = run_report(status, stdout, stderr);
            let first = "status: "@ + status + "\nstdout:\n"@;
            let second = "\nstderr:\n"@;
            &&& report.take(first.len() as int) == first
            &&& report.subrange(first.len() as int, (first.len() + stdout.len()) as int) == stdout
            &&& report.skip((first.len() + stdout.len()) as int) == second + stderr
        }),
{
    let report = run_report(status, stdout, stderr);
    let first = "status: "@ + status + "\nstdout:\n"@;
    let second = "\nstderr:\n"@;
    assert(report =~= first + stdout + second + stderr);
    assert(report.take(first.len() as int) =~= first);
    assert(report.subrange(first.len() as int, (first.len() + stdout.len()) as int) =~= stdout);
    assert(report.skip((first.len() + stdout.len()) as int) =~= second + stderr);
}

/// A git command is told as `git` and its arguments, with a space before each.
pub proof fn law_git_commands_are_told(args: Seq<Seq<char>>, last: Seq<char>)
    ensures
        git_line(seq![last]) == "git "@ + last,
        args.len() > 0 ==> git_line(args.push(last)) == git_line(args) + " "@ + last,
{
    assert(args.push(last).drop_last() =~= args);
    if args.len() > 0 {
        assert(git_line(args.push(last)) =~= git_line(args) + " "@ + last);
    }
}

/// An entry below the workspace is told as seen from there, another by its whole path, and a
/// directory with a slash behind it.
pub proof fn law_entries_are_told_from_the_workspace(
    workspace: Seq<char>,
    path: Seq<char>,
    rest: Seq<char>,
)
    ensures
        relative(path, workspace) == Some(rest) ==> entry_line(workspace, path, false) == rest
            && entry_line(workspace, path, true) == rest + "/"@,
        relative(path, workspace) is None ==> entry_line(workspace, path, false) == path
            && entry_line(workspace, path, true) == path + "/"@,
{
}

/// Below its limit a listing tells of each entry but the workspace itself, one line each and in
/// order; the entry at the limit is followed by a line that says so.
pub proof fn law_listings_tell_every_entry(
    workspace: Seq<char>,
    entries: Seq<(Seq<char>, bool)>,
    path: Seq<char>,
    is_dir: bool,
)
    ensures
        ({
            let had = listed(workspace, entries);
            let has = listed(workspace, entries.push((path, is_dir)));
            &&& components(path) == components(workspace) ==> has == had
            &&& components(path) != components(workspace) && had.len() + 1 < 200 ==> has
                == had.push(entry_line(workspace, path, is_dir))
            &&& components(path) != components(workspace) && had.len() == 199 ==> has == had.push(
                entry_line(workspace, path, is_dir),
            ).push("... truncated at 200 entries"@)
            &&& had.len() > 200 ==> has == had
        }),
        listed(workspace, seq![]).len() == 0,
{
    assert(entries.push((path, is_dir)).drop_last() =~= entries);
}

/// A reply without a fence for JSON has no block, and neither has one whose fence is not closed.
pub proof fn law_unfenced_replies_have_no_block(answer: Seq<char>, head: Seq<char>, rest: Seq<char>)
    ensures
        find(answer, "```json"@) is None ==> fenced(answer) is None,
        find(head + "```json"@ + rest, "```json"@) == Some(head.len() as int) && find(rest, "```"@)
            is None ==> fenced(head + "```json"@ + rest) is None,
{
    let s = head + "```json"@ + rest;
    assert(s.skip((head.len() + "```json"@.len()) as int) =~= rest);
}

/// An argument of the wrong kind makes a value no call.
pub proof fn law_wrong_arguments_are_no_calls(value: JsonModel)
    ensures
        at_key(value, "tool"@) == JsonModel::Text("list_files"@) && !(at_key(value, "path"@) is Null)
            && !(at_key(value, "path"@) is Text) ==> call_in(value) is None,
        at_key(value, "tool"@) == JsonModel::Text("spawn_worker"@) && !(at_key(
            value,
            "name"@,
        ) is Null) && !(at_key(value, "name"@) is Text) ==> call_in(value) is None,
        at_key(value, "tool"@) == JsonModel::Text("web_search"@) && !(at_key(
            value,
            "max_results"@,
        ) is Null) && !(at_key(value, "max_results"@) is Number) ==> call_in(value) is None,
        at_key(value, "tool"@) == JsonModel::Text("web_search"@) && (at_key(value, "max_results"@)
            matches JsonModel::Number(n) && size_in(n) is None) ==> call_in(value) is None,
{
    lemma_tool_names_differ();
}

/// A text that is empty or holds anything but digits writes no size.
pub proof fn law_sizes_are_digits(s: Seq<char>, i: int)
    ensures
        s.len() == 0 ==> size_in(s) is None,
        0 <= i < s.len() && !('0' <= s[i] <= '9') ==> size_in(s) is None,
        size_in(s) matches Some(n) ==> n == digits_value(s),
{
    if 0 <= i < s.len() && !('0' <= s[i] <= '9') {
        assert(!is_digit(s[i]));
    }
}

/// A turn whose calls are no list makes none that can be read, and the text that is told is
/// the reply.
pub proof fn law_turns_without_a_list_are_told(answer: Seq<char>, turn: JsonModel)
    requires
        json_read(trimmed(answer)) == Ok::<JsonModel, Seq<char>>(turn),
        as_text(at_key(turn, "type"@)) == Some("tool_calls"@),
        !(at_key(turn, "calls"@) is Array),
    ensures
        calls_found(answer) matches Err(e) && e.text == trimmed(answer) && e.cause
            == "not a tool call"@,
{
}

/// The line that tells of a new worker names it and the first line of its task, whatever the
/// task is.
pub proof fn law_new_workers_are_told_by_the_first_line(name: Option<Seq<char>>, task: Seq<char>)
    ensures
        ({
            let named = match name {
                Some(n) => n,
                None => "worker"@,
            };
            &&& lines(task).len() > 0 ==> call_line(ToolUse::SpawnWorker { name, task })
                == "spawn_worker name="@ + named + " task="@ + trimmed(lines(task)[0])
            &&& lines(task).len() == 0 ==> call_line(ToolUse::SpawnWorker { name, task })
                == "spawn_worker name="@ + named + " task="@ + trimmed(""@)
        }),
{
}

/// A call that is not for workers is the tools' to carry out, as it is.
pub proof fn law_other_calls_go_to_the_tools(call: ToolUse)
    requires
        !(call is SpawnWorker),
        !(call is ListWorkers),
        !(call is ReadWorker),
    ensures
        charge_of(call) == Charge::Tool(call),
{
}

/// A turn with a call that cannot be read is told as a whole, and so is a block.
pub proof fn law_turns_with_wrong_calls_are_told(
    answer: Seq<char>,
    turn: JsonModel,
    values: Seq<JsonModel>,
    i: int,
)
    requires
        json_read(trimmed(answer)) == Ok::<JsonModel, Seq<char>>(turn),
        as_text(at_key(turn, "type"@)) == Some("tool_calls"@),
        at_key(turn, "calls"@) == JsonModel::Array(values),
        0 <= i < values.len(),
        call_in(values[i]) is None,
    ensures
        calls_found(answer) matches Err(e) && e.text == trimmed(answer) && e.cause
            == "not a tool call"@,
{
    lemma_tool_names_differ();
    law_calls_come_in_order(values);
}

/// A fenced turn makes its calls, or ends the work, as one that stands alone.
pub proof fn law_fenced_turns_are_read(answer: Seq<char>, block: Seq<char>, value: JsonModel)
    requires
        !is_turn_text(answer),
        fenced(answer) == Some(block),
        json_read(trimmed(block)) == Ok::<JsonModel, Seq<char>>(value),
    ensures
        calls_in(value) matches Some(calls) ==> calls_found(answer) == Ok::<Seq<ToolUse>, Unreadable>(
            calls,
        ),
        is_turn_text(block) ==> calls_found(answer) is Ok == calls_found(block) is Ok,
        end_of(answer) == end_in(value),
{
}

/// A list of calls is seen call by call.
pub proof fn law_calls_are_seen_one_by_one(calls: Seq<ToolCall>, i: int)
    requires
        0 <= i < calls.len(),
    ensures
        uses(calls).len() == calls.len(),
        uses(calls)[i] == calls[i]@,
        use_of(Some(calls[i])) == Some(calls[i]@),
        use_of(None) is None,
{
}

}
