//! What an agent is told besides its prompt: the instructions of the workspace, the plan,
//! the notes that it keeps and the skills that are switched on.
use crate::config::opt_text;
use crate::json::{
    as_text, at_key, key_of, lemma_added_member, list_of, member_place, object, text_list, with,
    Json, JsonModel,
};
use crate::paths::{join_path, joined_path};
use crate::text::{
    find, holds_text, join, joined, lemma_find, occurs_at, same, strip_prefix_of, texts,
    trim_white, trimmed, without_prefix,
};
use vstd::prelude::*;
use vstd::string::*;

verus! {

broadcast use {vstd::seq::group_seq_axioms, vstd::string::group_string_axioms};

// ---------------------------------------------------------------------------
// Instructions
// ---------------------------------------------------------------------------

/// What a workspace adds to what an agent is told.
#[derive(Debug)]
pub struct Context {
    /// The rules of the workspace, from `AGENT.md`.
    pub guide: String,
    /// The state of the work, from `PLAN.md`.
    pub plan: String,
    /// The notes that outlive a process.
    pub notes: Vec<String>,
    /// The texts of the skills that are switched on.
    pub skills: Vec<String>,
}

/// What a workspace adds to what an agent is told as a mathematical object.
pub ghost struct Background {
    pub guide: Seq<char>,
    pub plan: Seq<char>,
    pub notes: Seq<Seq<char>>,
    pub skills: Seq<Seq<char>>,
}

impl View for Context {
    type V = Background;

    open spec fn view(&self) -> Background {
        Background {
            guide: self.guide@,
            plan: self.plan@,
            notes: texts(self.notes@),
            skills: texts(self.skills@),
        }
    }
}

/// Nothing added.
pub open spec fn no_background() -> Background {
    Background { guide: seq![], plan: seq![], notes: seq![], skills: seq![] }
}

impl Context {
    /// Nothing added.
    pub fn none() -> (r: Context)
        ensures
            r@ == no_background(),
    {
        let r = Context {
            guide: String::new(),
            plan: String::new(),
            notes: Vec::new(),
            skills: Vec::new(),
        };
        assert(r@.guide =~= seq![]);
        assert(r@.plan =~= seq![]);
        assert(r@.notes =~= seq![]);
        assert(r@.skills =~= seq![]);
        r
    }
}

/// Whether a text is white space alone.
pub open spec fn is_blank(s: Seq<char>) -> bool {
    trimmed(s).len() == 0
}

/// A text under a title, behind another.
pub open spec fn titled(title: Seq<char>, body: Seq<char>) -> Seq<char> {
    "\n\n"@ + title + "\n"@ + body
}

/// A text under a title, if it says anything.
pub open spec fn section(title: Seq<char>, body: Seq<char>) -> Seq<char> {
    if is_blank(body) {
        seq![]
    } else {
        titled(title, body)
    }
}

/// The items of a list, a line each.
pub open spec fn bulleted(list: Seq<Seq<char>>) -> Seq<char> {
    joined(list.map_values(|item: Seq<char>| "- "@ + item), "\n"@)
}

/// The notes under their title, if there are any.
pub open spec fn notes_section(notes: Seq<Seq<char>>) -> Seq<char> {
    if notes.len() == 0 {
        seq![]
    } else {
        titled("Memory notes:"@, bulleted(notes))
    }
}

/// The skills, each under the title.
pub open spec fn skill_sections(skills: Seq<Seq<char>>) -> Seq<char>
    decreases skills.len(),
{
    if skills.len() == 0 {
        seq![]
    } else {
        skill_sections(skills.drop_last()) + section("Skill:"@, skills.last())
    }
}

/// What an agent is told: the prompt, and behind it what the workspace adds.
pub open spec fn merged(prompt: Seq<char>, b: Background) -> Seq<char> {
    prompt + section("Workspace instructions:"@, b.guide) + section("Session plan:"@, b.plan)
        + notes_section(b.notes) + skill_sections(b.skills)
}

/// The items of a list, a line each.
pub fn bullets(list: &Vec<String>) -> (r: String)
    ensures
        r@ == bulleted(texts(list@)),
{
    let mut items: Vec<String> = Vec::new();
    let mut i: usize = 0;
    while i < list.len()
        invariant
            i <= list@.len(),
            items@.len() == i,
            forall|j: int| 0 <= j < i ==> (#[trigger] items@[j])@ == "- "@ + list@[j]@,
        decreases list@.len() - i,
    {
        let mut item = "- ".to_owned();
        item.append(list[i].as_str());
        items.push(item);
        i += 1;
    }
    assert(texts(items@) =~= texts(list@).map_values(|item: Seq<char>| "- "@ + item));
    join(&items, "\n")
}

fn add_titled(out: &mut String, title: &str, body: &str)
    ensures
        final(out)@ == old(out)@ + titled(title@, body@),
{
    out.append("\n\n");
    out.append(title);
    out.append("\n");
    out.append(body);
    assert(out@ =~= old(out)@ + titled(title@, body@));
}

fn add_section(out: &mut String, title: &str, body: &str)
    ensures
        final(out)@ == old(out)@ + section(title@, body@),
{
    if trim_white(body).as_str().unicode_len() > 0 {
        add_titled(out, title, body);
    } else {
        assert(out@ =~= old(out)@ + section(title@, body@));
    }
}

/// What an agent is told: the prompt, and behind it what the workspace adds.
pub fn merge(prompt: &str, context: &Context) -> (r: String)
    ensures
        r@ == merged(prompt@, context@),
{
    let mut out = prompt.to_owned();
    add_section(&mut out, "Workspace instructions:", &context.guide);
    add_section(&mut out, "Session plan:", &context.plan);
    let ghost had = out@;
    if context.notes.len() > 0 {
        add_titled(&mut out, "Memory notes:", &bullets(&context.notes));
    }
    assert(out@ =~= had + notes_section(texts(context.notes@)));
    let ghost head = out@;
    let ghost all = texts(context.skills@);
    let mut i: usize = 0;
    assert(all.take(0) =~= seq![]);
    assert(out@ =~= head + skill_sections(all.take(0)));
    while i < context.skills.len()
        invariant
            i <= context.skills@.len(),
            all == texts(context.skills@),
            out@ == head + skill_sections(all.take(i as int)),
        decreases context.skills@.len() - i,
    {
        let ghost before = out@;
        add_section(&mut out, "Skill:", &context.skills[i]);
        proof {
            assert(all.take(i + 1).drop_last() =~= all.take(i as int));
            assert(all.take(i + 1).last() == context.skills@[i as int]@);
            assert(out@ =~= head + skill_sections(all.take(i + 1)));
        }
        i += 1;
    }
    assert(all.take(all.len() as int) =~= all);
    out
}

/// What `AGENT.md` is begun with, if it is to be begun: what `AGENTS.md` holds, where the
/// one is missing and the other is there.
pub fn initial_guide(guide: &Option<String>, other: &Option<String>) -> (r: Option<String>)
    ensures
        opt_text(r) == (if guide is Some {
            None
        } else {
            opt_text(*other)
        }),
{
    match guide {
        Some(_) => None,
        None => match other {
            Some(text) => Some(text.clone()),
            None => None,
        },
    }
}

// ---------------------------------------------------------------------------
// Notes
// ---------------------------------------------------------------------------

/// How `/memory` is used.
pub const MEMORY_USAGE: &'static str = "usage: /memory [show|add <text>|clear|reload]";

/// What `/memory` calls for.
#[derive(Debug)]
pub enum MemoryEffect {
    /// The user is told something.
    Info(String),
    /// The user is told that something is wrong.
    Error(String),
    /// The notes are saved, and the user is told something.
    Save(String),
    /// The notes are read again.
    Reload,
}

/// What `/memory` calls for as a mathematical object.
pub ghost enum MemoryWish {
    Info(Seq<char>),
    Error(Seq<char>),
    Save(Seq<char>),
    Reload,
}

impl View for MemoryEffect {
    type V = MemoryWish;

    open spec fn view(&self) -> MemoryWish {
        match self {
            MemoryEffect::Info(t) => MemoryWish::Info(t@),
            MemoryEffect::Error(t) => MemoryWish::Error(t@),
            MemoryEffect::Save(t) => MemoryWish::Save(t@),
            MemoryEffect::Reload => MemoryWish::Reload,
        }
    }
}

/// The notes as they are shown.
pub open spec fn shown_notes(notes: Seq<Seq<char>>) -> Seq<char> {
    if notes.len() == 0 {
        "memory: no notes"@
    } else {
        "memory notes:\n"@ + bulleted(notes)
    }
}

/// What `/memory` makes of the notes, and what it calls for, given its argument.
pub open spec fn remembering(notes: Seq<Seq<char>>, arg: Seq<char>) -> (
    Seq<Seq<char>>,
    MemoryWish,
) {
    if arg.len() == 0 || arg == "show"@ {
        (notes, MemoryWish::Info(shown_notes(notes)))
    } else if arg == "clear"@ {
        (seq![], MemoryWish::Save("memory cleared"@))
    } else if arg == "reload"@ {
        (notes, MemoryWish::Reload)
    } else {
        match without_prefix(arg, "add "@) {
            Some(rest) => if is_blank(rest) {
                (notes, MemoryWish::Error(MEMORY_USAGE@))
            } else {
                (notes.push(trimmed(rest)), MemoryWish::Save("memory note added"@))
            },
            None => (notes, MemoryWish::Error(MEMORY_USAGE@)),
        }
    }
}

/// `/memory`, given the notes and its argument: the notes from then on, and what it calls
/// for.
pub fn memory_command(notes: Vec<String>, arg: &str) -> (r: (Vec<String>, MemoryEffect))
    ensures
        (texts(r.0@), r.1@) == remembering(texts(notes@), arg@),
{
    if arg.unicode_len() == 0 || same(arg, "show") {
        let shown = if notes.len() == 0 {
            "memory: no notes".to_owned()
        } else {
            let mut out = "memory notes:\n".to_owned();
            out.append(bullets(&notes).as_str());
            out
        };
        (notes, MemoryEffect::Info(shown))
    } else if same(arg, "clear") {
        let none: Vec<String> = Vec::new();
        assert(texts(none@) =~= seq![]);
        (none, MemoryEffect::Save("memory cleared".to_owned()))
    } else if same(arg, "reload") {
        (notes, MemoryEffect::Reload)
    } else {
        match strip_prefix_of(arg, "add ") {
            Some(rest) => {
                let note = trim_white(&rest);
                if note.as_str().unicode_len() == 0 {
                    (notes, MemoryEffect::Error(MEMORY_USAGE.to_owned()))
                } else {
                    let ghost had = texts(notes@);
                    let ghost new = note@;
                    let mut all = notes;
                    all.push(note);
                    assert(texts(all@) =~= had.push(new));
                    (all, MemoryEffect::Save("memory note added".to_owned()))
                }
            },
            None => (notes, MemoryEffect::Error(MEMORY_USAGE.to_owned())),
        }
    }
}

/// The texts of some values, where all of them are texts.
pub open spec fn all_texts(values: Seq<JsonModel>) -> Option<Seq<Seq<char>>>
    decreases values.len(),
{
    if values.len() == 0 {
        Some(seq![])
    } else {
        match (all_texts(values.drop_last()), as_text(values.last())) {
            (Some(list), Some(t)) => Some(list.push(t)),
            _ => None,
        }
    }
}

/// The notes that a value holds: a list of texts under `notes`.
pub open spec fn notes_in(value: JsonModel) -> Option<Seq<Seq<char>>> {
    match at_key(value, "notes"@) {
        JsonModel::Array(values) => all_texts(values),
        _ => None,
    }
}

/// The value that notes are saved as.
pub open spec fn notes_model(notes: Seq<Seq<char>>) -> JsonModel {
    JsonModel::Object(seq![("notes"@, text_list(notes))])
}

proof fn lemma_not_all_texts(values: Seq<JsonModel>, n: int)
    requires
        0 <= n <= values.len(),
        all_texts(values.take(n)) is None,
    ensures
        all_texts(values) is None,
    decreases values.len() - n,
{
    if n < values.len() {
        assert(values.take(n + 1).drop_last() =~= values.take(n));
        lemma_not_all_texts(values, n + 1);
    } else {
        assert(values.take(n) =~= values);
    }
}

fn read_all_texts(values: &Vec<Json>) -> (r: Option<Vec<String>>)
    ensures
        match r {
            Some(list) => all_texts(Seq::new(values@.len(), |i: int| values@[i]@)) == Some(
                texts(list@),
            ),
            None => all_texts(Seq::new(values@.len(), |i: int| values@[i]@)) is None,
        },
{
    let ghost all = Seq::new(values@.len(), |i: int| values@[i]@);
    let mut list: Vec<String> = Vec::new();
    let mut i: usize = 0;
    assert(all.take(0) =~= seq![]);
    assert(texts(list@) =~= seq![]);
    while i < values.len()
        invariant
            i <= values@.len(),
            all == Seq::new(values@.len(), |i: int| values@[i]@),
            all_texts(all.take(i as int)) == Some(texts(list@)),
        decreases values@.len() - i,
    {
        assert(all.take(i + 1).drop_last() =~= all.take(i as int));
        assert(all.take(i + 1).last() == values@[i as int]@);
        match &values[i] {
            Json::Text(t) => {
                let ghost had = texts(list@);
                list.push(t.clone());
                assert(texts(list@) =~= had.push(t@));
            },
            _ => {
                proof {
                    lemma_not_all_texts(all, i + 1);
                }
                return None;
            },
        }
        i += 1;
    }
    assert(all.take(all.len() as int) =~= all);
    Some(list)
}

/// The notes that a value holds.
pub fn read_notes(value: &Json) -> (r: Option<Vec<String>>)
    ensures
        match r {
            Some(list) => notes_in(value@) == Some(texts(list@)),
            None => notes_in(value@) is None,
        },
{
    match key_of(Some(value), "notes") {
        Some(Json::Array(values)) => {
            let r = read_all_texts(values);
            assert(at_key(value@, "notes"@)->Array_0 =~= Seq::new(
                values@.len(),
                |i: int| values@[i]@,
            ));
            r
        },
        _ => None,
    }
}

/// The value that notes are saved as.
pub fn notes_value(notes: &Vec<String>) -> (r: Json)
    ensures
        r@ == notes_model(texts(notes@)),
{
    let r = with(object(), "notes", list_of(notes));
    assert(r@->Object_0 =~= notes_model(texts(notes@))->Object_0);
    r
}

// ---------------------------------------------------------------------------
// Skills
// ---------------------------------------------------------------------------

/// How `/skills` is used.
pub const SKILLS_USAGE: &'static str =
    "usage: /skills [show|list|reload|enable <name>|disable <name>]";

/// What `/skills` calls for.
#[derive(Debug)]
pub enum SkillsEffect {
    /// The user is told something.
    Info(String),
    /// The user is told that something is wrong.
    Error(String),
    /// The skills that there are are listed.
    List,
    /// The active skills are saved and read again, and the user is told something.
    Save(String),
    /// The active skills are read again.
    Reload,
}

/// What `/skills` calls for as a mathematical object.
pub ghost enum SkillsWish {
    Info(Seq<char>),
    Error(Seq<char>),
    List,
    Save(Seq<char>),
    Reload,
}

impl View for SkillsEffect {
    type V = SkillsWish;

    open spec fn view(&self) -> SkillsWish {
        match self {
            SkillsEffect::Info(t) => SkillsWish::Info(t@),
            SkillsEffect::Error(t) => SkillsWish::Error(t@),
            SkillsEffect::List => SkillsWish::List,
            SkillsEffect::Save(t) => SkillsWish::Save(t@),
            SkillsEffect::Reload => SkillsWish::Reload,
        }
    }
}

/// The active skills as they are shown.
pub open spec fn shown_skills(active: Seq<Seq<char>>) -> Seq<char> {
    "active skills: "@ + (if active.len() == 0 {
        "none"@
    } else {
        joined(active, ", "@)
    })
}

/// A list without any occurrence of a text.
pub open spec fn lacking(list: Seq<Seq<char>>, name: Seq<char>) -> Seq<Seq<char>>
    decreases list.len(),
{
    if list.len() == 0 {
        seq![]
    } else if list.last() == name {
        lacking(list.drop_last(), name)
    } else {
        lacking(list.drop_last(), name).push(list.last())
    }
}

/// What switching a skill on makes of the active ones.
pub open spec fn enabling(active: Seq<Seq<char>>, name: Seq<char>) -> (
    Seq<Seq<char>>,
    SkillsWish,
) {
    if name.len() == 0 {
        (active, SkillsWish::Error(SKILLS_USAGE@))
    } else if active.contains(name) {
        (active, SkillsWish::Info("skill already active: "@ + name))
    } else {
        (active.push(name), SkillsWish::Save("skill enabled: "@ + name))
    }
}

/// What switching a skill off makes of the active ones.
pub open spec fn disabling(active: Seq<Seq<char>>, name: Seq<char>) -> (
    Seq<Seq<char>>,
    SkillsWish,
) {
    if name.len() == 0 {
        (active, SkillsWish::Error(SKILLS_USAGE@))
    } else if active.contains(name) {
        (lacking(active, name), SkillsWish::Save("skill disabled: "@ + name))
    } else {
        (active, SkillsWish::Info("skill not active: "@ + name))
    }
}

/// What `/skills` makes of the active skills, and what it calls for, given its argument.
pub open spec fn switching(active: Seq<Seq<char>>, arg: Seq<char>) -> (
    Seq<Seq<char>>,
    SkillsWish,
) {
    if arg.len() == 0 || arg == "show"@ {
        (active, SkillsWish::Info(shown_skills(active)))
    } else if arg == "list"@ {
        (active, SkillsWish::List)
    } else if arg == "reload"@ {
        (active, SkillsWish::Reload)
    } else {
        match (without_prefix(arg, "enable "@), without_prefix(arg, "disable "@)) {
            (Some(name), _) => enabling(active, trimmed(name)),
            (None, Some(name)) => disabling(active, trimmed(name)),
            (None, None) => (active, SkillsWish::Error(SKILLS_USAGE@)),
        }
    }
}

/// Whether a list holds a text.
pub fn holds_name(list: &Vec<String>, name: &str) -> (r: bool)
    ensures
        r == texts(list@).contains(name@),
{
    let ghost all = texts(list@);
    let mut i: usize = 0;
    while i < list.len()
        invariant
            i <= list@.len(),
            all == texts(list@),
            forall|j: int| 0 <= j < i ==> #[trigger] all[j] != name@,
        decreases list@.len() - i,
    {
        if same(&list[i], name) {
            assert(all[i as int] == name@);
            return true;
        }
        i += 1;
    }
    false
}

fn without_name(list: &Vec<String>, name: &str) -> (r: Vec<String>)
    ensures
        texts(r@) == lacking(texts(list@), name@),
{
    let ghost all = texts(list@);
    let mut out: Vec<String> = Vec::new();
    let mut i: usize = 0;
    assert(all.take(0) =~= seq![]);
    assert(texts(out@) =~= seq![]);
    while i < list.len()
        invariant
            i <= list@.len(),
            all == texts(list@),
            texts(out@) == lacking(all.take(i as int), name@),
        decreases list@.len() - i,
    {
        assert(all.take(i + 1).drop_last() =~= all.take(i as int));
        assert(all.take(i + 1).last() == list@[i as int]@);
        if !same(&list[i], name) {
            let ghost had = texts(out@);
            out.push(list[i].clone());
            assert(texts(out@) =~= had.push(list@[i as int]@));
        }
        i += 1;
    }
    assert(all.take(all.len() as int) =~= all);
    out
}

fn told(text: &str, name: &str) -> (r: String)
    ensures
        r@ == text@ + name@,
{
    let mut out = text.to_owned();
    out.append(name);
    out
}

fn enable_skill(active: Vec<String>, name: String) -> (r: (Vec<String>, SkillsEffect))
    ensures
        (texts(r.0@), r.1@) == enabling(texts(active@), name@),
{
    if name.as_str().unicode_len() == 0 {
        (active, SkillsEffect::Error(SKILLS_USAGE.to_owned()))
    } else if holds_name(&active, &name) {
        (active, SkillsEffect::Info(told("skill already active: ", &name)))
    } else {
        let ghost had = texts(active@);
        let text = told("skill enabled: ", &name);
        let mut all = active;
        let ghost new = name@;
        all.push(name);
        assert(texts(all@) =~= had.push(new));
        (all, SkillsEffect::Save(text))
    }
}

fn disable_skill(active: Vec<String>, name: String) -> (r: (Vec<String>, SkillsEffect))
    ensures
        (texts(r.0@), r.1@) == disabling(texts(active@), name@),
{
    if name.as_str().unicode_len() == 0 {
        (active, SkillsEffect::Error(SKILLS_USAGE.to_owned()))
    } else if holds_name(&active, &name) {
        (without_name(&active, &name), SkillsEffect::Save(told("skill disabled: ", &name)))
    } else {
        (active, SkillsEffect::Info(told("skill not active: ", &name)))
    }
}

/// `/skills`, given the active skills and its argument: the active skills from then on,
/// and what it calls for.
pub fn skills_command(active: Vec<String>, arg: &str) -> (r: (Vec<String>, SkillsEffect))
    ensures
        (texts(r.0@), r.1@) == switching(texts(active@), arg@),
{
    if arg.unicode_len() == 0 || same(arg, "show") {
        let text = if active.len() == 0 {
            told("active skills: ", "none")
        } else {
            told("active skills: ", &join(&active, ", "))
        };
        (active, SkillsEffect::Info(text))
    } else if same(arg, "list") {
        (active, SkillsEffect::List)
    } else if same(arg, "reload") {
        (active, SkillsEffect::Reload)
    } else {
        match (strip_prefix_of(arg, "enable "), strip_prefix_of(arg, "disable ")) {
            (Some(name), _) => enable_skill(active, trim_white(&name)),
            (None, Some(name)) => disable_skill(active, trim_white(&name)),
            (None, None) => (active, SkillsEffect::Error(SKILLS_USAGE.to_owned())),
        }
    }
}

/// A skill in the list of those that there are.
pub open spec fn skill_line(active: Seq<Seq<char>>, name: Seq<char>) -> Seq<char> {
    (if active.contains(name) {
        "* "@
    } else {
        "  "@
    }) + name
}

/// The skills that there are, the active ones marked.
pub open spec fn skill_list(active: Seq<Seq<char>>, available: Seq<Seq<char>>) -> Seq<char> {
    if available.len() == 0 {
        "skills: none"@
    } else {
        joined(available.map_values(|name: Seq<char>| skill_line(active, name)), "\n"@)
    }
}

/// The skills that there are, the active ones marked.
pub fn list_skills(active: &Vec<String>, available: &Vec<String>) -> (r: String)
    ensures
        r@ == skill_list(texts(active@), texts(available@)),
{
    if available.len() == 0 {
        return "skills: none".to_owned();
    }
    let mut out: Vec<String> = Vec::new();
    let mut i: usize = 0;
    while i < available.len()
        invariant
            i <= available@.len(),
            out@.len() == i,
            forall|j: int|
                0 <= j < i ==> (#[trigger] out@[j])@ == skill_line(
                    texts(active@),
                    available@[j]@,
                ),
        decreases available@.len() - i,
    {
        out.push(
            if holds_name(active, &available[i]) {
                told("* ", &available[i])
            } else {
                told("  ", &available[i])
            },
        );
        i += 1;
    }
    assert(texts(out@) =~= texts(available@).map_values(
        |name: Seq<char>| skill_line(texts(active@), name),
    ));
    join(&out, "\n")
}

/// The file that holds a skill.
pub fn skill_path(dir: &str, name: &str) -> (r: String)
    ensures
        r@ == joined_path(dir@, name@ + ".md"@),
{
    join_path(dir, &told(name, ".md"))
}

// ---------------------------------------------------------------------------
// Laws
// ---------------------------------------------------------------------------

proof fn lemma_holds_inside(head: Seq<char>, t: Seq<char>, rest: Seq<char>, pat: Seq<char>)
    requires
        holds_text(t, pat),
    ensures
        holds_text(head + t + rest, pat),
{
    lemma_find(t, pat);
    let i = find(t, pat)->0;
    let whole = head + t + rest;
    let k = head.len() + i;
    assert(whole.subrange(k, k + pat.len()) =~= t.subrange(i, i + pat.len()));
    assert(occurs_at(whole, pat, k));
    lemma_find(whole, pat);
}

proof fn lemma_holds_itself(t: Seq<char>)
    ensures
        holds_text(t, t),
{
    assert(t.subrange(0, t.len() as int) =~= t);
    assert(occurs_at(t, t, 0));
    lemma_find(t, t);
}

proof fn lemma_joined_holds(parts: Seq<Seq<char>>, sep: Seq<char>, i: int)
    requires
        0 <= i < parts.len(),
    ensures
        holds_text(joined(parts, sep), parts[i]),
    decreases parts.len(),
{
    lemma_holds_itself(parts[i]);
    if parts.len() > 1 {
        let head = joined(parts.drop_last(), sep);
        if i == parts.len() - 1 {
            assert((head + sep) + parts[i] + seq![] =~= joined(parts, sep));
            lemma_holds_inside(head + sep, parts[i], seq![], parts[i]);
        } else {
            lemma_joined_holds(parts.drop_last(), sep, i);
            assert(parts.drop_last()[i] == parts[i]);
            assert(seq![] + head + (sep + parts.last()) =~= joined(parts, sep));
            lemma_holds_inside(seq![], head, sep + parts.last(), parts[i]);
        }
    }
}

proof fn lemma_section_holds(title: Seq<char>, body: Seq<char>)
    ensures
        holds_text(titled(title, body), body),
{
    lemma_holds_itself(body);
    let head = "\n\n"@ + title + "\n"@;
    assert(head + body + seq![] =~= titled(title, body));
    lemma_holds_inside(head, body, seq![], body);
}

proof fn lemma_skill_held(skills: Seq<Seq<char>>, i: int)
    requires
        0 <= i < skills.len(),
        !is_blank(skills[i]),
    ensures
        holds_text(skill_sections(skills), skills[i]),
    decreases skills.len(),
{
    let head = skill_sections(skills.drop_last());
    let last = section("Skill:"@, skills.last());
    if i == skills.len() - 1 {
        lemma_section_holds("Skill:"@, skills[i]);
        assert(head + last + seq![] =~= skill_sections(skills));
        lemma_holds_inside(head, last, seq![], skills[i]);
    } else {
        lemma_skill_held(skills.drop_last(), i);
        assert(skills.drop_last()[i] == skills[i]);
        assert(seq![] + head + last =~= skill_sections(skills));
        lemma_holds_inside(seq![], head, last, skills[i]);
    }
}

/// What an agent is told holds the prompt, and the instructions and the plan of the
/// workspace where they say anything.
pub proof fn law_prompts_are_kept(prompt: Seq<char>, b: Background)
    ensures
        holds_text(merged(prompt, b), prompt),
        !is_blank(b.guide) ==> holds_text(merged(prompt, b), b.guide),
        !is_blank(b.plan) ==> holds_text(merged(prompt, b), b.plan),
{
    let guide = section("Workspace instructions:"@, b.guide);
    let plan = section("Session plan:"@, b.plan);
    let tail = notes_section(b.notes) + skill_sections(b.skills);
    lemma_holds_itself(prompt);
    assert(seq![] + prompt + (guide + plan + tail) =~= merged(prompt, b));
    lemma_holds_inside(seq![], prompt, guide + plan + tail, prompt);
    if !is_blank(b.guide) {
        lemma_section_holds("Workspace instructions:"@, b.guide);
        assert(prompt + guide + (plan + tail) =~= merged(prompt, b));
        lemma_holds_inside(prompt, guide, plan + tail, b.guide);
    }
    if !is_blank(b.plan) {
        lemma_section_holds("Session plan:"@, b.plan);
        assert((prompt + guide) + plan + tail =~= merged(prompt, b));
        lemma_holds_inside(prompt + guide, plan, tail, b.plan);
    }
}

/// What an agent is told holds every note.
pub proof fn law_notes_are_told(prompt: Seq<char>, b: Background, i: int)
    requires
        0 <= i < b.notes.len(),
    ensures
        holds_text(merged(prompt, b), b.notes[i]),
{
    let items = b.notes.map_values(|item: Seq<char>| "- "@ + item);
    let list = bulleted(b.notes);
    lemma_holds_itself(b.notes[i]);
    assert("- "@ + b.notes[i] + seq![] =~= items[i]);
    lemma_holds_inside("- "@, b.notes[i], seq![], b.notes[i]);
    lemma_joined_holds(items, "\n"@, i);
    lemma_find(list, items[i]);
    let k = find(list, items[i])->0;
    let head = list.take(k);
    let rest = list.skip(k + items[i].len());
    assert(head + items[i] + rest =~= list) by {
        assert(list.subrange(k, k + items[i].len()) == items[i]);
    }
    lemma_holds_inside(head, items[i], rest, b.notes[i]);
    let title = "\n\n"@ + "Memory notes:"@ + "\n"@;
    let notes = notes_section(b.notes);
    assert(title + list + seq![] =~= notes);
    lemma_holds_inside(title, list, seq![], b.notes[i]);
    let before = prompt + section("Workspace instructions:"@, b.guide) + section(
        "Session plan:"@,
        b.plan,
    );
    assert(before + notes + skill_sections(b.skills) =~= merged(prompt, b));
    lemma_holds_inside(before, notes, skill_sections(b.skills), b.notes[i]);
}

/// What an agent is told holds every skill that is switched on and says anything.
pub proof fn law_skills_are_told(prompt: Seq<char>, b: Background, i: int)
    requires
        0 <= i < b.skills.len(),
        !is_blank(b.skills[i]),
    ensures
        holds_text(merged(prompt, b), b.skills[i]),
{
    lemma_skill_held(b.skills, i);
    let before = prompt + section("Workspace instructions:"@, b.guide) + section(
        "Session plan:"@,
        b.plan,
    ) + notes_section(b.notes);
    assert(before + skill_sections(b.skills) + seq![] =~= merged(prompt, b));
    lemma_holds_inside(before, skill_sections(b.skills), seq![], b.skills[i]);
}

/// A workspace that adds nothing leaves the prompt alone.
pub proof fn law_bare_prompts_stay(prompt: Seq<char>)
    ensures
        merged(prompt, no_background()) == prompt,
{
    reveal_with_fuel(crate::text::run_len, 2);
    reveal_with_fuel(crate::text::trim_end, 2);
    assert(trimmed(seq![]).len() == 0);
    assert(merged(prompt, no_background()) =~= prompt);
}

/// Notes that were saved come back as they were.
pub proof fn law_saved_notes_come_back(notes: Seq<Seq<char>>)
    ensures
        notes_in(notes_model(notes)) == Some(notes),
{
    let none: Seq<(Seq<char>, JsonModel)> = seq![];
    lemma_added_member(none, "notes"@, text_list(notes), "notes"@);
    assert(member_place(none, "notes"@) is None);
    assert(none.push(("notes"@, text_list(notes))) =~= notes_model(notes)->Object_0);
    lemma_text_list(notes);
}

proof fn lemma_text_list(list: Seq<Seq<char>>)
    ensures
        all_texts(text_list(list)->Array_0) == Some(list),
    decreases list.len(),
{
    let values = text_list(list)->Array_0;
    if list.len() > 0 {
        lemma_text_list(list.drop_last());
        assert(values.drop_last() =~= text_list(list.drop_last())->Array_0);
        assert(list.drop_last().push(list.last()) =~= list);
    } else {
        assert(list =~= seq![]);
    }
}

/// A note that was added is the last one, behind those that there were.
pub proof fn law_added_notes_are_kept(notes: Seq<Seq<char>>, note: Seq<char>)
    requires
        !is_blank(note),
    ensures
        remembering(notes, "add "@ + note).0 == notes.push(trimmed(note)),
        remembering(notes, "clear"@).0.len() == 0,
        remembering(notes, "show"@).0 == notes,
{
    reveal_strlit("add ");
    reveal_strlit("show");
    reveal_strlit("clear");
    reveal_strlit("reload");
    let arg = "add "@ + note;
    assert(arg[0] == 'a' && "show"@[0] == 's' && "clear"@[0] == 'c' && "reload"@[0] == 'r');
    assert(arg.subrange(0, 4) =~= "add "@);
    assert(arg.skip(4) =~= note);
}

/// A skill that is switched on is active, one that is switched off is not, and neither
/// touches another.
pub proof fn law_skills_switch(active: Seq<Seq<char>>, name: Seq<char>, other: Seq<char>)
    requires
        name.len() > 0,
        other != name,
    ensures
        enabling(active, name).0.contains(name),
        !disabling(active, name).0.contains(name),
        enabling(active, name).0.contains(other) == active.contains(other),
        disabling(active, name).0.contains(other) == active.contains(other),
{
    lemma_lacking(active, name, name);
    lemma_lacking(active, name, other);
    if !active.contains(name) {
        let more = active.push(name);
        assert(more[active.len() as int] == name);
        if active.contains(other) {
            let i = choose|i: int| 0 <= i < active.len() && active[i] == other;
            assert(more[i] == other);
        }
    }
}

proof fn lemma_lacking(list: Seq<Seq<char>>, name: Seq<char>, other: Seq<char>)
    ensures
        lacking(list, name).contains(other) == (list.contains(other) && other != name),
    decreases list.len(),
{
    if list.len() > 0 {
        lemma_lacking(list.drop_last(), name, other);
        let short = lacking(list.drop_last(), name);
        let whole = lacking(list, name);
        if list.contains(other) {
            let i = choose|i: int| 0 <= i < list.len() && list[i] == other;
            if i < list.len() - 1 {
                assert(list.drop_last()[i] == other);
            }
        }
        if list.drop_last().contains(other) {
            let i = choose|i: int| 0 <= i < list.drop_last().len() && list.drop_last()[i] == other;
            assert(list[i] == other);
        }
        if list.last() != name {
            if short.contains(other) {
                let i = choose|i: int| 0 <= i < short.len() && short[i] == other;
                assert(whole[i] == other);
            }
            assert(whole[short.len() as int] == list.last());
            if whole.contains(other) {
                let i = choose|i: int| 0 <= i < whole.len() && whole[i] == other;
                if i < short.len() {
                    assert(short[i] == other);
                } else {
                    assert(list[list.len() - 1] == other);
                }
            }
        }
    }
}

// ---------------------------------------------------------------------------
// Laws of single steps
// ---------------------------------------------------------------------------

/// The instructions are the prompt, then what the workspace says, then the plan, each under its
/// title; what is blank adds nothing.
pub proof fn law_workspace_and_plan_follow_the_prompt(
    prompt: Seq<char>,
    guide: Seq<char>,
    plan: Seq<char>,
)
    ensures
        ({
            let b = Background { guide, plan, notes: seq![], skills: seq![] };
            let first = "\n\n"@ + "Workspace instructions:"@ + "\n"@ + guide;
            let second = "\n\n"@ + "Session plan:"@ + "\n"@ + plan;
            &&& !is_blank(guide) && !is_blank(plan) ==> merged(prompt, b) == prompt + first + second
            &&& !is_blank(guide) && is_blank(plan) ==> merged(prompt, b) == prompt + first
            &&& is_blank(guide) && !is_blank(plan) ==> merged(prompt, b) == prompt + second
            &&& is_blank(guide) && is_blank(plan) ==> merged(prompt, b) == prompt
        }),
{
    let b = Background { guide, plan, notes: seq![], skills: seq![] };
    let none: Seq<char> = seq![];
    let first = section("Workspace instructions:"@, guide);
    let second = section("Session plan:"@, plan);
    assert(merged(prompt, b) =~= prompt + first + second);
    assert(prompt + first + none =~= prompt + first);
    assert(prompt + none + second =~= prompt + second);
    assert(prompt + none + none =~= prompt);
}

/// The notes follow, each on a line behind a dash; without any nothing is added.
pub proof fn law_notes_follow_line_by_line(prompt: Seq<char>, b: Background, note: Seq<char>)
    requires
        b.skills.len() == 0,
    ensures
        b.notes.len() == 0 ==> merged(prompt, Background { notes: seq![note], ..b }) == merged(
            prompt,
            b,
        ) + ("\n\n"@ + "Memory notes:"@ + "\n"@ + ("- "@ + note)),
        b.notes.len() > 0 ==> merged(prompt, Background { notes: b.notes.push(note), ..b })
            == merged(prompt, b) + "\n"@ + ("- "@ + note),
{
    lemma_bulleted(b.notes, note);
    let none: Seq<char> = seq![];
    let head = prompt + section("Workspace instructions:"@, b.guide) + section(
        "Session plan:"@,
        b.plan,
    );
    assert(skill_sections(b.skills) =~= none);
    let one = seq![note];
    if b.notes.len() == 0 {
        assert(merged(prompt, b) =~= head);
        assert(merged(prompt, Background { notes: one, ..b }) =~= head + ("\n\n"@
            + "Memory notes:"@ + "\n"@ + ("- "@ + note)));
    } else {
        assert(merged(prompt, Background { notes: b.notes.push(note), ..b }) =~= merged(prompt, b)
            + "\n"@ + ("- "@ + note));
    }
}

proof fn lemma_bulleted(list: Seq<Seq<char>>, item: Seq<char>)
    ensures
        bulleted(seq![item]) == "- "@ + item,
        list.len() > 0 ==> bulleted(list.push(item)) == bulleted(list) + "\n"@ + ("- "@ + item),
{
    let dashed = |item: Seq<char>| "- "@ + item;
    let all = list.push(item).map_values(dashed);
    assert(all.drop_last() =~= list.map_values(dashed));
    assert(list.push(item).map_values(|item: Seq<char>| "- "@ + item) =~= all);
    assert(list.map_values(|item: Seq<char>| "- "@ + item) =~= list.map_values(dashed));
    assert(seq![item].map_values(|item: Seq<char>| "- "@ + item) =~= seq!["- "@ + item]);
}

/// Each item of a list stands on a line of its own behind a dash, in order.
pub proof fn law_items_are_listed_line_by_line(list: Seq<Seq<char>>, item: Seq<char>)
    ensures
        bulleted(seq![item]) == "- "@ + item,
        list.len() > 0 ==> bulleted(list.push(item)) == bulleted(list) + "\n"@ + ("- "@ + item),
{
    lemma_bulleted(list, item);
}

/// Each active skill follows under its own title, in order, and a blank one adds nothing.
pub proof fn law_skills_follow_one_by_one(prompt: Seq<char>, b: Background, skill: Seq<char>)
    ensures
        !is_blank(skill) ==> merged(prompt, Background { skills: b.skills.push(skill), ..b })
            == merged(prompt, b) + ("\n\n"@ + "Skill:"@ + "\n"@ + skill),
        is_blank(skill) ==> merged(prompt, Background { skills: b.skills.push(skill), ..b })
            == merged(prompt, b),
{
    assert(b.skills.push(skill).drop_last() =~= b.skills);
    let more = section("Skill:"@, skill);
    assert(merged(prompt, Background { skills: b.skills.push(skill), ..b }) =~= merged(prompt, b)
        + more);
    if is_blank(skill) {
        assert(merged(prompt, b) + more =~= merged(prompt, b));
    }
}

/// `/memory` shows the notes, clears them, reads them again or adds one; what is none of these
/// is told its usage and changes nothing.
pub proof fn law_memory_commands_are_carried_out(
    notes: Seq<Seq<char>>,
    note: Seq<char>,
    arg: Seq<char>,
)
    ensures
        remembering(notes, ""@) == (notes, MemoryWish::Info(shown_notes(notes))),
        remembering(notes, "show"@) == (notes, MemoryWish::Info(shown_notes(notes))),
        remembering(notes, "clear"@) == (
            Seq::<Seq<char>>::empty(),
            MemoryWish::Save("memory cleared"@),
        ),
        remembering(notes, "reload"@) == (notes, MemoryWish::Reload),
        !is_blank(note) ==> remembering(notes, "add "@ + note) == (
            notes.push(trimmed(note)),
            MemoryWish::Save("memory note added"@),
        ),
        is_blank(note) ==> remembering(notes, "add "@ + note) == (
            notes,
            MemoryWish::Error(MEMORY_USAGE@),
        ),
        arg.len() > 0 && arg != "show"@ && arg != "clear"@ && arg != "reload"@
            && !crate::text::begins(arg, "add "@) ==> remembering(notes, arg) == (
            notes,
            MemoryWish::Error(MEMORY_USAGE@),
        ),
{
    reveal_strlit("");
    reveal_strlit("show");
    reveal_strlit("clear");
    reveal_strlit("reload");
    reveal_strlit("add ");
    let more = "add "@ + note;
    assert(more.subrange(0, 4) =~= "add "@);
    assert(more.skip(4) =~= note);
    assert(more[0] == 'a');
    assert("show"@[0] == 's' && "clear"@[0] == 'c' && "reload"@[0] == 'r');
    assert("show"@.len() == 4 && "clear"@.len() == 5 && "reload"@.len() == 6);
}

/// The notes are shown line by line, or that there are none.
pub proof fn law_notes_are_shown(notes: Seq<Seq<char>>, note: Seq<char>)
    ensures
        shown_notes(seq![]) == "memory: no notes"@,
        shown_notes(seq![note]) == "memory notes:\n"@ + ("- "@ + note),
        notes.len() > 0 ==> shown_notes(notes.push(note)) == shown_notes(notes) + "\n"@ + ("- "@
            + note),
{
    lemma_bulleted(notes, note);
    if notes.len() > 0 {
        assert(shown_notes(notes.push(note)) =~= shown_notes(notes) + "\n"@ + ("- "@ + note));
    }
}

/// The notes are saved one by one and in order under their name, and read so; where one of them
/// is no text, or there is no list, nothing is read.
pub proof fn law_notes_are_saved_and_read(
    notes: Seq<Seq<char>>,
    value: JsonModel,
    shorter: JsonModel,
    values: Seq<JsonModel>,
    last: JsonModel,
)
    requires
        at_key(value, "notes"@) == JsonModel::Array(values.push(last)),
        at_key(shorter, "notes"@) == JsonModel::Array(values),
    ensures
        at_key(notes_model(notes), "notes"@) matches JsonModel::Array(items) && items.len()
            == notes.len() && forall|i: int|
            0 <= i < notes.len() ==> items[i] == JsonModel::Text(#[trigger] notes[i]),
        values.len() == 0 ==> notes_in(shorter) == Some(Seq::<Seq<char>>::empty()),
        notes_in(shorter) is Some && last is Text ==> notes_in(value) == Some(
            notes_in(shorter)->0.push(last->Text_0),
        ),
        notes_in(shorter) is None || !(last is Text) ==> notes_in(value) is None,
{
    assert(values.push(last).drop_last() =~= values);
    let none: Seq<(Seq<char>, JsonModel)> = seq![];
    assert(none.push(("notes"@, text_list(notes))) =~= seq![("notes"@, text_list(notes))]);
    crate::json::lemma_added_member(none, "notes"@, text_list(notes), "notes"@);
}

/// A skill that is enabled joins the active ones at their end and is told so; one that is
/// active already changes nothing.
pub proof fn law_enabled_skills_join(active: Seq<Seq<char>>, name: Seq<char>)
    requires
        name.len() > 0,
    ensures
        !active.contains(name) ==> enabling(active, name) == (
            active.push(name),
            SkillsWish::Save("skill enabled: "@ + name),
        ),
        active.contains(name) ==> enabling(active, name) == (
            active,
            SkillsWish::Info("skill already active: "@ + name),
        ),
        active.contains(name) ==> disabling(active, name).1 == SkillsWish::Save(
            "skill disabled: "@ + name,
        ),
        !active.contains(name) ==> disabling(active, name) == (
            active,
            SkillsWish::Info("skill not active: "@ + name),
        ),
        !active.contains(name) ==> disabling(enabling(active, name).0, name).0 == active,
{
    if !active.contains(name) {
        let more = active.push(name);
        assert(more.contains(name)) by {
            assert(more[active.len() as int] == name);
        }
        assert(more.drop_last() =~= active);
        lemma_nothing_lacks(active, name);
    }
}

proof fn lemma_nothing_lacks(list: Seq<Seq<char>>, name: Seq<char>)
    requires
        !list.contains(name),
    ensures
        lacking(list, name) == list,
    decreases list.len(),
{
    if list.len() > 0 {
        assert(list.contains(list[list.len() - 1]));
        let rest = list.drop_last();
        if rest.contains(name) {
            let i = choose|i: int| 0 <= i < rest.len() && rest[i] == name;
            assert(list[i] == name);
        }
        lemma_nothing_lacks(rest, name);
        assert(rest.push(list.last()) =~= list);
    }
}

/// The other skills stay active in their order when one is disabled.
pub proof fn law_other_skills_stay_in_order(
    active: Seq<Seq<char>>,
    name: Seq<char>,
    last: Seq<char>,
)
    ensures
        lacking(seq![], name).len() == 0,
        last != name ==> lacking(active.push(last), name) == lacking(active, name).push(last),
        last == name ==> lacking(active.push(last), name) == lacking(active, name),
{
    assert(active.push(last).drop_last() =~= active);
}

/// `/skills` shows the active skills, lists those on disk, reads them again, enables or
/// disables the one that is named; what is none of these is told its usage.
pub proof fn law_skills_commands_are_carried_out(
    active: Seq<Seq<char>>,
    name: Seq<char>,
    arg: Seq<char>,
)
    ensures
        switching(active, ""@) == (active, SkillsWish::Info(shown_skills(active))),
        switching(active, "show"@) == (active, SkillsWish::Info(shown_skills(active))),
        switching(active, "list"@) == (active, SkillsWish::List),
        switching(active, "reload"@) == (active, SkillsWish::Reload),
        switching(active, "enable "@ + name) == enabling(active, trimmed(name)),
        switching(active, "disable "@ + name) == disabling(active, trimmed(name)),
        arg.len() > 0 && arg != "show"@ && arg != "list"@ && arg != "reload"@
            && !crate::text::begins(arg, "enable "@) && !crate::text::begins(arg, "disable "@)
            ==> switching(active, arg) == (active, SkillsWish::Error(SKILLS_USAGE@)),
{
    reveal_strlit("");
    reveal_strlit("show");
    reveal_strlit("list");
    reveal_strlit("reload");
    reveal_strlit("enable ");
    reveal_strlit("disable ");
    let on = "enable "@ + name;
    let off = "disable "@ + name;
    assert(on.subrange(0, 7) =~= "enable "@);
    assert(on.skip(7) =~= name);
    assert(off.subrange(0, 8) =~= "disable "@);
    assert(off.skip(8) =~= name);
    assert(on[0] == 'e' && off[0] == 'd');
    assert("show"@[0] == 's' && "list"@[0] == 'l' && "reload"@[0] == 'r');
    assert("show"@.len() == 4 && "list"@.len() == 4 && "reload"@.len() == 6);
    if crate::text::begins(off, "enable "@) {
        assert(off.subrange(0, 7)[0] == off[0]);
    }
}

/// The active skills are told in order, with commas between; the skills on disk a line each,
/// the active ones with a star.
pub proof fn law_skills_are_listed(
    active: Seq<Seq<char>>,
    available: Seq<Seq<char>>,
    name: Seq<char>,
)
    ensures
        shown_skills(seq![]) == "active skills: "@ + "none"@,
        shown_skills(seq![name]) == "active skills: "@ + name,
        active.len() > 0 ==> shown_skills(active.push(name)) == shown_skills(active) + ", "@ + name,
        active.contains(name) ==> skill_line(active, name) == "* "@ + name,
        !active.contains(name) ==> skill_line(active, name) == "  "@ + name,
        skill_list(active, seq![]) == "skills: none"@,
        skill_list(active, seq![name]) == skill_line(active, name),
        available.len() > 0 ==> skill_list(active, available.push(name)) == skill_list(
            active,
            available,
        ) + "\n"@ + skill_line(active, name),
{
    assert(active.push(name).drop_last() =~= active);
    if active.len() > 0 {
        assert(shown_skills(active.push(name)) =~= shown_skills(active) + ", "@ + name);
    }
    let told = |n: Seq<char>| skill_line(active, n);
    let all = available.push(name).map_values(told);
    assert(all.drop_last() =~= available.map_values(told));
    assert(available.push(name).map_values(|name: Seq<char>| skill_line(active, name)) =~= all);
    assert(available.map_values(|name: Seq<char>| skill_line(active, name))
        =~= available.map_values(told));
    assert(seq![name].map_values(|name: Seq<char>| skill_line(active, name)) =~= seq![
        skill_line(active, name),
    ]);
}

/// A file without a list of notes has none that could be read.
pub proof fn law_other_files_hold_no_notes(value: JsonModel)
    requires
        !(at_key(value, "notes"@) is Array),
    ensures
        notes_in(value) is None,
{
}

/// A skill that is not named is asked for.
pub proof fn law_unnamed_skills_are_asked_for(active: Seq<Seq<char>>, blank: Seq<char>)
    requires
        is_blank(blank),
    ensures
        switching(active, "enable "@ + blank) == (active, SkillsWish::Error(SKILLS_USAGE@)),
        switching(active, "disable "@ + blank) == (active, SkillsWish::Error(SKILLS_USAGE@)),
{
    law_skills_commands_are_carried_out(active, blank, blank);
}

/// Nothing told is an empty background.
pub proof fn law_no_background_is_empty()
    ensures
        no_background().guide.len() == 0,
        no_background().plan.len() == 0,
        no_background().notes.len() == 0,
        no_background().skills.len() == 0,
{
}

}
