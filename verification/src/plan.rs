//! The plan: what a session is about, which files it changed and what comes next.
use crate::context::{bulleted, bullets, holds_name};
use crate::text::{holds_text, texts};
use crate::tools::{Ending, TurnEnd};
use vstd::prelude::*;
use vstd::string::*;

verus! {

broadcast use {vstd::seq::group_seq_axioms, vstd::string::group_string_axioms};

/// The plan of a session.
#[derive(Debug)]
pub struct Plan {
    pub summary: Vec<String>,
    pub files: Vec<String>,
    pub next: Vec<String>,
}

/// The plan of a session as a mathematical object.
pub ghost struct Outline {
    pub summary: Seq<Seq<char>>,
    pub files: Seq<Seq<char>>,
    pub next: Seq<Seq<char>>,
}

impl View for Plan {
    type V = Outline;

    open spec fn view(&self) -> Outline {
        Outline {
            summary: texts(self.summary@),
            files: texts(self.files@),
            next: texts(self.next@),
        }
    }
}

/// The items of a list, or that there are none.
pub open spec fn items_or_none(list: Seq<Seq<char>>) -> Seq<char> {
    if list.len() == 0 {
        "- none"@
    } else {
        bulleted(list)
    }
}

/// The text of a plan.
pub open spec fn plan_lines(p: Outline) -> Seq<char> {
    "# PLAN\n\n## Summary\n\n"@ + items_or_none(p.summary) + "\n\n## Files Changed\n\n"@
        + items_or_none(p.files) + "\n\n## Next Steps\n\n"@ + items_or_none(p.next) + "\n"@
}

/// A plan after a file was written: it names each file once.
pub open spec fn with_file(p: Outline, path: Seq<char>) -> Outline {
    if p.files.contains(path) {
        p
    } else {
        Outline { files: p.files.push(path), ..p }
    }
}

/// A plan after a turn that ended the work on a prompt.
pub open spec fn closed_by(p: Outline, end: TurnEnd) -> Outline {
    match end {
        TurnEnd::Final { summary } => Outline { summary: seq![summary], next: seq![], ..p },
        TurnEnd::Blocked { reason } => Outline { next: seq!["blocked: "@ + reason], ..p },
        TurnEnd::NeedsWorker { task } => Outline { next: seq!["worker: "@ + task], ..p },
    }
}

/// What is noted of an interruption.
pub open spec fn interruption(id: Seq<char>) -> Seq<char> {
    "interrupted; resume with /session resume "@ + id + " or --resume-session "@ + id
}

/// A plan after an interruption.
pub open spec fn interrupted_in(p: Outline, id: Seq<char>) -> Outline {
    Outline { next: p.next.push(interruption(id)), ..p }
}

fn single(item: String) -> (r: Vec<String>)
    ensures
        texts(r@) == seq![item@],
{
    let ghost t = item@;
    let mut list: Vec<String> = Vec::new();
    list.push(item);
    assert(texts(list@) =~= seq![t]);
    list
}

fn behind(head: &str, rest: &str) -> (r: String)
    ensures
        r@ == head@ + rest@,
{
    let mut out = head.to_owned();
    out.append(rest);
    out
}

fn list_text(list: &Vec<String>) -> (r: String)
    ensures
        r@ == items_or_none(texts(list@)),
{
    if list.len() == 0 {
        "- none".to_owned()
    } else {
        bullets(list)
    }
}

impl Plan {
    /// The plan of a session about `title`.
    pub fn new(title: &str) -> (r: Plan)
        ensures
            r@ == (Outline { summary: seq![title@], files: seq![], next: seq![] }),
    {
        let r = Plan { summary: single(title.to_owned()), files: Vec::new(), next: Vec::new() };
        assert(r@.files =~= seq![]);
        assert(r@.next =~= seq![]);
        r
    }

    /// Notes a file that was written.
    pub fn wrote(&mut self, path: &str)
        ensures
            final(self)@ == with_file(old(self)@, path@),
    {
        if !holds_name(&self.files, path) {
            let ghost had = texts(self.files@);
            self.files.push(path.to_owned());
            assert(texts(self.files@) =~= had.push(path@));
        }
    }

    /// Notes how the work on a prompt ended.
    pub fn close(&mut self, end: &Ending)
        ensures
            final(self)@ == closed_by(old(self)@, end@),
    {
        match end {
            Ending::Final { summary } => {
                self.summary = single(summary.clone());
                self.next = Vec::new();
                assert(self@.next =~= seq![]);
            },
            Ending::Blocked { reason } => {
                self.next = single(behind("blocked: ", reason));
            },
            Ending::NeedsWorker { task } => {
                self.next = single(behind("worker: ", task));
            },
        }
    }

    /// Notes an interruption of the session of a given id.
    pub fn interrupt(&mut self, id: &str)
        ensures
            final(self)@ == interrupted_in(old(self)@, id@),
    {
        let mut note = behind("interrupted; resume with /session resume ", id);
        note.append(" or --resume-session ");
        note.append(id);
        let ghost had = texts(self.next@);
        let ghost new = note@;
        self.next.push(note);
        assert(texts(self.next@) =~= had.push(new));
    }

    /// The text of the plan.
    pub fn text(&self) -> (r: String)
        ensures
            r@ == plan_lines(self@),
    {
        let mut out = "# PLAN\n\n## Summary\n\n".to_owned();
        out.append(list_text(&self.summary).as_str());
        out.append("\n\n## Files Changed\n\n");
        out.append(list_text(&self.files).as_str());
        out.append("\n\n## Next Steps\n\n");
        out.append(list_text(&self.next).as_str());
        out.append("\n");
        out
    }
}

// ---------------------------------------------------------------------------
// Laws
// ---------------------------------------------------------------------------

/// A plan names every file that was written, and each of them once.
pub proof fn law_plans_name_each_file_once(p: Outline, path: Seq<char>)
    requires
        p.files.no_duplicates(),
    ensures
        with_file(p, path).files.contains(path),
        with_file(p, path).files.no_duplicates(),
        forall|i: int|
            0 <= i < p.files.len() ==> with_file(p, path).files.contains(#[trigger] p.files[i]),
{
    let after = with_file(p, path).files;
    if !p.files.contains(path) {
        assert(after[p.files.len() as int] == path);
    }
    assert forall|i: int| 0 <= i < p.files.len() implies after.contains(#[trigger] p.files[i]) by {
        assert(after[i] == p.files[i]);
    }
}

/// The plan of a session that was interrupted says how it is taken up again.
pub proof fn law_interruptions_are_noted(p: Outline, id: Seq<char>)
    ensures
        interrupted_in(p, id).next.last() == interruption(id),
        interrupted_in(p, id).summary == p.summary,
        interrupted_in(p, id).files == p.files,
        holds_text(interruption(id), id),
{
    let head = "interrupted; resume with /session resume "@;
    let whole = interruption(id);
    let k = head.len() as int;
    assert(whole.subrange(k, k + id.len()) =~= id);
    assert(crate::text::occurs_at(whole, id, k));
    crate::text::lemma_find(whole, id);
}

/// A plan is its summary, the files that were changed and the next steps, each a list under its
/// title or a line that there is none.
pub proof fn law_plans_are_written_out(p: Outline, item: Seq<char>)
    ensures
        plan_lines(p) == "# PLAN\n\n## Summary\n\n"@ + items_or_none(p.summary)
            + "\n\n## Files Changed\n\n"@ + items_or_none(p.files) + "\n\n## Next Steps\n\n"@
            + items_or_none(p.next) + "\n"@,
        items_or_none(seq![]) == "- none"@,
        items_or_none(seq![item]) == "- "@ + item,
        p.files.len() > 0 ==> items_or_none(p.files.push(item)) == items_or_none(p.files) + "\n"@ + (
        "- "@ + item),
{
    crate::context::law_items_are_listed_line_by_line(p.files, item);
}

/// A file that was changed goes behind the others, and one that is named already changes
/// nothing; the rest of the plan stays.
pub proof fn law_changed_files_go_behind(p: Outline, path: Seq<char>)
    ensures
        !p.files.contains(path) ==> with_file(p, path).files == p.files.push(path),
        p.files.contains(path) ==> with_file(p, path) == p,
        with_file(p, path).summary == p.summary,
        with_file(p, path).next == p.next,
{
}

/// Work that is done is summed up and leaves no next step; work that is blocked or needs a
/// worker leaves the reason or the task as the next step. The files stay.
pub proof fn law_plans_end_as_the_work_does(p: Outline, text: Seq<char>)
    ensures
        closed_by(p, TurnEnd::Final { summary: text }) == (Outline {
            summary: seq![text],
            files: p.files,
            next: seq![],
        }),
        closed_by(p, TurnEnd::Blocked { reason: text }) == (Outline {
            summary: p.summary,
            files: p.files,
            next: seq!["blocked: "@ + text],
        }),
        closed_by(p, TurnEnd::NeedsWorker { task: text }) == (Outline {
            summary: p.summary,
            files: p.files,
            next: seq!["worker: "@ + text],
        }),
{
}

/// An interruption is a next step behind the others, which says how the session is taken up.
pub proof fn law_interruptions_go_behind(p: Outline, id: Seq<char>)
    ensures
        interrupted_in(p, id).next == p.next.push(
            "interrupted; resume with /session resume "@ + id + " or --resume-session "@ + id,
        ),
{
}

}
