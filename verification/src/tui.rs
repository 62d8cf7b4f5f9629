//! The full-screen interface: what it shows, where, and how keys and the mouse change it.
use crate::config::{access_name, permission_word, provider_word, Config, PermissionMode};
use crate::sessions::{keep_last, last_of};
use crate::text::{
    after, begins, chars_of, lines, repeat, repeated, run_from, run_len, split_lines, starts,
    strip_prefix_of, texts, trim_end, trim_end_of, trim_start, trim_start_of, trim_white, trimmed,
    without_prefix, CharClass,
};
use crate::thinking::{filter_tui_content_delta, filtered, shown};
use crate::tools::{call_line, charge_of, Charge, ToolCall, ToolUse};
use ratatui::layout;
use vstd::prelude::*;
use vstd::string::*;

verus! {

broadcast use {vstd::seq::group_seq_axioms, vstd::string::group_string_axioms};

// ---------------------------------------------------------------------------
// Styled text
// ---------------------------------------------------------------------------

/// The colours in use.
#[derive(Debug, Clone, Copy, PartialEq, Eq, Structural)]
pub enum Color {
    Black,
    Red,
    Green,
    Yellow,
    Blue,
    Cyan,
    DarkGray,
    LightBlue,
}

/// How text looks.
#[derive(Debug, Clone, Copy, PartialEq, Eq, Structural)]
pub struct Look {
    pub fg: Option<Color>,
    pub bg: Option<Color>,
    pub bold: bool,
}

/// A piece of text with its look.
#[derive(Debug)]
pub struct Span {
    pub text: String,
    pub look: Look,
}

/// A line of text: its own look, and pieces that may differ from it.
#[derive(Debug)]
pub struct StyledLine {
    pub look: Look,
    pub spans: Vec<Span>,
}

/// A line of text as a mathematical object.
pub ghost struct Shown {
    pub look: Look,
    pub spans: Seq<(Seq<char>, Look)>,
}

impl View for StyledLine {
    type V = Shown;

    open spec fn view(&self) -> Shown {
        Shown {
            look: self.look,
            spans: Seq::new(self.spans@.len(), |i: int| (self.spans@[i].text@, self.spans@[i].look)),
        }
    }
}

/// What some lines show.
pub open spec fn shown_lines(list: Seq<StyledLine>) -> Seq<Shown> {
    Seq::new(list.len(), |i: int| list[i]@)
}

/// Text as it comes.
pub open spec fn plain_look() -> Look {
    Look { fg: None, bg: None, bold: false }
}

/// Text of a colour.
pub open spec fn colored(c: Color) -> Look {
    Look { fg: Some(c), bg: None, bold: false }
}

/// Bold text of a colour.
pub open spec fn strong(c: Color) -> Look {
    Look { fg: Some(c), bg: None, bold: true }
}

/// A line of one look.
pub open spec fn line_in(text: Seq<char>, look: Look) -> Shown {
    Shown { look, spans: seq![(text, plain_look())] }
}

/// A line without a look of its own.
pub open spec fn line_of(spans: Seq<(Seq<char>, Look)>) -> Shown {
    Shown { look: plain_look(), spans }
}

fn plain() -> (r: Look)
    ensures
        r == plain_look(),
{
    Look { fg: None, bg: None, bold: false }
}

fn color(c: Color) -> (r: Look)
    ensures
        r == colored(c),
{
    Look { fg: Some(c), bg: None, bold: false }
}

fn bold(c: Color) -> (r: Look)
    ensures
        r == strong(c),
{
    Look { fg: Some(c), bg: None, bold: true }
}

fn styled_line(text: String, look: Look) -> (r: StyledLine)
    ensures
        r@ == line_in(text@, look),
{
    let mut spans: Vec<Span> = Vec::new();
    spans.push(Span { text, look: plain() });
    let r = StyledLine { look, spans };
    assert(r@.spans =~= seq![(text@, plain_look())]);
    r
}

fn plain_line(text: &str) -> (r: StyledLine)
    ensures
        r@ == line_in(text@, plain_look()),
{
    styled_line(text.to_owned(), plain())
}

fn span(text: &str, look: Look) -> (r: Span)
    ensures
        r.text@ == text@,
        r.look == look,
{
    Span { text: text.to_owned(), look }
}

// ---------------------------------------------------------------------------
// Markdown
// ---------------------------------------------------------------------------

/// The level and the text of a heading.
pub open spec fn heading_in(line: Seq<char>) -> Option<(nat, Seq<char>)> {
    let level = run_len(line, CharClass::Is('#'));
    if 1 <= level <= 6 && level < line.len() && line[level as int] == ' ' {
        Some((level, line.skip(level as int + 1)))
    } else {
        None
    }
}

/// The level and the text of a heading.
pub fn tui_heading(line: &str) -> (r: Option<(usize, String)>)
    ensures
        match r {
            Some((level, text)) => heading_in(line@) == Some((level as nat, text@)),
            None => heading_in(line@) is None,
        },
{
    let chars = chars_of(line);
    assert(chars@.skip(0) =~= chars@);
    let level: usize = run_from(&chars, 0, CharClass::Is('#'));
    if 1 <= level && level <= 6 && level < chars.len() && chars[level] == ' ' {
        Some((level, after(line, level + 1)))
    } else {
        None
    }
}

/// The text of an item of a list.
pub open spec fn item_in(line: Seq<char>) -> Option<Seq<char>> {
    match without_prefix(line, "- "@) {
        Some(item) => Some(item),
        None => without_prefix(line, "* "@),
    }
}

/// What a line of markdown shows, and whether code goes on behind it.
pub open spec fn shown_line(raw: Seq<char>, in_code: bool) -> (Shown, bool) {
    let line = trim_start(raw, CharClass::White);
    if begins(line, "```"@) {
        (line_in(line, colored(Color::DarkGray)), !in_code)
    } else if in_code {
        (
            line_in(
                raw,
                Look { fg: Some(Color::LightBlue), bg: Some(Color::Black), bold: false },
            ),
            true,
        )
    } else {
        (
            match heading_in(line) {
                Some((level, text)) => line_in(
                    repeated('#', level) + " "@ + text,
                    strong(Color::Cyan),
                ),
                None => match item_in(line) {
                    Some(item) => line_of(
                        seq![("  - "@, colored(Color::Yellow)), (item, plain_look())],
                    ),
                    None => if begins(line, ">"@) {
                        line_in(
                            "| "@ + trim_start(
                                trim_start(line, CharClass::Is('>')),
                                CharClass::White,
                            ),
                            colored(Color::DarkGray),
                        )
                    } else {
                        line_in(raw, plain_look())
                    },
                },
            },
            false,
        )
    }
}

/// What some lines of markdown show.
pub open spec fn shown_text(list: Seq<Seq<char>>, in_code: bool) -> Seq<Shown>
    decreases list.len(),
{
    if list.len() == 0 {
        seq![]
    } else {
        let (line, next) = shown_line(list[0], in_code);
        seq![line] + shown_text(list.skip(1), next)
    }
}

/// What a text of markdown shows: at least an empty line.
pub open spec fn shown_markdown(text: Seq<char>) -> Seq<Shown> {
    if lines(text).len() == 0 {
        seq![line_in(""@, plain_look())]
    } else {
        shown_text(lines(text), false)
    }
}

fn item_line(item: &str) -> (r: StyledLine)
    ensures
        r@ == line_of(seq![("  - "@, colored(Color::Yellow)), (item@, plain_look())]),
{
    let mut spans: Vec<Span> = Vec::new();
    spans.push(span("  - ", color(Color::Yellow)));
    spans.push(span(item, plain()));
    let r = StyledLine { look: plain(), spans };
    assert(r@.spans =~= seq![("  - "@, colored(Color::Yellow)), (item@, plain_look())]);
    r
}

fn render_line(raw: &str, in_code: bool) -> (r: (StyledLine, bool))
    ensures
        (r.0@, r.1) == shown_line(raw@, in_code),
{
    let line = trim_start_of(raw, CharClass::White);
    if starts(&line, "```") {
        return (styled_line(line, color(Color::DarkGray)), !in_code);
    }
    if in_code {
        let look = Look { fg: Some(Color::LightBlue), bg: Some(Color::Black), bold: false };
        return (styled_line(raw.to_owned(), look), true);
    }
    if let Some((level, text)) = tui_heading(&line) {
        let mut out = repeat('#', level);
        out.append(" ");
        out.append(text.as_str());
        return (styled_line(out, bold(Color::Cyan)), false);
    }
    if let Some(item) = strip_prefix_of(&line, "- ") {
        return (item_line(&item), false);
    }
    if let Some(item) = strip_prefix_of(&line, "* ") {
        return (item_line(&item), false);
    }
    if starts(&line, ">") {
        let mut out = "| ".to_owned();
        let quoted = trim_start_of(&trim_start_of(&line, CharClass::Is('>')), CharClass::White);
        out.append(quoted.as_str());
        return (styled_line(out, color(Color::DarkGray)), false);
    }
    (plain_line(raw), false)
}

/// What a text of markdown shows.
pub fn render_markdown_lines(text: &str) -> (r: Vec<StyledLine>)
    ensures
        shown_lines(r@) == shown_markdown(text@),
{
    let raw = split_lines(text);
    let ghost all = lines(text@);
    assert(all.len() == raw@.len());
    let mut out: Vec<StyledLine> = Vec::new();
    let mut in_code = false;
    let mut i: usize = 0;
    assert(all.skip(0) =~= all);
    assert(shown_lines(out@) + shown_text(all, false) =~= shown_text(all, false));
    while i < raw.len()
        invariant
            i <= raw@.len(),
            texts(raw@) == all,
            all.len() == raw@.len(),
            out@.len() == i,
            shown_lines(out@) + shown_text(all.skip(i as int), in_code) == shown_text(all, false),
        decreases raw@.len() - i,
    {
        let ghost had = shown_lines(out@);
        assert(all.skip(i as int)[0] == texts(raw@)[i as int]);
        assert(all.skip(i as int).skip(1) =~= all.skip(i + 1));
        let (line, next) = render_line(&raw[i], in_code);
        let ghost l = line@;
        in_code = next;
        out.push(line);
        proof {
            assert(shown_lines(out@) =~= had + seq![l]);
            let more = shown_text(all.skip(i + 1), next);
            assert(had + seq![l] + more =~= had + (seq![l] + more));
        }
        i += 1;
    }
    assert(all.skip(all.len() as int) =~= seq![]);
    if out.len() == 0 {
        out.push(plain_line(""));
        assert(shown_lines(out@) =~= seq![line_in(""@, plain_look())]);
    } else {
        assert(shown_lines(out@) =~= shown_text(all, false));
    }
    out
}

// ---------------------------------------------------------------------------
// The transcript
// ---------------------------------------------------------------------------

/// Who an item of the transcript is from.
#[derive(Debug, Clone, Copy, PartialEq, Eq, Structural)]
pub enum Speaker {
    User,
    Assistant,
    System,
    Error,
}

/// An item of the transcript.
#[derive(Debug)]
pub struct TranscriptItem {
    pub speaker: Speaker,
    pub content: String,
}

/// An item of the transcript as a mathematical object.
pub ghost struct Entry {
    pub speaker: Speaker,
    pub content: Seq<char>,
}

impl View for TranscriptItem {
    type V = Entry;

    open spec fn view(&self) -> Entry {
        Entry { speaker: self.speaker, content: self.content@ }
    }
}

/// The entries of a transcript.
pub open spec fn entries(list: Seq<TranscriptItem>) -> Seq<Entry> {
    Seq::new(list.len(), |i: int| list[i]@)
}

impl TranscriptItem {
    /// An item.
    pub fn new(speaker: Speaker, content: String) -> (r: TranscriptItem)
        ensures
            r@ == (Entry { speaker, content: content@ }),
    {
        TranscriptItem { speaker, content }
    }
}

/// The line above an item.
pub open spec fn speaker_line(speaker: Speaker) -> Shown {
    line_of(
        seq![
            match speaker {
                Speaker::User => ("user> "@, strong(Color::Green)),
                Speaker::Assistant => ("assistant> "@, strong(Color::Cyan)),
                Speaker::System => ("system> "@, strong(Color::Yellow)),
                Speaker::Error => ("error> "@, strong(Color::Red)),
            },
        ],
    )
}

/// What an item shows: who speaks, what they say, and an empty line.
pub open spec fn shown_entry(e: Entry) -> Seq<Shown> {
    seq![speaker_line(e.speaker)] + shown_markdown(e.content) + seq![line_in(""@, plain_look())]
}

/// What a transcript shows.
pub open spec fn shown_transcript(list: Seq<Entry>) -> Seq<Shown>
    decreases list.len(),
{
    if list.len() == 0 {
        seq![]
    } else {
        shown_transcript(list.drop_last()) + shown_entry(list.last())
    }
}

/// What an item shows.
pub fn render_transcript_item(item: &TranscriptItem) -> (r: Vec<StyledLine>)
    ensures
        shown_lines(r@) == shown_entry(item@),
{
    let head = match item.speaker {
        Speaker::User => span("user> ", bold(Color::Green)),
        Speaker::Assistant => span("assistant> ", bold(Color::Cyan)),
        Speaker::System => span("system> ", bold(Color::Yellow)),
        Speaker::Error => span("error> ", bold(Color::Red)),
    };
    let mut spans: Vec<Span> = Vec::new();
    spans.push(head);
    let first = StyledLine { look: plain(), spans };
    assert(first@.spans =~= speaker_line(item.speaker).spans);
    let mut out: Vec<StyledLine> = Vec::new();
    out.push(first);
    let mut body = render_markdown_lines(&item.content);
    let ghost b = body@;
    out.append(&mut body);
    out.push(plain_line(""));
    assert(shown_lines(out@) =~= shown_entry(item@)) by {
        assert(shown_lines(b) == shown_markdown(item.content@));
        assert(forall|i: int| 0 <= i < b.len() ==> shown_lines(b)[i] == (#[trigger] b[i])@);
        assert(forall|i: int| 0 <= i < b.len() ==> shown_lines(out@)[i + 1] == shown_lines(b)[i]);
    }
    out
}

/// What a transcript shows.
pub fn transcript_lines(transcript: &Vec<TranscriptItem>) -> (r: Vec<StyledLine>)
    ensures
        shown_lines(r@) == shown_transcript(entries(transcript@)),
{
    let ghost all = entries(transcript@);
    let mut out: Vec<StyledLine> = Vec::new();
    let mut i: usize = 0;
    assert(all.take(0) =~= seq![]);
    assert(shown_lines(out@) =~= seq![]);
    while i < transcript.len()
        invariant
            i <= transcript@.len(),
            all == entries(transcript@),
            shown_lines(out@) == shown_transcript(all.take(i as int)),
        decreases transcript@.len() - i,
    {
        let ghost had = out@;
        assert(all.take(i + 1).drop_last() =~= all.take(i as int));
        assert(all.take(i + 1).last() == transcript@[i as int]@);
        let mut item = render_transcript_item(&transcript[i]);
        let ghost more = item@;
        out.append(&mut item);
        assert(shown_lines(had + more) =~= shown_lines(had) + shown_lines(more));
        i += 1;
    }
    assert(all.take(all.len() as int) =~= all);
    out
}

/// The number of lines that a transcript shows.
pub fn transcript_content_len(transcript: &Vec<TranscriptItem>) -> (r: usize)
    ensures
        r == shown_transcript(entries(transcript@)).len(),
{
    let all = transcript_lines(transcript);
    assert(shown_lines(all@).len() == all@.len());
    all.len()
}

/// The number of items that a transcript keeps.
pub const MAX_TUI_HISTORY: usize = 400;

/// Drops the items that a transcript does not keep.
pub fn trim_transcript(transcript: &mut Vec<TranscriptItem>)
    ensures
        entries(final(transcript)@) == last_of(entries(old(transcript)@), MAX_TUI_HISTORY as int),
{
    let ghost before = transcript@;
    keep_last(transcript, MAX_TUI_HISTORY);
    assert(entries(last_of(before, 400)) =~= last_of(entries(before), 400));
}


// ---------------------------------------------------------------------------
// Layout
// ---------------------------------------------------------------------------

/// A part of the screen.
#[derive(Debug, Clone, Copy, PartialEq, Eq, Structural)]
pub struct Rect {
    pub x: u16,
    pub y: u16,
    pub width: u16,
    pub height: u16,
}

/// The size that a part of the screen is to have.
#[derive(Debug, Clone, Copy, PartialEq, Eq, Structural)]
pub enum Constraint {
    Length(u16),
    Min(u16),
    Percentage(u16),
}

/// The parts of the screen.
#[derive(Debug, Clone, Copy)]
pub struct TuiLayout {
    pub title: Rect,
    pub state: Rect,
    pub transcript: Rect,
    pub input: Rect,
}

/// The number that a wish names.
pub open spec fn wished(wish: Constraint) -> nat {
    match wish {
        Constraint::Length(n) => n as nat,
        Constraint::Min(n) => n as nat,
        Constraint::Percentage(n) => n as nat,
    }
}

/// The sum of the numbers that wishes name.
pub open spec fn total(wishes: Seq<Constraint>) -> nat
    decreases wishes.len(),
{
    if wishes.len() == 0 {
        0
    } else {
        total(wishes.drop_last()) + wished(wishes.last())
    }
}

/// The sum of the sizes of parts, where a part that has a least size gets `extra` besides.
pub open spec fn stretched(wishes: Seq<Constraint>, extra: int) -> int
    decreases wishes.len(),
{
    if wishes.len() == 0 {
        0
    } else {
        stretched(wishes.drop_last(), extra) + wished(wishes.last()) + (if wishes.last() is Min {
            extra
        } else {
            0
        })
    }
}

/// Whether wishes are shares of the whole, and not of more than it.
pub open spec fn are_shares(wishes: Seq<Constraint>) -> bool {
    &&& forall|i: int| 0 <= i < wishes.len() ==> (#[trigger] wishes[i]) is Percentage
    &&& total(wishes) <= 100
}

/// Whether wishes are up to three sizes of which one may grow.
pub open spec fn are_sizes(wishes: Seq<Constraint>) -> bool {
    &&& wishes.len() <= 3
    &&& forall|i: int| 0 <= i < wishes.len() ==> !((#[trigger] wishes[i]) is Percentage)
    &&& exists|i: int| 0 <= i < wishes.len() && (#[trigger] wishes[i]) is Min
    &&& forall|i: int, j: int|
        0 <= i < wishes.len() && 0 <= j < wishes.len() && (#[trigger] wishes[i]) is Min && (
        #[trigger] wishes[j]) is Min ==> i == j
}

/// A sum, at most the largest number of its type.
pub open spec fn capped(a: u16, b: u16) -> u16 {
    if a + b <= u16::MAX {
        (a + b) as u16
    } else {
        u16::MAX
    }
}

/// Where a length begins in the direction in which the whole is split.
pub open spec fn begin_of(vertical: bool, r: Rect) -> int {
    if vertical {
        r.y as int
    } else {
        r.x as int
    }
}

/// How long a part is in the direction in which the whole is split.
pub open spec fn length_of(vertical: bool, r: Rect) -> int {
    if vertical {
        r.height as int
    } else {
        r.width as int
    }
}

/// How long the whole is in the direction in which it is split, as far as coordinates reach.
pub open spec fn room(vertical: bool, r: Rect) -> int {
    if vertical {
        capped(r.y, r.height) - r.y
    } else {
        capped(r.x, r.width) - r.x
    }
}

/// The place at which a share of a length ends, rounded to the nearest.
pub open spec fn cut(begin: int, length: int, percent: int) -> int {
    (100 * begin + percent * length + 50) / 100
}

/// `ratatui::layout::Layout::split`, with its default settings: one part for each wish, one
/// below the other or side by side, each as wide or as high as the whole and inside it, and
/// none before the end of the one before it. Shares that do not exceed the whole are cut
/// at the nearest places. Sizes that the whole has room for are kept, one right behind the
/// other, and the one that may grow takes what is left. Sizes that there is no room for fill
/// the whole, one right behind the other: the one that may grow has its least size, as far
/// as there is room, and none of the others is larger than wished. How those share what is
/// left is up to its solver, which may settle it in more than one way: nothing more is
/// claimed of it.
#[verifier::external_body]
fn split_area(vertical: bool, constraints: &Vec<Constraint>, area: Rect) -> (r: Vec<Rect>)
    requires
        are_shares(constraints@) || are_sizes(constraints@),
    ensures
        r@.len() == constraints@.len(),
        vertical ==> forall|i: int|
            0 <= i < r@.len() ==> (#[trigger] r@[i]).x == area.x && r@[i].width == area.width
                && spans_rows(r@[i], area),
        !vertical ==> forall|i: int|
            0 <= i < r@.len() ==> (#[trigger] r@[i]).y == area.y && r@[i].height == area.height
                && spans_columns(r@[i], area),
        forall|i: int, j: int|
            0 <= i < j < r@.len() ==> begin_of(vertical, #[trigger] r@[i]) + length_of(
                vertical,
                r@[i],
            ) <= begin_of(vertical, #[trigger] r@[j]),
        are_shares(constraints@) ==> forall|i: int|
            0 <= i < r@.len() ==> begin_of(vertical, #[trigger] r@[i]) == cut(
                begin_of(vertical, area),
                room(vertical, area),
                total(constraints@.take(i)) as int,
            ) && begin_of(vertical, r@[i]) + length_of(vertical, r@[i]) == cut(
                begin_of(vertical, area),
                room(vertical, area),
                total(constraints@.take(i + 1)) as int,
            ),
        are_sizes(constraints@) && total(constraints@) <= room(vertical, area) ==> forall|i: int|
            0 <= i < r@.len() ==> begin_of(vertical, #[trigger] r@[i]) == begin_of(vertical, area)
                + stretched(constraints@.take(i), room(vertical, area) - total(constraints@))
                && begin_of(vertical, r@[i]) + length_of(vertical, r@[i]) == begin_of(
                vertical,
                area,
            ) + stretched(constraints@.take(i + 1), room(vertical, area) - total(constraints@)),
        are_sizes(constraints@) && total(constraints@) > room(vertical, area) ==> begin_of(
            vertical,
            r@[0],
        ) == begin_of(vertical, area) && begin_of(vertical, r@.last()) + length_of(
            vertical,
            r@.last(),
        ) == begin_of(vertical, area) + room(vertical, area),
        are_sizes(constraints@) && total(constraints@) > room(vertical, area) ==> forall|i: int|
            0 <= i < r@.len() - 1 ==> begin_of(vertical, #[trigger] r@[i]) + length_of(
                vertical,
                r@[i],
            ) == begin_of(vertical, r@[i + 1]),
        are_sizes(constraints@) && total(constraints@) > room(vertical, area) ==> forall|i: int|
            0 <= i < r@.len() ==> (if constraints@[i] is Min {
                length_of(vertical, #[trigger] r@[i]) == lesser(
                    wished(constraints@[i]),
                    room(vertical, area) as nat,
                )
            } else {
                length_of(vertical, r@[i]) <= wished(constraints@[i])
            }),
{
    let wishes = constraints.iter().map(|c| match c {
        Constraint::Length(n) => layout::Constraint::Length(*n),
        Constraint::Min(n) => layout::Constraint::Min(*n),
        Constraint::Percentage(n) => layout::Constraint::Percentage(*n),
    });
    let whole = layout::Rect { x: area.x, y: area.y, width: area.width, height: area.height };
    let splitter = match vertical {
        true => layout::Layout::vertical(wishes),
        false => layout::Layout::horizontal(wishes),
    };
    let part = |p: &layout::Rect| Rect { x: p.x, y: p.y, width: p.width, height: p.height };
    splitter.split(whole).iter().map(part).collect()
}

/// Whether the rows of a part are rows of the whole.
pub open spec fn spans_rows(part: Rect, whole: Rect) -> bool {
    whole.y <= part.y && part.y + part.height <= capped(whole.y, whole.height)
}

/// Whether the columns of a part are columns of the whole.
pub open spec fn spans_columns(part: Rect, whole: Rect) -> bool {
    whole.x <= part.x && part.x + part.width <= capped(whole.x, whole.width)
}

/// Whether a part is a band across the whole: as wide as it, and inside it.
pub open spec fn is_band(part: Rect, whole: Rect) -> bool {
    part.x == whole.x && part.width == whole.width && spans_rows(part, whole)
}

/// The rows of the screen.
pub open spec fn screen_rows() -> Seq<Constraint> {
    seq![Constraint::Length(5), Constraint::Min(8), Constraint::Length(3)]
}

/// The columns of its first row.
pub open spec fn title_columns() -> Seq<Constraint> {
    seq![Constraint::Percentage(70), Constraint::Percentage(30)]
}

proof fn lemma_screen_rows(extra: int)
    ensures
        are_sizes(screen_rows()),
        total(screen_rows()) == 16,
        stretched(screen_rows().take(0), extra) == 0,
        stretched(screen_rows().take(1), extra) == 5,
        stretched(screen_rows().take(2), extra) == 13 + extra,
        stretched(screen_rows().take(3), extra) == 16 + extra,
{
    let w = screen_rows();
    assert(w[1] is Min);
    assert(w.take(3) =~= w);
    assert(w.take(3).drop_last() =~= w.take(2));
    assert(w.take(2).drop_last() =~= w.take(1));
    assert(w.take(1).drop_last() =~= w.take(0));
    assert(w.take(1).last() == w[0] && w.take(2).last() == w[1] && w.take(3).last() == w[2]);
    assert(total(w.take(0)) == 0);
    assert(total(w.take(1)) == 5);
    assert(total(w.take(2)) == 13);
    assert(stretched(w.take(0), extra) == 0);
    assert(stretched(w.take(1), extra) == 5);
    assert(stretched(w.take(2), extra) == 13 + extra);
}

proof fn lemma_title_columns()
    ensures
        are_shares(title_columns()),
        total(title_columns().take(0)) == 0,
        total(title_columns().take(1)) == 70,
        total(title_columns().take(2)) == 100,
{
    let w = title_columns();
    assert(w.take(2) =~= w);
    assert(w.take(2).drop_last() =~= w.take(1));
    assert(w.take(1).drop_last() =~= w.take(0));
    assert(w.take(1).last() == w[0] && w.take(2).last() == w[1]);
    assert(total(w.take(0)) == 0);
    assert(total(w.take(1)) == 70);
}

/// The parts of the screen: the title and the state side by side, the transcript below
/// them, the input below that, and nothing between them. The title takes seven tenths of
/// its row. Where there is room for it, the first row has five lines, the input three and
/// the transcript all others; else the transcript has eight, as far as there is room, and
/// how the others share the rest is left open.
pub fn tui_layout(area: Rect) -> (r: TuiLayout)
    ensures
        is_band(r.transcript, area),
        is_band(r.input, area),
        r.title.y == r.state.y,
        r.title.height == r.state.height,
        spans_rows(r.title, area) && spans_columns(r.title, area),
        spans_rows(r.state, area) && spans_columns(r.state, area),
        r.title.y == area.y,
        r.title.y + r.title.height == r.transcript.y,
        r.transcript.y + r.transcript.height == r.input.y,
        r.input.y + r.input.height == area.y + room(true, area),
        r.title.x == area.x,
        r.title.x + r.title.width == cut(area.x as int, room(false, area), 70),
        r.state.x == r.title.x + r.title.width,
        r.state.x + r.state.width == area.x + room(false, area),
        room(true, area) >= 16 ==> r.title.height == 5 && r.transcript.height == room(true, area)
            - 8 && r.input.height == 3,
        room(true, area) < 16 ==> r.title.height <= 5 && r.transcript.height == lesser(
            8,
            room(true, area) as nat,
        ) && r.input.height <= 3,
{
    let wishes = vec![Constraint::Length(5), Constraint::Min(8), Constraint::Length(3)];
    proof {
        assert(wishes@ =~= screen_rows());
        lemma_screen_rows(room(true, area) - 16);
    }
    let rows = split_area(true, &wishes, area);
    let columns = vec![Constraint::Percentage(70), Constraint::Percentage(30)];
    proof {
        assert(columns@ =~= title_columns());
        lemma_title_columns();
    }
    let top = split_area(false, &columns, rows[0]);
    TuiLayout { title: top[0], state: top[1], transcript: rows[1], input: rows[2] }
}

/// The percentages that leave `percent` in the middle.
pub open spec fn margins(percent: u16) -> Seq<Constraint> {
    seq![
        Constraint::Percentage(((100 - percent) / 2) as u16),
        Constraint::Percentage(percent),
        Constraint::Percentage(((100 - percent) / 2) as u16),
    ]
}

fn middle(percent: u16) -> (r: Vec<Constraint>)
    requires
        percent <= 100,
    ensures
        r@ == margins(percent),
{
    let side: u16 = (100 - percent) / 2;
    let r = vec![
        Constraint::Percentage(side),
        Constraint::Percentage(percent),
        Constraint::Percentage(side),
    ];
    assert(r@ =~= margins(percent));
    r
}

proof fn lemma_margins(percent: u16)
    requires
        percent <= 100,
    ensures
        are_shares(margins(percent)),
        total(margins(percent).take(1)) == side(percent),
        total(margins(percent).take(2)) == side(percent) + percent,
{
    let w = margins(percent);
    assert(w.take(3) =~= w);
    assert(w.take(3).drop_last() =~= w.take(2));
    assert(w.take(2).drop_last() =~= w.take(1));
    assert(w.take(1).drop_last() =~= w.take(0));
    assert(w.take(1).last() == w[0] && w.take(2).last() == w[1] && w.take(3).last() == w[2]);
    assert(total(w.take(0)) == 0);
    assert(total(w.take(1)) == side(percent));
    assert(total(w.take(2)) == side(percent) + percent);
}

/// The percentage on either side of the middle.
pub open spec fn side(percent: u16) -> int {
    (100 - percent) / 2
}

proof fn lemma_cut(begin: int, length: int, a: int, b: int)
    ensures
        -100 <= 100 * (cut(begin, length, b) - cut(begin, length, a)) - (b - a) * length <= 100,
{
    let x = 100 * begin + a * length + 50;
    let y = 100 * begin + b * length + 50;
    assert((b - a) * length == b * length - a * length) by (nonlinear_arith);
    assert(100 * (x / 100) <= x < 100 * (x / 100) + 100);
    assert(100 * (y / 100) <= y < 100 * (y / 100) + 100);
}

/// The middle of a part of the screen: as many hundredths of it as are asked for, to the
/// nearest place, with the same share on either side.
pub fn centered_rect(percent_x: u16, percent_y: u16, area: Rect) -> (r: Rect)
    requires
        percent_x <= 100,
        percent_y <= 100,
    ensures
        spans_rows(r, area),
        spans_columns(r, area),
        r.x == cut(area.x as int, room(false, area), side(percent_x)),
        r.x + r.width == cut(area.x as int, room(false, area), side(percent_x) + percent_x),
        r.y == cut(area.y as int, room(true, area), side(percent_y)),
        r.y + r.height == cut(area.y as int, room(true, area), side(percent_y) + percent_y),
        -100 <= 100 * r.width - percent_x * room(false, area) <= 100,
        -100 <= 100 * r.height - percent_y * room(true, area) <= 100,
{
    proof {
        lemma_margins(percent_x);
        lemma_margins(percent_y);
        lemma_cut(
            area.x as int,
            room(false, area),
            side(percent_x),
            side(percent_x) + percent_x,
        );
        lemma_cut(area.y as int, room(true, area), side(percent_y), side(percent_y) + percent_y);
    }
    let rows = split_area(true, &middle(percent_y), area);
    let columns = split_area(false, &middle(percent_x), rows[1]);
    columns[1]
}

// ---------------------------------------------------------------------------
// Scrolling
// ---------------------------------------------------------------------------

/// The number of lines that a bordered part of the screen shows.
pub open spec fn viewport(area: Rect) -> nat {
    if area.height >= 2 {
        (area.height - 2) as nat
    } else {
        0
    }
}

/// The number of lines that a bordered part of the screen shows.
pub fn transcript_viewport_height(area: Rect) -> (r: usize)
    ensures
        r == viewport(area),
{
    if area.height >= 2 {
        (area.height - 2) as usize
    } else {
        0
    }
}

/// How far a text can be scrolled.
pub open spec fn max_scroll(content: nat, view: nat) -> nat {
    if content >= view {
        (content - view) as nat
    } else {
        0
    }
}

/// The smaller of two numbers.
pub open spec fn lesser(a: nat, b: nat) -> nat {
    if a <= b {
        a
    } else {
        b
    }
}

/// How far a text can be scrolled.
pub fn max_scroll_offset(content_len: usize, viewport_len: usize) -> (r: usize)
    ensures
        r == max_scroll(content_len as nat, viewport_len as nat),
{
    if content_len >= viewport_len {
        content_len - viewport_len
    } else {
        0
    }
}

/// How far a text is scrolled up from its end, at most as far as it can be.
pub fn clamp_scroll_offset(scroll_offset: usize, content_len: usize, viewport_len: usize) -> (r:
    usize)
    ensures
        r == lesser(
            scroll_offset as nat,
            max_scroll(content_len as nat, viewport_len as nat),
        ),
{
    let most: usize = max_scroll_offset(content_len, viewport_len);
    if scroll_offset <= most {
        scroll_offset
    } else {
        most
    }
}

/// The first line that shows of a text that is scrolled up from its end.
pub open spec fn top_line(offset: nat, content: nat, view: nat) -> nat {
    (max_scroll(content, view) - lesser(offset, max_scroll(content, view))) as nat
}

/// The first line that shows of a text that is scrolled up from its end.
pub fn first_line_shown(scroll_offset: usize, content_len: usize, viewport_len: usize) -> (r: usize)
    ensures
        r == top_line(scroll_offset as nat, content_len as nat, viewport_len as nat),
{
    max_scroll_offset(content_len, viewport_len) - clamp_scroll_offset(
        scroll_offset,
        content_len,
        viewport_len,
    )
}

// ---------------------------------------------------------------------------
// The mouse
// ---------------------------------------------------------------------------

/// What the mouse does.
#[derive(Debug, Clone, Copy, PartialEq, Eq, Structural)]
pub enum MouseKind {
    ScrollUp,
    ScrollDown,
    /// The left button goes down or the mouse is dragged with it.
    Left,
    Other,
}

/// What the mouse does, and where.
#[derive(Debug, Clone, Copy, PartialEq, Eq, Structural)]
pub struct MouseEvent {
    pub kind: MouseKind,
    pub column: u16,
    pub row: u16,
}

/// Whether the mouse is on the scrollbar, which takes the last column of an area.
pub open spec fn on_scrollbar(mouse: MouseEvent, area: Rect) -> bool {
    &&& area.width >= 1
    &&& area.height >= 1
    &&& mouse.column == capped(area.x, area.width) - 1
    &&& area.y <= mouse.row < capped(area.y, area.height)
}

/// Whether the mouse is on the scrollbar.
pub fn is_on_transcript_scrollbar(mouse: MouseEvent, area: Rect) -> (r: bool)
    ensures
        r == on_scrollbar(mouse, area),
{
    if area.width < 1 || area.height < 1 {
        return false;
    }
    let right: u16 = area.x.saturating_add(area.width);
    let bottom: u16 = area.y.saturating_add(area.height);
    mouse.column == right - 1 && mouse.row >= area.y && mouse.row < bottom
}

/// The line that a row of the scrollbar stands for, from the first at its top to the last
/// that can be scrolled to at its bottom.
pub open spec fn line_at_row(row: u16, area: Rect, most: nat) -> nat {
    if most == 0 || area.height <= 1 {
        0
    } else {
        let track = (area.height - 1) as nat;
        let down = if row >= area.y {
            lesser((row - area.y) as nat, track)
        } else {
            0
        };
        lesser(down * most, usize::MAX as nat) / track
    }
}

/// The line that a row of the scrollbar stands for.
pub fn mouse_row_to_scroll_offset(row: u16, area: Rect, max_scroll: usize) -> (r: usize)
    ensures
        r == line_at_row(row, area, max_scroll as nat),
        r <= max_scroll,
{
    if max_scroll == 0 || area.height <= 1 {
        return 0;
    }
    let track: usize = (area.height - 1) as usize;
    let below: usize = row.saturating_sub(area.y) as usize;
    let down: usize = if below <= track {
        below
    } else {
        track
    };
    proof {
        assert(down * max_scroll <= track * max_scroll) by (nonlinear_arith)
            requires
                down <= track,
                0 <= max_scroll,
        ;
    }
    let scaled: usize = match down.checked_mul(max_scroll) {
        Some(n) => n,
        None => usize::MAX,
    };
    proof {
        assert(scaled / track <= max_scroll) by (nonlinear_arith)
            requires
                scaled <= track * max_scroll,
                track > 0,
        ;
    }
    scaled / track
}

/// How far a text is scrolled up after the mouse did something, if that scrolls it.
pub open spec fn scrolled(mouse: MouseEvent, area: Rect, content: nat, offset: nat) -> Option<nat> {
    let most = max_scroll(content, viewport(area));
    match mouse.kind {
        MouseKind::ScrollUp => Some(lesser(lesser(offset + 3, usize::MAX as nat), most)),
        MouseKind::ScrollDown => Some(
            if offset >= 3 {
                (offset - 3) as nat
            } else {
                0
            },
        ),
        MouseKind::Left => if on_scrollbar(mouse, area) {
            Some((most - line_at_row(mouse.row, area, most)) as nat)
        } else {
            None
        },
        MouseKind::Other => None,
    }
}

/// Scrolls as the mouse says, given the part of the screen that shows the transcript and
/// the number of its lines. The result says whether anything changed.
pub fn handle_mouse_event(
    mouse: MouseEvent,
    transcript_area: Rect,
    content_len: usize,
    scroll_offset: &mut usize,
) -> (r: bool)
    ensures
        match scrolled(mouse, transcript_area, content_len as nat, *old(scroll_offset) as nat) {
            Some(offset) => r && *final(scroll_offset) == offset,
            None => !r && *final(scroll_offset) == *old(scroll_offset),
        },
{
    let view: usize = transcript_viewport_height(transcript_area);
    let most: usize = max_scroll_offset(content_len, view);
    match mouse.kind {
        MouseKind::ScrollUp => {
            let up: usize = scroll_offset.saturating_add(3);
            *scroll_offset = if up <= most {
                up
            } else {
                most
            };
            true
        },
        MouseKind::ScrollDown => {
            *scroll_offset = scroll_offset.saturating_sub(3);
            true
        },
        MouseKind::Left => if is_on_transcript_scrollbar(mouse, transcript_area) {
            let line: usize = mouse_row_to_scroll_offset(mouse.row, transcript_area, most);
            *scroll_offset = most - line;
            true
        } else {
            false
        },
        MouseKind::Other => false,
    }
}

// ---------------------------------------------------------------------------
// Input history
// ---------------------------------------------------------------------------

/// The number of inputs that are remembered.
pub const MAX_INPUT_HISTORY: usize = 200;

/// The place of the input before, from the last one back to the first.
pub open spec fn earlier(current: Option<usize>, len: nat) -> Option<usize> {
    match current {
        None => if len > 0 {
            Some((len - 1) as usize)
        } else {
            None
        },
        Some(i) => if i > 0 {
            Some((i - 1) as usize)
        } else {
            Some(0)
        },
    }
}

/// The place of the input behind; nothing behind the last one.
pub open spec fn later(current: Option<usize>, len: nat) -> Option<usize> {
    match current {
        Some(i) => if i + 1 < len {
            Some((i + 1) as usize)
        } else {
            None
        },
        None => None,
    }
}

/// The place of the input before.
pub fn previous_history_index(current: Option<usize>, len: usize) -> (r: Option<usize>)
    ensures
        r == earlier(current, len as nat),
{
    match current {
        None => if len > 0 {
            Some(len - 1)
        } else {
            None
        },
        Some(i) => if i > 0 {
            Some(i - 1)
        } else {
            Some(0)
        },
    }
}

/// The place of the input behind.
pub fn next_history_index(current: Option<usize>, len: usize) -> (r: Option<usize>)
    ensures
        r == later(current, len as nat),
{
    match current {
        Some(i) => if i < len && i + 1 < len {
            Some(i + 1)
        } else {
            None
        },
        None => None,
    }
}

// ---------------------------------------------------------------------------
// The state
// ---------------------------------------------------------------------------

/// What the full-screen interface holds.
pub struct TuiState {
    pub transcript: Vec<TranscriptItem>,
    pub input: String,
    pub status: String,
    pub show_help: bool,
    /// How far the transcript is scrolled up from its end.
    pub scroll_offset: usize,
    pub input_history: Vec<String>,
    pub history_index: Option<usize>,
}

/// What the full-screen interface holds as a mathematical object.
pub ghost struct Screen {
    pub transcript: Seq<Entry>,
    pub input: Seq<char>,
    pub status: Seq<char>,
    pub show_help: bool,
    pub scroll: usize,
    pub history: Seq<Seq<char>>,
    pub index: Option<usize>,
}

impl View for TuiState {
    type V = Screen;

    open spec fn view(&self) -> Screen {
        Screen {
            transcript: entries(self.transcript@),
            input: self.input@,
            status: self.status@,
            show_help: self.show_help,
            scroll: self.scroll_offset,
            history: texts(self.input_history@),
            index: self.history_index,
        }
    }
}

/// What holds of the interface at all times: the inputs are bounded, and the one being
/// browsed is among them.
pub open spec fn is_sound(s: Screen) -> bool {
    &&& s.history.len() <= MAX_INPUT_HISTORY
    &&& s.index matches Some(i) ==> i < s.history.len()
}

/// A key.
#[derive(Debug, Clone, Copy, PartialEq, Eq, Structural)]
pub enum KeyCode {
    Char(char),
    Esc,
    PageUp,
    PageDown,
    Up,
    Down,
    Home,
    End,
    Backspace,
    Enter,
    Other,
}

/// What a key calls for.
#[derive(Debug)]
pub enum Reaction {
    /// Nothing.
    Nothing,
    /// The screen is drawn again.
    Redraw,
    /// The interface is left.
    Quit,
    /// A command is handed in.
    Command(String),
    /// A prompt is handed in.
    Prompt(String),
}

/// What a key calls for as a mathematical object.
pub ghost enum Demand {
    Nothing,
    Redraw,
    Quit,
    Command(Seq<char>),
    Prompt(Seq<char>),
}

impl View for Reaction {
    type V = Demand;

    open spec fn view(&self) -> Demand {
        match self {
            Reaction::Nothing => Demand::Nothing,
            Reaction::Redraw => Demand::Redraw,
            Reaction::Quit => Demand::Quit,
            Reaction::Command(t) => Demand::Command(t@),
            Reaction::Prompt(t) => Demand::Prompt(t@),
        }
    }
}

/// The interface after the enter key.
pub open spec fn entered(s: Screen) -> (Screen, Demand) {
    let submitted = trim_end(s.input, CharClass::White);
    let cleared = Screen { input: ""@, index: None, ..s };
    if trimmed(submitted).len() == 0 {
        (cleared, Demand::Redraw)
    } else {
        (
            Screen {
                history: last_of(s.history.push(submitted), MAX_INPUT_HISTORY as int),
                ..cleared
            },
            if begins(submitted, "/"@) {
                Demand::Command(submitted)
            } else {
                Demand::Prompt(submitted)
            },
        )
    }
}

/// Whether the inputs that were handed in may be browsed: nothing is typed, or what stands
/// in the input box is one of them.
pub open spec fn browses(s: Screen) -> bool {
    s.input.len() == 0 || s.index is Some
}

/// The interface after a key, and what the key calls for.
pub open spec fn pressed(s: Screen, code: KeyCode, ctrl: bool) -> (Screen, Demand) {
    match code {
        KeyCode::Esc => (s, Demand::Quit),
        KeyCode::Char(c) => if c == 'c' && ctrl {
            (s, Demand::Quit)
        } else if c == '?' {
            (Screen { show_help: !s.show_help, ..s }, Demand::Redraw)
        } else {
            (Screen { input: s.input.push(c), index: None, ..s }, Demand::Redraw)
        },
        KeyCode::PageUp => (
            Screen { scroll: lesser((s.scroll + 8) as nat, usize::MAX as nat) as usize, ..s },
            Demand::Redraw,
        ),
        KeyCode::PageDown => (
            Screen {
                scroll: if s.scroll >= 8 {
                    (s.scroll - 8) as usize
                } else {
                    0
                },
                ..s
            },
            Demand::Redraw,
        ),
        KeyCode::Home => (Screen { scroll: usize::MAX, ..s }, Demand::Redraw),
        KeyCode::End => (Screen { scroll: 0, ..s }, Demand::Redraw),
        KeyCode::Up => if browses(s) {
            match earlier(s.index, s.history.len()) {
                Some(i) => (
                    Screen { index: Some(i), input: s.history[i as int], ..s },
                    Demand::Redraw,
                ),
                None => (s, Demand::Nothing),
            }
        } else {
            (s, Demand::Nothing)
        },
        KeyCode::Down => if browses(s) {
            match later(s.index, s.history.len()) {
                Some(i) => (
                    Screen { index: Some(i), input: s.history[i as int], ..s },
                    Demand::Redraw,
                ),
                None => (Screen { index: None, input: ""@, ..s }, Demand::Redraw),
            }
        } else {
            (s, Demand::Nothing)
        },
        KeyCode::Backspace => (
            Screen {
                input: if s.input.len() > 0 {
                    s.input.drop_last()
                } else {
                    s.input
                },
                index: None,
                ..s
            },
            Demand::Redraw,
        ),
        KeyCode::Enter => entered(s),
        KeyCode::Other => (s, Demand::Nothing),
    }
}

/// Whether an input is empty.
fn is_empty_text(s: &str) -> (r: bool)
    ensures
        r == (s@.len() == 0),
{
    s.unicode_len() == 0
}

impl TuiState {
    /// The interface as it opens, with a greeting.
    pub fn new(greeting: String) -> (r: TuiState)
        ensures
            is_sound(r@),
            r@ == (Screen {
                transcript: seq![Entry { speaker: Speaker::System, content: greeting@ }],
                input: ""@,
                status: "ready"@,
                show_help: false,
                scroll: 0,
                history: seq![],
                index: None,
            }),
    {
        let ghost g = greeting@;
        let mut transcript: Vec<TranscriptItem> = Vec::new();
        transcript.push(TranscriptItem::new(Speaker::System, greeting));
        let r = TuiState {
            transcript,
            input: "".to_owned(),
            status: "ready".to_owned(),
            show_help: false,
            scroll_offset: 0,
            input_history: Vec::new(),
            history_index: None,
        };
        assert(r@.transcript =~= seq![Entry { speaker: Speaker::System, content: g }]);
        assert(r@.history =~= seq![]);
        r
    }

    fn enter(&mut self) -> (r: Reaction)
        requires
            is_sound(old(self)@),
        ensures
            (final(self)@, r@) == entered(old(self)@),
            is_sound(final(self)@),
    {
        let submitted = trim_end_of(&self.input, CharClass::White);
        self.input = "".to_owned();
        self.history_index = None;
        if is_empty_text(&trim_white(&submitted)) {
            return Reaction::Redraw;
        }
        let ghost had = self.input_history@;
        let copy = submitted.clone();
        self.input_history.push(copy);
        keep_last(&mut self.input_history, MAX_INPUT_HISTORY);
        assert(self@.history =~= last_of(texts(had).push(submitted@), 200));
        if starts(&submitted, "/") {
            Reaction::Command(submitted)
        } else {
            Reaction::Prompt(submitted)
        }
    }

    fn recall(&mut self, i: usize)
        requires
            i < old(self).input_history@.len(),
        ensures
            final(self)@ == (Screen {
                index: Some(i),
                input: old(self)@.history[i as int],
                ..old(self)@
            }),
    {
        self.history_index = Some(i);
        self.input = self.input_history[i].clone();
    }

    /// Takes a key.
    pub fn on_key(&mut self, code: KeyCode, ctrl: bool) -> (r: Reaction)
        requires
            is_sound(old(self)@),
        ensures
            (final(self)@, r@) == pressed(old(self)@, code, ctrl),
            is_sound(final(self)@),
    {
        match code {
            KeyCode::Esc => Reaction::Quit,
            KeyCode::Char(c) => if c == 'c' && ctrl {
                Reaction::Quit
            } else if c == '?' {
                self.show_help = !self.show_help;
                Reaction::Redraw
            } else {
                self.input.push(c);
                self.history_index = None;
                Reaction::Redraw
            },
            KeyCode::PageUp => {
                self.scroll_offset = self.scroll_offset.saturating_add(8);
                Reaction::Redraw
            },
            KeyCode::PageDown => {
                self.scroll_offset = self.scroll_offset.saturating_sub(8);
                Reaction::Redraw
            },
            KeyCode::Home => {
                self.scroll_offset = usize::MAX;
                Reaction::Redraw
            },
            KeyCode::End => {
                self.scroll_offset = 0;
                Reaction::Redraw
            },
            KeyCode::Up => {
                if is_empty_text(&self.input) || self.history_index.is_some() {
                    match previous_history_index(self.history_index, self.input_history.len()) {
                        Some(i) => {
                            self.recall(i);
                            Reaction::Redraw
                        },
                        None => Reaction::Nothing,
                    }
                } else {
                    Reaction::Nothing
                }
            },
            KeyCode::Down => {
                if is_empty_text(&self.input) || self.history_index.is_some() {
                    match next_history_index(self.history_index, self.input_history.len()) {
                        Some(i) => {
                            self.recall(i);
                        },
                        None => {
                            self.history_index = None;
                            self.input = "".to_owned();
                        },
                    }
                    Reaction::Redraw
                } else {
                    Reaction::Nothing
                }
            },
            KeyCode::Backspace => {
                let chars = chars_of(&self.input);
                if chars.len() > 0 {
                    self.input = crate::text::string_of(&chars, 0, chars.len() - 1);
                    assert(self@.input =~= old(self)@.input.drop_last());
                }
                self.history_index = None;
                Reaction::Redraw
            },
            KeyCode::Enter => self.enter(),
            KeyCode::Other => Reaction::Nothing,
        }
    }
}


// ---------------------------------------------------------------------------
// Answers
// ---------------------------------------------------------------------------

/// A transcript with one more entry.
pub open spec fn with_entry(list: Seq<Entry>, speaker: Speaker, content: Seq<char>) -> Seq<Entry> {
    list.push(Entry { speaker, content })
}

/// The interface once a prompt is sent: the prompt, what goes with it, and an answer that
/// is still empty.
pub open spec fn prompted(s: Screen, prompt: Seq<char>, attached: Option<Seq<char>>) -> Screen {
    let sent = with_entry(s.transcript, Speaker::User, prompt);
    let noted = match attached {
        Some(summary) => with_entry(sent, Speaker::System, summary),
        None => sent,
    };
    Screen {
        transcript: last_of(
            with_entry(last_of(noted, MAX_TUI_HISTORY as int), Speaker::Assistant, ""@),
            MAX_TUI_HISTORY as int,
        ),
        status: "streaming"@,
        ..s
    }
}

/// The interface with another text in its last entry.
pub open spec fn with_last(s: Screen, content: Seq<char>) -> Screen {
    Screen {
        transcript: s.transcript.drop_last().push(Entry { content, ..s.transcript.last() }),
        ..s
    }
}

impl TuiState {
    /// Adds an entry.
    pub fn say(&mut self, speaker: Speaker, content: String)
        ensures
            final(self)@ == (Screen {
                transcript: with_entry(old(self)@.transcript, speaker, content@),
                ..old(self)@
            }),
    {
        let ghost had = self.transcript@;
        let ghost c = content@;
        self.transcript.push(TranscriptItem::new(speaker, content));
        assert(self@.transcript =~= with_entry(entries(had), speaker, c));
    }

    /// Empties the transcript.
    pub fn clear(&mut self)
        ensures
            final(self)@ == (Screen { transcript: seq![], status: "ready"@, ..old(self)@ }),
    {
        self.transcript = Vec::new();
        self.status = "ready".to_owned();
        assert(self@.transcript =~= seq![]);
    }

    /// Shows that a prompt is sent. `attached` says what goes with it.
    pub fn begin_answer(&mut self, prompt: String, attached: Option<String>)
        ensures
            final(self)@ == prompted(
                old(self)@,
                prompt@,
                crate::config::opt_text(attached),
            ),
            final(self)@.transcript.len() > 0,
    {
        self.say(Speaker::User, prompt);
        if let Some(summary) = attached {
            self.say(Speaker::System, summary);
        }
        trim_transcript(&mut self.transcript);
        self.status = "streaming".to_owned();
        self.say(Speaker::Assistant, "".to_owned());
        trim_transcript(&mut self.transcript);
    }

    /// Shows an answer as far as it has come.
    pub fn show_answer(&mut self, content: String)
        requires
            old(self)@.transcript.len() > 0,
        ensures
            final(self)@ == with_last(old(self)@, content@),
            final(self)@.transcript.len() == old(self)@.transcript.len(),
    {
        let ghost had = self.transcript@;
        let ghost c = content@;
        let n: usize = self.transcript.len() - 1;
        let speaker = self.transcript[n].speaker;
        self.transcript.set(n, TranscriptItem { speaker, content });
        assert(self@.transcript =~= entries(had).drop_last().push(
            Entry { content: c, ..entries(had).last() },
        ));
    }

    /// Shows an answer that is complete.
    pub fn end_answer(&mut self, content: String)
        requires
            old(self)@.transcript.len() > 0,
        ensures
            final(self)@ == (Screen { status: "ready"@, ..with_last(old(self)@, content@) }),
    {
        self.show_answer(content);
        self.status = "ready".to_owned();
    }
}

/// What an agent is doing.
#[derive(Debug)]
pub enum Progress {
    /// The model thinks.
    Thinking,
    /// The model answers.
    Streaming,
    /// A tool runs.
    Tool { label: String },
    /// A worker starts.
    Worker { name: String },
    /// It waits for an input.
    Ready,
}

/// What an agent is doing as a mathematical object.
pub ghost enum Stage {
    Thinking,
    Streaming,
    Tool { label: Seq<char> },
    Worker { name: Seq<char> },
    Ready,
}

impl View for Progress {
    type V = Stage;

    open spec fn view(&self) -> Stage {
        match self {
            Progress::Thinking => Stage::Thinking,
            Progress::Streaming => Stage::Streaming,
            Progress::Tool { label } => Stage::Tool { label: label@ },
            Progress::Worker { name } => Stage::Worker { name: name@ },
            Progress::Ready => Stage::Ready,
        }
    }
}

/// What the user reads of what an agent is doing, in the state panel and in line mode.
pub open spec fn stage_text(stage: Stage) -> Seq<char> {
    match stage {
        Stage::Thinking => "thinking"@,
        Stage::Streaming => "streaming"@,
        Stage::Tool { label } => "running tool: "@ + label,
        Stage::Worker { name } => "running worker: "@ + name,
        Stage::Ready => "ready"@,
    }
}

/// What an agent does that carries out a call: where it starts a worker, that worker runs,
/// else the tool.
pub open spec fn stage_of_call(call: ToolUse) -> Stage {
    match charge_of(call) {
        Charge::Spawn { name, .. } => Stage::Worker { name },
        _ => Stage::Tool { label: call_line(call) },
    }
}

/// What an agent does while a piece of an answer arrives, given whether thinking goes on
/// behind it.
pub open spec fn stage_of_piece(piece: crate::provider::Piece, inline: bool) -> Stage {
    if piece is Thinking || inline {
        Stage::Thinking
    } else {
        Stage::Streaming
    }
}

impl Progress {
    /// What the user reads of it.
    pub fn text(&self) -> (r: String)
        ensures
            r@ == stage_text(self@),
    {
        match self {
            Progress::Thinking => "thinking".to_owned(),
            Progress::Streaming => "streaming".to_owned(),
            Progress::Tool { label } => {
                let mut out = "running tool: ".to_owned();
                out.append(label.as_str());
                out
            },
            Progress::Worker { name } => {
                let mut out = "running worker: ".to_owned();
                out.append(name.as_str());
                out
            },
            Progress::Ready => "ready".to_owned(),
        }
    }

    /// What an agent does that carries out a call.
    pub fn of_call(call: &ToolCall) -> (r: Progress)
        ensures
            r@ == stage_of_call(call@),
    {
        match call {
            ToolCall::SpawnWorker { name, .. } => Progress::Worker {
                name: match name {
                    Some(name) => name.clone(),
                    None => "worker".to_owned(),
                },
            },
            _ => Progress::Tool { label: call.summary() },
        }
    }

    /// What an agent does while a piece of an answer arrives, given whether thinking goes
    /// on behind it.
    pub fn of_piece(delta: &crate::provider::Delta, inline: bool) -> (r: Progress)
        ensures
            r@ == stage_of_piece(delta@, inline),
    {
        match delta {
            crate::provider::Delta::Thinking(_) => Progress::Thinking,
            crate::provider::Delta::Content(_) => if inline {
                Progress::Thinking
            } else {
                Progress::Streaming
            },
        }
    }
}

impl TuiState {
    /// Shows what the agent is doing.
    pub fn show_progress(&mut self, progress: &Progress)
        ensures
            final(self)@ == (Screen { status: stage_text(progress@), ..old(self)@ }),
    {
        self.status = progress.text();
    }
}

/// An answer as it grows on the screen.
pub struct TuiAnswer {
    pub show_thinking: bool,
    pub inline_thinking: bool,
    pub visible: String,
}

/// What a piece of an answer adds to the screen, and whether thinking goes on behind it.
pub open spec fn adds(piece: crate::provider::Piece, show: bool, inline: bool) -> (Seq<char>, bool) {
    match piece {
        crate::provider::Piece::Content(t) => filtered(t, show, inline),
        crate::provider::Piece::Thinking(t) => (shown(t, show), inline),
    }
}

impl TuiAnswer {
    /// An answer that is still empty.
    pub fn new(show_thinking: bool) -> (r: TuiAnswer)
        ensures
            r.show_thinking == show_thinking,
            !r.inline_thinking,
            r.visible@ == ""@,
    {
        TuiAnswer { show_thinking, inline_thinking: false, visible: "".to_owned() }
    }

    /// Adds a piece.
    pub fn push(&mut self, delta: &crate::provider::Delta)
        ensures
            final(self).show_thinking == old(self).show_thinking,
            ({
                let (more, inline) = adds(
                    delta@,
                    old(self).show_thinking,
                    old(self).inline_thinking,
                );
                final(self).visible@ == old(self).visible@ + more && final(self).inline_thinking
                    == inline
            }),
    {
        match delta {
            crate::provider::Delta::Content(t) => {
                let more = filter_tui_content_delta(
                    t,
                    self.show_thinking,
                    &mut self.inline_thinking,
                );
                self.visible.append(more.as_str());
            },
            crate::provider::Delta::Thinking(t) => {
                if self.show_thinking {
                    self.visible.append(t.as_str());
                } else {
                    assert(self.visible@ + shown(t@, false) =~= self.visible@);
                }
            },
        }
    }
}

// ---------------------------------------------------------------------------
// Panels
// ---------------------------------------------------------------------------

/// The hint below the transcript.
pub const HINT: &'static str = "PgUp/PgDn scroll  mouse wheel/drag  ? help  Esc quit";

/// What the title panel shows.
pub open spec fn title_panel(c: Config, model: Seq<char>) -> Seq<Shown> {
    seq![
        line_of(
            seq![
                (c.banner_title@, strong(Color::Cyan)),
                ("  "@, plain_look()),
                (c.banner_subtitle@, colored(Color::DarkGray)),
            ],
        ),
        line_of(
            seq![
                (provider_word(c.provider), colored(Color::Yellow)),
                (" / "@, plain_look()),
                (model, colored(Color::Green)),
                (" / "@, plain_look()),
                (
                    access_name(c.full_system_access),
                    if c.full_system_access {
                        strong(Color::Red)
                    } else {
                        colored(Color::Blue)
                    },
                ),
            ],
        ),
    ]
}

/// What the title panel shows.
pub fn title_lines(config: &Config, model: &str) -> (r: Vec<StyledLine>)
    ensures
        shown_lines(r@) == title_panel(*config, model@),
{
    let mut first: Vec<Span> = Vec::new();
    first.push(span(&config.banner_title, bold(Color::Cyan)));
    first.push(span("  ", plain()));
    first.push(span(&config.banner_subtitle, color(Color::DarkGray)));
    let first = StyledLine { look: plain(), spans: first };
    assert(first@.spans =~= title_panel(*config, model@)[0].spans);
    let access = if config.full_system_access {
        bold(Color::Red)
    } else {
        color(Color::Blue)
    };
    let mut second: Vec<Span> = Vec::new();
    second.push(span(config.provider.name(), color(Color::Yellow)));
    second.push(span(" / ", plain()));
    second.push(span(model, color(Color::Green)));
    second.push(span(" / ", plain()));
    second.push(span(config.access_label(), access));
    let second = StyledLine { look: plain(), spans: second };
    assert(second@.spans =~= title_panel(*config, model@)[1].spans);
    let mut out: Vec<StyledLine> = Vec::new();
    out.push(first);
    out.push(second);
    assert(shown_lines(out@) =~= title_panel(*config, model@));
    out
}

/// What the state panel shows.
pub open spec fn state_panel(
    status: Seq<char>,
    shell: PermissionMode,
    write: PermissionMode,
    full: bool,
) -> Seq<Shown> {
    seq![
        line_in("status: "@ + status, plain_look()),
        line_in(
            "perm: shell="@ + permission_word(shell) + " write="@ + permission_word(write),
            plain_look(),
        ),
        line_in(
            "access: "@ + (if full {
                "FULL SYSTEM"@
            } else {
                "workspace"@
            }),
            plain_look(),
        ),
    ]
}

/// What the state panel shows.
pub fn state_lines(status: &str, shell: PermissionMode, write: PermissionMode, full: bool) -> (r:
    Vec<StyledLine>)
    ensures
        shown_lines(r@) == state_panel(status@, shell, write, full),
{
    let mut one = "status: ".to_owned();
    one.append(status);
    let mut two = "perm: shell=".to_owned();
    two.append(shell.name());
    two.append(" write=");
    two.append(write.name());
    let mut three = "access: ".to_owned();
    if full {
        three.append("FULL SYSTEM");
    } else {
        three.append("workspace");
    }
    let mut out: Vec<StyledLine> = Vec::new();
    out.push(styled_line(one, plain()));
    out.push(styled_line(two, plain()));
    out.push(styled_line(three, plain()));
    assert(shown_lines(out@) =~= state_panel(status@, shell, write, full));
    out
}

/// What the help panel shows, a line each.
pub open spec fn help_panel() -> Seq<Seq<char>> {
    seq![
        "Keys"@,
        "  Enter  submit"@,
        "  Tab    complete commands and paths"@,
        "  Up/Down browse input history when input is empty"@,
        "  PgUp/PgDn scroll transcript"@,
        "  Mouse wheel scroll transcript"@,
        "  Drag or click the scrollbar to reposition"@,
        "  ?      toggle this help"@,
        "  Esc    exit"@,
        ""@,
        "Commands"@,
        "  /help /provider /models /use-model"@,
        "  /thinking /clear /exit"@,
        ""@,
        "The full line-mode command surface still handles shell, terminal, writes, and permissions."@,
    ]
}

/// What the help panel shows.
pub fn tui_help_panel() -> (r: Vec<&'static str>)
    ensures
        crate::completion::names(r@) == help_panel(),
{
    let r = vec![
        "Keys",
        "  Enter  submit",
        "  Tab    complete commands and paths",
        "  Up/Down browse input history when input is empty",
        "  PgUp/PgDn scroll transcript",
        "  Mouse wheel scroll transcript",
        "  Drag or click the scrollbar to reposition",
        "  ?      toggle this help",
        "  Esc    exit",
        "",
        "Commands",
        "  /help /provider /models /use-model",
        "  /thinking /clear /exit",
        "",
        "The full line-mode command surface still handles shell, terminal, writes, and permissions.",
    ];
    assert(crate::completion::names(r@) =~= help_panel());
    r
}

// ---------------------------------------------------------------------------
// Laws
// ---------------------------------------------------------------------------

/// The home key shows the top of the transcript and the end key its bottom, whatever was
/// shown before.
pub proof fn law_home_is_top_and_end_is_bottom(s: Screen, ctrl: bool, content: nat, view: nat)
    requires
        content <= usize::MAX,
    ensures
        top_line(pressed(s, KeyCode::Home, ctrl).0.scroll as nat, content, view) == 0,
        top_line(pressed(s, KeyCode::End, ctrl).0.scroll as nat, content, view) == max_scroll(
            content,
            view,
        ),
{
}

/// Scrolling never leaves the transcript: the first line shown is one of it, and no line
/// that could show is left empty.
pub proof fn law_scrolling_stays_inside(offset: nat, content: nat, view: nat)
    ensures
        top_line(offset, content, view) <= max_scroll(content, view),
        content > 0 && view > 0 ==> top_line(offset, content, view) < content,
        content >= view ==> top_line(offset, content, view) + view <= content,
{
}

/// A page up shows earlier lines and a page down later ones, by eight lines where there
/// are as many.
pub proof fn law_pages_scroll_by_eight(s: Screen, ctrl: bool, content: nat, view: nat)
    requires
        s.scroll <= max_scroll(content, view),
        max_scroll(content, view) + 8 <= usize::MAX,
    ensures
        ({
            let here = top_line(s.scroll as nat, content, view);
            let up = top_line(pressed(s, KeyCode::PageUp, ctrl).0.scroll as nat, content, view);
            let down = top_line(pressed(s, KeyCode::PageDown, ctrl).0.scroll as nat, content, view);
            &&& up == (if here >= 8 {
                here - 8
            } else {
                0
            })
            &&& down == lesser(here + 8, max_scroll(content, view))
        }),
{
}

/// The top of the scrollbar stands for the first line and its bottom for the last that can
/// be scrolled to.
pub proof fn law_scrollbar_spans_the_transcript(mouse: MouseEvent, area: Rect, content: nat, offset: nat)
    requires
        mouse.kind == MouseKind::Left,
        on_scrollbar(mouse, area),
        area.y + area.height <= u16::MAX,
        area.height > 1,
        content * area.height <= usize::MAX,
    ensures
        scrolled(mouse, area, content, offset) matches Some(to) && {
            let top = top_line(to, content, viewport(area));
            &&& mouse.row == area.y ==> top == 0
            &&& mouse.row == area.y + area.height - 1 ==> top == max_scroll(content, viewport(area))
            &&& top <= max_scroll(content, viewport(area))
        },
{
    let most = max_scroll(content, viewport(area));
    let track = (area.height - 1) as nat;
    let down = (mouse.row - area.y) as nat;
    assert(down * most <= track * most) by (nonlinear_arith)
        requires
            down <= track,
    ;
    assert(track * most <= content * area.height) by (nonlinear_arith)
        requires
            most <= content,
            track <= area.height,
    ;
    assert((down * most) / track <= most) by (nonlinear_arith)
        requires
            down * most <= track * most,
            track > 0,
    ;
    assert(mouse.row == area.y ==> (down * most) / track == 0) by {
        if mouse.row == area.y {
            assert(0 * most == 0) by (nonlinear_arith);
            assert(0nat / track == 0) by (nonlinear_arith)
                requires
                    track > 0,
            ;
        }
    }
    assert(mouse.row == area.y + area.height - 1 ==> (down * most) / track == most) by {
        if mouse.row == area.y + area.height - 1 {
            assert((track * most) / track == most) by (nonlinear_arith)
                requires
                    track > 0,
            ;
        }
    }
}

/// Whatever keys come, the inputs that are remembered stay bounded and the one being
/// browsed is among them.
pub proof fn law_keys_keep_the_interface_sound(s: Screen, code: KeyCode, ctrl: bool)
    requires
        is_sound(s),
    ensures
        is_sound(pressed(s, code, ctrl).0),
{
}

/// What is handed in, if anything is.
pub open spec fn submitted(d: Demand) -> Option<Seq<char>> {
    match d {
        Demand::Command(t) => Some(t),
        Demand::Prompt(t) => Some(t),
        _ => None,
    }
}

/// Only the enter key hands an input in; it hands in what was typed, without the blanks
/// behind it, and remembers it.
pub proof fn law_what_is_typed_is_submitted(s: Screen, code: KeyCode, ctrl: bool)
    requires
        is_sound(s),
    ensures
        submitted(pressed(s, code, ctrl).1) matches Some(t) ==> code == KeyCode::Enter && t
            == trim_end(s.input, CharClass::White) && trimmed(t).len() > 0 && pressed(
            s,
            code,
            ctrl,
        ).0.history.last() == t && pressed(s, code, ctrl).0.input == ""@,
        code == KeyCode::Enter && trimmed(trim_end(s.input, CharClass::White)).len() > 0
            ==> submitted(pressed(s, code, ctrl).1) == Some(trim_end(s.input, CharClass::White)),
{
}

/// The last input comes back with the up key.
pub proof fn law_up_recalls_the_last_input(s: Screen, ctrl: bool)
    requires
        s.input.len() == 0,
        s.index is None,
        s.history.len() > 0,
        s.history.len() <= usize::MAX,
    ensures
        pressed(s, KeyCode::Up, ctrl).0.input == s.history.last(),
{
}

/// The interface after the up key was pressed `n` times.
pub open spec fn ups(s: Screen, n: nat) -> Screen
    decreases n,
{
    if n == 0 {
        s
    } else {
        pressed(ups(s, (n - 1) as nat), KeyCode::Up, false).0
    }
}

/// The up key reaches every input that was handed in: pressed `n` times in an empty input
/// box it recalls the one that was handed in `n`-th before.
pub proof fn law_up_reaches_every_input(s: Screen, n: nat)
    requires
        is_sound(s),
        s.input.len() == 0,
        s.index is None,
        0 < n <= s.history.len(),
    ensures
        ups(s, n) == (Screen {
            index: Some((s.history.len() - n) as usize),
            input: s.history[s.history.len() - n],
            ..s
        }),
    decreases n,
{
    if n > 1 {
        law_up_reaches_every_input(s, (n - 1) as nat);
    } else {
        assert(ups(s, 0) == s);
    }
}

/// The down key goes back: while inputs are browsed it recalls the one that was handed in
/// after the one shown, and behind the last one empties the input box.
pub proof fn law_down_goes_back(s: Screen, i: usize)
    requires
        is_sound(s),
        s.index == Some(i),
    ensures
        i + 1 < s.history.len() ==> pressed(s, KeyCode::Down, false).0 == (Screen {
            index: Some((i + 1) as usize),
            input: s.history[i + 1],
            ..s
        }),
        i + 1 == s.history.len() ==> pressed(s, KeyCode::Down, false).0 == (Screen {
            index: None,
            input: ""@,
            ..s
        }),
{
}

/// What is typed is not lost to browsing: the up and the down key leave an input alone that
/// was typed or changed.
pub proof fn law_typed_input_stays(s: Screen, ctrl: bool)
    requires
        s.input.len() > 0,
        s.index is None,
    ensures
        pressed(s, KeyCode::Up, ctrl).0 == s,
        pressed(s, KeyCode::Down, ctrl).0 == s,
{
}

/// The help overlay goes away as it came.
pub proof fn law_help_toggles(s: Screen, ctrl: bool)
    ensures
        pressed(pressed(s, KeyCode::Char('?'), ctrl).0, KeyCode::Char('?'), ctrl).0 == s,
{
}

/// The transcript stays bounded, and ends in the answer to the prompt that was sent.
pub proof fn law_transcript_is_bounded(s: Screen, prompt: Seq<char>, attached: Option<Seq<char>>)
    ensures
        prompted(s, prompt, attached).transcript.len() <= MAX_TUI_HISTORY,
        prompted(s, prompt, attached).transcript.last() == (Entry {
            speaker: Speaker::Assistant,
            content: ""@,
        }),
{
}

// ---------------------------------------------------------------------------
// Laws of what is shown
// ---------------------------------------------------------------------------

/// A line of the transcript shows the text that it holds: inside code and where it is plain as
/// it stands, a fence without its indent, a heading with its marks, an item behind a dash and a
/// quotation behind a bar.
pub proof fn law_transcript_lines_keep_their_text(raw: Seq<char>, in_code: bool)
    ensures
        ({
            let line = trim_start(raw, CharClass::White);
            let spans = shown_line(raw, in_code).0.spans;
            let fence = begins(line, "```"@);
            &&& fence ==> spans.len() == 1 && spans[0].0 == line
            &&& !fence && in_code ==> spans.len() == 1 && spans[0].0 == raw
            &&& !fence && !in_code && heading_in(line) is Some ==> spans.len() == 1 && spans[0].0
                == line
            &&& !fence && !in_code && heading_in(line) is None && begins(line, "- "@) ==> spans.len()
                == 2 && spans[0].0 == "  - "@ && spans[1].0 == line.skip(2)
            &&& !fence && !in_code && heading_in(line) is None && begins(line, "* "@) ==> spans.len()
                == 2 && spans[0].0 == "  - "@ && spans[1].0 == line.skip(2)
            &&& !fence && !in_code && heading_in(line) is None && !begins(line, "- "@) && !begins(
                line,
                "* "@,
            ) && !begins(line, ">"@) ==> spans.len() == 1 && spans[0].0 == raw
            &&& shown_line(raw, in_code).1 == (if fence {
                !in_code
            } else {
                in_code
            })
        }),
{
    let line = trim_start(raw, CharClass::White);
    reveal_strlit("- ");
    reveal_strlit("* ");
    reveal_strlit(" ");
    if let Some((level, text)) = heading_in(line) {
        crate::text::lemma_run_len(line, CharClass::Is('#'));
        let made = repeated('#', level) + " "@ + text;
        assert forall|i: int| 0 <= i < line.len() implies #[trigger] made[i] == line[i] by {
            if i < level {
                assert(CharClass::Is('#').has(line[i]));
            }
        }
        assert(made =~= line);
    }
    if begins(line, "* "@) {
        assert(line.subrange(0, 2)[0] == '*');
        if begins(line, "- "@) {
            assert(line.subrange(0, 2)[0] == '-');
        }
    }
}

/// A quotation shows its text behind a bar.
pub proof fn law_quotations_are_shown(text: Seq<char>)
    requires
        text.len() > 0,
        !crate::text::is_white(text[0]),
    ensures
        shown_line("> "@ + text, false).0.spans.len() == 1,
        shown_line("> "@ + text, false).0.spans[0].0 == "| "@ + text,
{
    reveal_strlit("> ");
    reveal_strlit(">");
    reveal_strlit("- ");
    reveal_strlit("* ");
    reveal_strlit("```");
    let line = "> "@ + text;
    crate::text::lemma_run_len_is(line, CharClass::White, 0);
    assert(line.skip(0) =~= line);
    crate::text::lemma_run_len_is(line, CharClass::Is('#'), 0);
    crate::text::lemma_run_len_is(line, CharClass::Is('>'), 1);
    assert(line.skip(1)[0] == ' ');
    assert(line.skip(1)[1] == text[0]);
    crate::text::lemma_run_len_is(line.skip(1), CharClass::White, 1);
    assert(line.skip(1).skip(1) =~= text);
    assert(line.subrange(0, 1) =~= ">"@);
    if begins(line, "```"@) {
        assert(line.subrange(0, 3)[0] == line[0]);
    }
    if begins(line, "- "@) {
        assert(line.subrange(0, 2)[0] == line[0]);
    }
    if begins(line, "* "@) {
        assert(line.subrange(0, 2)[0] == line[0]);
    }
}

/// One to six `#` and a space make a heading of that level; more make none.
pub proof fn law_headings_are_read(level: nat, text: Seq<char>)
    ensures
        1 <= level <= 6 ==> heading_in(repeated('#', level) + " "@ + text) == Some((level, text)),
        level > 6 || level == 0 ==> heading_in(repeated('#', level) + " "@ + text) is None,
{
    reveal_strlit(" ");
    let line = repeated('#', level) + " "@ + text;
    crate::text::lemma_run_len_is(line, CharClass::Is('#'), level as int);
    assert(line.skip(level as int + 1) =~= text);
}

/// Each line of a text is shown in its turn, as code where a fence before it opened a block.
pub proof fn law_each_line_is_shown(first: Seq<char>, rest: Seq<Seq<char>>, in_code: bool)
    ensures
        shown_text(seq![first] + rest, in_code) == seq![shown_line(first, in_code).0] + shown_text(
            rest,
            shown_line(first, in_code).1,
        ),
        shown_text(rest, in_code).len() == rest.len(),
{
    assert((seq![first] + rest).skip(1) =~= rest);
    lemma_shown_text_len(rest, in_code);
}

proof fn lemma_shown_text_len(list: Seq<Seq<char>>, in_code: bool)
    ensures
        shown_text(list, in_code).len() == list.len(),
    decreases list.len(),
{
    if list.len() > 0 {
        lemma_shown_text_len(list.skip(1), shown_line(list[0], in_code).1);
    }
}

/// A text is shown line by line, and an empty one as one empty line.
pub proof fn law_texts_are_shown_line_by_line(text: Seq<char>)
    ensures
        lines(text).len() > 0 ==> shown_markdown(text) == shown_text(lines(text), false),
        lines(text).len() == 0 ==> shown_markdown(text).len() == 1 && shown_markdown(
            text,
        )[0].spans.len() == 1 && shown_markdown(text)[0].spans[0].0 == ""@,
{
}

/// An entry is shown as its speaker, its content and an empty line, behind those before it.
pub proof fn law_entries_are_shown_in_order(list: Seq<Entry>, e: Entry)
    ensures
        shown_transcript(seq![]).len() == 0,
        ({
            let label = match e.speaker {
                Speaker::User => "user> "@,
                Speaker::Assistant => "assistant> "@,
                Speaker::System => "system> "@,
                Speaker::Error => "error> "@,
            };
            let had = shown_transcript(list).len() as int;
            let has = shown_transcript(list.push(e));
            let n = shown_markdown(e.content).len() as int;
            &&& has.take(had) == shown_transcript(list)
            &&& has.len() == had + n + 2
            &&& has[had].spans.len() == 1 && has[had].spans[0].0 == label
            &&& has.subrange(had + 1, had + 1 + n) == shown_markdown(e.content)
            &&& has.last().spans.len() == 1 && has.last().spans[0].0 == ""@
        }),
{
    assert(list.push(e).drop_last() =~= list);
    let had = shown_transcript(list);
    let has = shown_transcript(list.push(e));
    let n = shown_markdown(e.content).len() as int;
    assert(has =~= had + shown_entry(e));
    assert(has.take(had.len() as int) =~= had);
    assert(has[had.len() as int] == shown_entry(e)[0]);
    assert(has.subrange(had.len() as int + 1, had.len() as int + 1 + n) =~= shown_markdown(
        e.content,
    ));
    assert(has.last() == shown_entry(e).last());
}

/// The panels tell the banner, the provider, the model, the reach of the tools, the status and
/// the permissions.
pub proof fn law_panels_tell_the_session(
    c: Config,
    model: Seq<char>,
    status: Seq<char>,
    shell: PermissionMode,
    write: PermissionMode,
)
    ensures
        ({
            let title = title_panel(c, model);
            &&& title.len() == 2
            &&& title[0].spans[0].0 == c.banner_title@
            &&& title[0].spans[2].0 == c.banner_subtitle@
            &&& title[1].spans[0].0 == provider_word(c.provider)
            &&& title[1].spans[2].0 == model
            &&& c.full_system_access ==> title[1].spans[4].0 == "full-system"@
            &&& !c.full_system_access ==> title[1].spans[4].0 == "workspace"@
        }),
        forall|full: bool|
            {
                let state = #[trigger] state_panel(status, shell, write, full);
                &&& state.len() == 3
                &&& state[0].spans[0].0 == "status: "@ + status
                &&& state[1].spans[0].0 == "perm: shell="@ + permission_word(shell) + " write="@
                    + permission_word(write)
                &&& full ==> state[2].spans[0].0 == "access: "@ + "FULL SYSTEM"@
                &&& !full ==> state[2].spans[0].0 == "access: "@ + "workspace"@
            },
{
}

/// Each stage of the work is told by its name, a tool with its call and a worker with its name.
pub proof fn law_stages_are_told(label: Seq<char>, call: ToolUse, task: Seq<char>)
    ensures
        stage_text(Stage::Thinking) == "thinking"@,
        stage_text(Stage::Streaming) == "streaming"@,
        stage_text(Stage::Ready) == "ready"@,
        stage_text(Stage::Tool { label }) == "running tool: "@ + label,
        stage_text(Stage::Worker { name: label }) == "running worker: "@ + label,
        stage_of_call(ToolUse::SpawnWorker { name: Some(label), task }) == (Stage::Worker {
            name: label,
        }),
        stage_of_call(ToolUse::SpawnWorker { name: None, task }) == (Stage::Worker {
            name: "worker"@,
        }),
        !(call is SpawnWorker) ==> stage_of_call(call) == (Stage::Tool { label: call_line(call) }),
{
}

/// Thinking is the stage while thinking arrives, in a block or apart from the content;
/// otherwise the answer streams.
pub proof fn law_pieces_tell_the_stage(t: Seq<char>)
    ensures
        stage_of_piece(crate::provider::Piece::Thinking(t), false) == Stage::Thinking,
        stage_of_piece(crate::provider::Piece::Thinking(t), true) == Stage::Thinking,
        stage_of_piece(crate::provider::Piece::Content(t), true) == Stage::Thinking,
        stage_of_piece(crate::provider::Piece::Content(t), false) == Stage::Streaming,
{
}

/// A piece of content adds itself to the answer on the screen but for thinking that is hidden,
/// and a piece of thinking adds itself where thinking shows.
pub proof fn law_pieces_are_added_to_the_answer(t: Seq<char>, inline: bool, show: bool)
    ensures
        adds(crate::provider::Piece::Thinking(t), true, inline) == (t, inline),
        adds(crate::provider::Piece::Thinking(t), false, inline) == (Seq::<char>::empty(), inline),
        !crate::text::holds_text(t, "<think>"@) ==> adds(
            crate::provider::Piece::Content(t),
            show,
            false,
        ) == (t, false),
        adds(crate::provider::Piece::Content(t), show, inline) == filtered(t, show, inline),
{
    crate::thinking::law_untagged_pieces_are_shown(t, show);
}

// ---------------------------------------------------------------------------
// Laws of keys and the mouse
// ---------------------------------------------------------------------------

/// A character that is typed goes behind the input and ends the browsing of earlier inputs;
/// nothing else changes.
pub proof fn law_typed_characters_are_added(s: Screen, c: char, ctrl: bool)
    requires
        c != '?',
        !(c == 'c' && ctrl),
    ensures
        pressed(s, KeyCode::Char(c), ctrl).0.input == s.input.push(c),
        pressed(s, KeyCode::Char(c), ctrl).0.index is None,
        pressed(s, KeyCode::Char(c), ctrl).0.transcript == s.transcript,
        pressed(s, KeyCode::Char(c), ctrl).0.status == s.status,
        pressed(s, KeyCode::Char(c), ctrl).0.show_help == s.show_help,
        pressed(s, KeyCode::Char(c), ctrl).0.scroll == s.scroll,
        pressed(s, KeyCode::Char(c), ctrl).0.history == s.history,
        pressed(s, KeyCode::Char(c), ctrl).1 == Demand::Redraw,
{
}

/// Taking back undoes typing.
pub proof fn law_backspace_undoes_typing(s: Screen, c: char, ctrl: bool)
    requires
        c != '?',
        !(c == 'c' && ctrl),
    ensures
        pressed(pressed(s, KeyCode::Char(c), ctrl).0, KeyCode::Backspace, ctrl).0 == (Screen {
            index: None,
            ..s
        }),
        s.input.len() == 0 ==> pressed(s, KeyCode::Backspace, ctrl).0.input == s.input,
        pressed(s, KeyCode::Backspace, ctrl).1 == Demand::Redraw,
{
    assert(s.input.push(c).drop_last() =~= s.input);
}

/// Escape and control-c leave the interface, and nothing else does.
pub proof fn law_escape_and_control_c_quit(s: Screen, code: KeyCode, ctrl: bool)
    ensures
        pressed(s, KeyCode::Esc, ctrl) == (s, Demand::Quit),
        pressed(s, KeyCode::Char('c'), true) == (s, Demand::Quit),
        pressed(s, code, ctrl).1 == Demand::Quit ==> code == KeyCode::Esc || code == KeyCode::Char(
            'c',
        ) && ctrl,
        pressed(s, KeyCode::Other, ctrl) == (s, Demand::Nothing),
        pressed(s, KeyCode::Char('?'), ctrl).0 == (Screen { show_help: !s.show_help, ..s }),
{
}

/// Entering an input that is more than blanks empties the line, puts the input behind the
/// earlier ones and submits it: as a command where it begins with a slash, else as a prompt. A
/// blank line is emptied and submits nothing.
pub proof fn law_entered_inputs_are_submitted(s: Screen, ctrl: bool)
    requires
        s.history.len() < 200,
    ensures
        ({
            let typed = trim_end(s.input, CharClass::White);
            let (t, demand) = pressed(s, KeyCode::Enter, ctrl);
            &&& t.input == ""@
            &&& t.index is None
            &&& t.transcript == s.transcript
            &&& t.scroll == s.scroll
            &&& t.show_help == s.show_help
            &&& t.status == s.status
            &&& trimmed(typed).len() > 0 ==> t.history == s.history.push(typed)
            &&& trimmed(typed).len() > 0 && begins(typed, "/"@) ==> demand == Demand::Command(typed)
            &&& trimmed(typed).len() > 0 && !begins(typed, "/"@) ==> demand == Demand::Prompt(typed)
            &&& trimmed(typed).len() == 0 ==> t.history == s.history && demand == Demand::Redraw
        }),
{
}

/// A page is eight lines, and the keys that scroll change nothing but the place.
pub proof fn law_scrolling_keys_move_the_place(s: Screen, ctrl: bool)
    ensures
        s.scroll + 8 <= usize::MAX ==> pressed(s, KeyCode::PageUp, ctrl).0 == (Screen {
            scroll: (s.scroll + 8) as usize,
            ..s
        }),
        s.scroll >= 8 ==> pressed(s, KeyCode::PageDown, ctrl).0 == (Screen {
            scroll: (s.scroll - 8) as usize,
            ..s
        }),
        s.scroll < 8 ==> pressed(s, KeyCode::PageDown, ctrl).0 == (Screen { scroll: 0, ..s }),
        pressed(s, KeyCode::Home, ctrl).0 == (Screen { scroll: usize::MAX, ..s }),
        pressed(s, KeyCode::End, ctrl).0 == (Screen { scroll: 0, ..s }),
{
}

/// The wheel scrolls by three lines as far as there is text, and a press of the button beside
/// the scrollbar does nothing.
pub proof fn law_the_wheel_scrolls_by_three(area: Rect, content: nat, offset: nat, mouse: MouseEvent)
    requires
        content <= usize::MAX,
        area.height >= 2,
    ensures
        ({
            let rows = area.height - 2;
            &&& mouse.kind == MouseKind::ScrollUp && offset + 3 <= content - rows ==> scrolled(
                mouse,
                area,
                content,
                offset,
            ) == Some((offset + 3) as nat)
            &&& mouse.kind == MouseKind::ScrollUp && offset + 3 > content - rows && content >= rows
                && offset + 3 <= usize::MAX ==> scrolled(mouse, area, content, offset) == Some(
                (content - rows) as nat,
            )
            &&& mouse.kind == MouseKind::ScrollUp && content < rows ==> scrolled(
                mouse,
                area,
                content,
                offset,
            ) == Some(0nat)
            &&& mouse.kind == MouseKind::ScrollDown && offset >= 3 ==> scrolled(
                mouse,
                area,
                content,
                offset,
            ) == Some((offset - 3) as nat)
            &&& mouse.kind == MouseKind::ScrollDown && offset < 3 ==> scrolled(
                mouse,
                area,
                content,
                offset,
            ) == Some(0nat)
            &&& mouse.kind == MouseKind::Other ==> scrolled(mouse, area, content, offset) is None
            &&& mouse.kind == MouseKind::Left && !on_scrollbar(mouse, area) ==> scrolled(
                mouse,
                area,
                content,
                offset,
            ) is None
        }),
{
}

/// The scrollbar is the last column of the area, over all its rows.
pub proof fn law_the_scrollbar_is_the_last_column(mouse: MouseEvent, area: Rect)
    requires
        area.x + area.width <= u16::MAX,
        area.y + area.height <= u16::MAX,
    ensures
        on_scrollbar(mouse, area) <==> area.width > 0 && mouse.column == area.x + area.width - 1
            && area.y <= mouse.row < area.y + area.height,
{
}

/// The screen begins at the last lines of the text, as many as there are rows inside the frame,
/// and each line that is scrolled up shows one line before them, up to the first.
pub proof fn law_the_screen_shows_the_end(offset: nat, content: nat, area: Rect)
    ensures
        area.height >= 2 ==> viewport(area) == area.height - 2,
        area.height < 2 ==> viewport(area) == 0,
        content >= viewport(area) && offset <= content - viewport(area) ==> top_line(
            offset,
            content,
            viewport(area),
        ) == content - viewport(area) - offset,
        content >= viewport(area) && offset > content - viewport(area) ==> top_line(
            offset,
            content,
            viewport(area),
        ) == 0,
        content < viewport(area) ==> top_line(offset, content, viewport(area)) == 0,
{
}

/// A press on the scrollbar reaches the line that is as far down the text as the mouse is down
/// the bar.
pub proof fn law_rows_reach_their_share(row: u16, area: Rect, most: nat)
    requires
        area.height > 1,
        area.y <= row < area.y + area.height,
        (area.height - 1) * most <= usize::MAX,
    ensures
        line_at_row(row, area, most) * (area.height - 1) <= (row - area.y) * most,
        (row - area.y) * most < (line_at_row(row, area, most) + 1) * (area.height - 1),
{
    let track = (area.height - 1) as nat;
    let down = (row - area.y) as nat;
    if most == 0 {
        assert(down * most == 0) by (nonlinear_arith)
            requires
                most == 0,
        ;
        assert((0int + 1) * track == track) by (nonlinear_arith);
        assert(0 * track == 0) by (nonlinear_arith);
    } else {
        assert(down * most <= track * most) by (nonlinear_arith)
            requires
                down <= track,
        ;
        let all = down * most;
        let q = all / track;
        assert(q * track <= all && all < (q + 1) * track) by (nonlinear_arith)
            requires
                q == all / track,
                track > 0,
        ;
    }
}

/// A prompt is put behind the transcript with what is attached to it, and an answer without
/// content behind that; the status tells that the answer streams, and nothing else changes.
pub proof fn law_prompts_join_the_transcript(s: Screen, prompt: Seq<char>, attached: Seq<char>)
    requires
        s.transcript.len() + 3 <= 400,
    ensures
        prompted(s, prompt, None).transcript == s.transcript.push(
            Entry { speaker: Speaker::User, content: prompt },
        ).push(Entry { speaker: Speaker::Assistant, content: ""@ }),
        prompted(s, prompt, Some(attached)).transcript == s.transcript.push(
            Entry { speaker: Speaker::User, content: prompt },
        ).push(Entry { speaker: Speaker::System, content: attached }).push(
            Entry { speaker: Speaker::Assistant, content: ""@ },
        ),
        prompted(s, prompt, None).status == "streaming"@,
        prompted(s, prompt, Some(attached)).status == "streaming"@,
        forall|a: Option<Seq<char>>|
            (#[trigger] prompted(s, prompt, a)).input == s.input && prompted(s, prompt, a).history
                == s.history && prompted(s, prompt, a).index == s.index && prompted(
                s,
                prompt,
                a,
            ).scroll == s.scroll && prompted(s, prompt, a).show_help == s.show_help,
{
}

/// The answer on the screen is replaced as it grows: the last entry keeps its speaker and gets
/// the content, the others stay.
pub proof fn law_answers_replace_the_last_entry(s: Screen, content: Seq<char>)
    requires
        s.transcript.len() > 0,
    ensures
        with_last(s, content).transcript.len() == s.transcript.len(),
        with_last(s, content).transcript.last().content == content,
        with_last(s, content).transcript.last().speaker == s.transcript.last().speaker,
        forall|i: int|
            0 <= i < s.transcript.len() - 1 ==> with_last(s, content).transcript[i]
                == #[trigger] s.transcript[i],
        with_last(s, content) == (Screen { transcript: with_last(s, content).transcript, ..s }),
{
}

/// What is told goes behind the transcript, under its speaker.
pub proof fn law_what_is_told_joins_the_transcript(
    list: Seq<Entry>,
    speaker: Speaker,
    content: Seq<char>,
)
    ensures
        with_entry(list, speaker, content).len() == list.len() + 1,
        with_entry(list, speaker, content).last().speaker == speaker,
        with_entry(list, speaker, content).last().content == content,
        with_entry(list, speaker, content).drop_last() == list,
{
    assert(with_entry(list, speaker, content).drop_last() =~= list);
}

/// Sums beyond what a place can be end at the largest place.
pub proof fn law_places_are_capped(a: u16, b: u16)
    ensures
        a + b <= u16::MAX ==> capped(a, b) == a + b,
        a + b > u16::MAX ==> capped(a, b) == u16::MAX,
{
}

/// Of the inputs at most two hundred are kept: the oldest goes when a new one comes.
pub proof fn law_the_oldest_input_goes(s: Screen, ctrl: bool)
    requires
        s.history.len() == 200,
        trimmed(trim_end(s.input, CharClass::White)).len() > 0,
    ensures
        pressed(s, KeyCode::Enter, ctrl).0.history == s.history.skip(1).push(
            trim_end(s.input, CharClass::White),
        ),
{
    assert(pressed(s, KeyCode::Enter, ctrl).0.history =~= s.history.skip(1).push(
        trim_end(s.input, CharClass::White),
    ));
}

/// Of a long transcript the last four hundred entries are kept, in order.
pub proof fn law_the_last_entries_are_kept(s: Screen, prompt: Seq<char>)
    requires
        s.transcript.len() + 2 > 400,
    ensures
        ({
            let all = s.transcript.push(Entry { speaker: Speaker::User, content: prompt }).push(
                Entry { speaker: Speaker::Assistant, content: ""@ },
            );
            prompted(s, prompt, None).transcript == all.skip(all.len() - 400)
        }),
{
    let all = s.transcript.push(Entry { speaker: Speaker::User, content: prompt }).push(
        Entry { speaker: Speaker::Assistant, content: ""@ },
    );
    assert(prompted(s, prompt, None).transcript =~= all.skip(all.len() - 400));
}

/// Going back from the first input stays there, going on from the last leaves the inputs.
pub proof fn law_the_inputs_have_ends(len: nat, i: usize)
    requires
        len <= usize::MAX,
    ensures
        earlier(Some(0), len) == Some(0usize),
        i > 0 ==> earlier(Some(i), len) == Some((i - 1) as usize),
        len == 0 ==> earlier(None, len) is None,
        len > 0 ==> earlier(None, len) == Some((len - 1) as usize),
        i + 1 < len ==> later(Some(i), len) == Some((i + 1) as usize),
        i + 1 >= len ==> later(Some(i), len) is None,
        later(None, len) is None,
{
}

/// The mouse above the bar reaches its first row, and below it the last.
pub proof fn law_rows_outside_the_bar_reach_its_ends(row: u16, area: Rect, most: nat)
    ensures
        most == 0 || area.height <= 1 ==> line_at_row(row, area, most) == 0,
        row < area.y ==> line_at_row(row, area, most) == 0,
        area.height > 1 && row >= area.y + area.height - 1 && (area.height - 1) * most
            <= usize::MAX ==> line_at_row(row, area, most) == most,
{
    if area.height > 1 {
        let track = (area.height - 1) as nat;
        assert(0 * most == 0) by (nonlinear_arith);
        assert(0nat / track == 0) by (nonlinear_arith)
            requires
                track > 0,
        ;
        assert((track * most) / track == most) by (nonlinear_arith)
            requires
                track > 0,
        ;
    }
}

/// Each kind of line has its look: fences and quotations are grey, code stands light on black,
/// headings are bold, items are marked in yellow, and all else is plain.
pub proof fn law_lines_have_their_looks(raw: Seq<char>, in_code: bool)
    ensures
        ({
            let line = trim_start(raw, CharClass::White);
            let shown = shown_line(raw, in_code).0;
            let fence = begins(line, "```"@);
            let free = !fence && !in_code;
            let item = begins(line, "- "@) || begins(line, "* "@);
            let plain = Look { fg: None, bg: None, bold: false };
            &&& fence ==> shown.look == (Look { fg: Some(Color::DarkGray), bg: None, bold: false })
            &&& !fence && in_code ==> shown.look == (Look {
                fg: Some(Color::LightBlue),
                bg: Some(Color::Black),
                bold: false,
            })
            &&& free && heading_in(line) is Some ==> shown.look == (Look {
                fg: Some(Color::Cyan),
                bg: None,
                bold: true,
            })
            &&& free && heading_in(line) is None && item ==> shown.look == plain && shown.spans[0].1
                == (Look { fg: Some(Color::Yellow), bg: None, bold: false }) && shown.spans[1].1
                == plain
            &&& free && heading_in(line) is None && !item && begins(line, ">"@) ==> shown.look
                == (Look { fg: Some(Color::DarkGray), bg: None, bold: false })
            &&& free && heading_in(line) is None && !item && !begins(line, ">"@) ==> shown.look
                == plain
            &&& !(free && heading_in(line) is None && item) ==> shown.spans.len() == 1
                && shown.spans[0].1 == plain
        }),
{
}

/// A quotation is shown without its marks, however many there are.
pub proof fn law_quotations_lose_their_marks(raw: Seq<char>)
    requires
        begins(trim_start(raw, CharClass::White), ">"@),
    ensures
        shown_line(raw, false).0.spans.len() == 1,
        shown_line(raw, false).0.spans[0].0 == "| "@ + trim_start(
            trim_start(trim_start(raw, CharClass::White), CharClass::Is('>')),
            CharClass::White,
        ),
{
    let line = trim_start(raw, CharClass::White);
    reveal_strlit(">");
    reveal_strlit("```");
    reveal_strlit("- ");
    reveal_strlit("* ");
    assert(line.subrange(0, 1)[0] == line[0]);
    assert(line[0] == '>');
    if begins(line, "```"@) {
        assert(line.subrange(0, 3)[0] == line[0]);
    }
    if begins(line, "- "@) {
        assert(line.subrange(0, 2)[0] == line[0]);
    }
    if begins(line, "* "@) {
        assert(line.subrange(0, 2)[0] == line[0]);
    }
    crate::text::lemma_run_len_is(line, CharClass::Is('#'), 0);
}

/// A line is a heading just where one to six signs and a blank stand before its text.
pub proof fn law_headings_begin_with_signs(line: Seq<char>)
    ensures
        heading_in(line) matches Some((level, text)) ==> 1 <= level <= 6 && line == repeated(
            '#',
            level,
        ) + " "@ + text,
        line.len() == 0 || line[0] != '#' ==> heading_in(line) is None,
{
    let level = run_len(line, CharClass::Is('#'));
    crate::text::lemma_run_len(line, CharClass::Is('#'));
    reveal_strlit(" ");
    if heading_in(line) is Some {
        let text = line.skip(level as int + 1);
        assert(line =~= repeated('#', level) + " "@ + text);
    }
}

/// Each speaker is named in a bold colour of their own.
pub proof fn law_speakers_have_their_colors(speaker: Speaker)
    ensures
        speaker_line(speaker).look == (Look { fg: None, bg: None, bold: false }),
        speaker_line(speaker).spans.len() == 1,
        speaker_line(speaker).spans[0].1 == (Look {
            fg: Some(
                match speaker {
                    Speaker::User => Color::Green,
                    Speaker::Assistant => Color::Cyan,
                    Speaker::System => Color::Yellow,
                    Speaker::Error => Color::Red,
                },
            ),
            bg: None,
            bold: true,
        }),
{
}

/// The panels have their looks, and full access to the system stands out in red.
pub proof fn law_panels_have_their_looks(
    c: Config,
    model: Seq<char>,
    status: Seq<char>,
    shell: PermissionMode,
    write: PermissionMode,
    full: bool,
    i: int,
)
    requires
        0 <= i < 3,
    ensures
        ({
            let title = title_panel(c, model);
            let plain = Look { fg: None, bg: None, bold: false };
            &&& title[0].look == plain && title[1].look == plain
            &&& title[0].spans.len() == 3 && title[1].spans.len() == 5
            &&& title[0].spans[0].1 == (Look { fg: Some(Color::Cyan), bg: None, bold: true })
            &&& title[0].spans[1] == ("  "@, plain)
            &&& title[0].spans[2].1 == (Look { fg: Some(Color::DarkGray), bg: None, bold: false })
            &&& title[1].spans[0].1 == (Look { fg: Some(Color::Yellow), bg: None, bold: false })
            &&& title[1].spans[1] == (" / "@, plain)
            &&& title[1].spans[2].1 == (Look { fg: Some(Color::Green), bg: None, bold: false })
            &&& title[1].spans[3] == (" / "@, plain)
            &&& c.full_system_access ==> title[1].spans[4].1 == (Look {
                fg: Some(Color::Red),
                bg: None,
                bold: true,
            })
            &&& !c.full_system_access ==> title[1].spans[4].1 == (Look {
                fg: Some(Color::Blue),
                bg: None,
                bold: false,
            })
            &&& state_panel(status, shell, write, full).len() == 3
            &&& state_panel(status, shell, write, full)[i].look == plain
            &&& state_panel(status, shell, write, full)[i].spans.len() == 1
            &&& state_panel(status, shell, write, full)[i].spans[0].1 == plain
        }),
{
}

/// An empty text, and the line below an entry, are one plain empty line.
pub proof fn law_empty_lines_are_plain(e: Entry)
    ensures
        shown_markdown(""@) == seq![
            Shown {
                look: Look { fg: None, bg: None, bold: false },
                spans: seq![(""@, Look { fg: None, bg: None, bold: false })],
            },
        ],
        shown_entry(e) == seq![speaker_line(e.speaker)] + shown_markdown(e.content)
            + shown_markdown(""@),
{
    reveal_strlit("");
    assert(lines(""@).len() == 0);
}

/// The place of a share is the nearest to it: it is off by half a column or row at most.
pub proof fn law_shares_are_rounded(begin: int, length: int, percent: int)
    ensures
        -50 <= 100 * (cut(begin, length, percent) - begin) - percent * length <= 50,
        cut(begin, length, 0) == begin,
        cut(begin, length, 100) == begin + length,
{
    assert(0 * length == 0) by (nonlinear_arith);
}

/// An area reaches as far as it is long, up to the largest place there is.
pub proof fn law_areas_reach_their_length(r: Rect)
    ensures
        r.y + r.height <= u16::MAX ==> room(true, r) == r.height,
        r.x + r.width <= u16::MAX ==> room(false, r) == r.width,
        r.y + r.height > u16::MAX ==> r.y + room(true, r) == u16::MAX,
        r.x + r.width > u16::MAX ==> r.x + room(false, r) == u16::MAX,
{
}

/// What a centred area leaves over is shared by its two sides.
pub proof fn law_sides_share_the_rest(percent: u16)
    requires
        percent <= 100,
    ensures
        2 * side(percent) + percent == 100 || 2 * side(percent) + percent == 99,
{
}

/// A band takes the whole width of its area and stays between its first and last row.
pub proof fn law_bands_stay_inside(part: Rect, whole: Rect)
    requires
        whole.x + whole.width <= u16::MAX,
        whole.y + whole.height <= u16::MAX,
    ensures
        is_band(part, whole) <==> part.x == whole.x && part.width == whole.width && whole.y <= part.y
            && part.y + part.height <= whole.y + whole.height,
        spans_columns(part, whole) <==> whole.x <= part.x && part.x + part.width <= whole.x
            + whole.width,
        spans_rows(part, whole) <==> whole.y <= part.y && part.y + part.height <= whole.y
            + whole.height,
{
}

/// A click on the scrollbar leaves below the view what lies above it off the whole.
pub proof fn law_clicks_scroll_to_their_row(mouse: MouseEvent, area: Rect, content: nat, offset: nat)
    requires
        mouse.kind == MouseKind::Left,
        on_scrollbar(mouse, area),
        area.height >= 2,
        content >= area.height - 2,
        content <= usize::MAX,
    ensures
        scrolled(mouse, area, content, offset) == Some(
            (content - (area.height - 2) - line_at_row(
                mouse.row,
                area,
                (content - (area.height - 2)) as nat,
            )) as nat,
        ),
{
}

/// The panel with help names the keys and the commands.
pub proof fn law_the_help_panel_lists_keys_and_commands()
    ensures
        help_panel().len() == 15,
        help_panel()[0] == "Keys"@,
        help_panel()[1] == "  Enter  submit"@,
        help_panel()[2] == "  Tab    complete commands and paths"@,
        help_panel()[3] == "  Up/Down browse input history when input is empty"@,
        help_panel()[4] == "  PgUp/PgDn scroll transcript"@,
        help_panel()[5] == "  Mouse wheel scroll transcript"@,
        help_panel()[6] == "  Drag or click the scrollbar to reposition"@,
        help_panel()[7] == "  ?      toggle this help"@,
        help_panel()[8] == "  Esc    exit"@,
        help_panel()[9] == ""@,
        help_panel()[10] == "Commands"@,
        help_panel()[11] == "  /help /provider /models /use-model"@,
        help_panel()[12] == "  /thinking /clear /exit"@,
        help_panel()[13] == ""@,
        help_panel()[14]
            == "The full line-mode command surface still handles shell, terminal, writes, and permissions."@,
{
}

/// Keys that change the screen ask for it to be drawn again.
pub proof fn law_changes_are_drawn(s: Screen, code: KeyCode, ctrl: bool)
    ensures
        pressed(s, code, ctrl).1 == Demand::Nothing ==> pressed(s, code, ctrl).0 == s,
        code == KeyCode::PageUp || code == KeyCode::PageDown || code == KeyCode::Home || code
            == KeyCode::End || code == KeyCode::Char('?') ==> pressed(s, code, ctrl).1
            == Demand::Redraw,
        s.index is Some && (code == KeyCode::Up || code == KeyCode::Down) ==> pressed(
            s,
            code,
            ctrl,
        ).1 == Demand::Redraw,
        s.input.len() == 0 && code == KeyCode::Down ==> pressed(s, code, ctrl).1 == Demand::Redraw,
{
}

}
