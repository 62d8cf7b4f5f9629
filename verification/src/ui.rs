//! What the line-mode interface prints: the banner, prompts, notices, and
//! Markdown rendered for the terminal. Each function returns the text to print.
use crate::text::{
    after, at_most, before, begins, char_count, chars_of, find, find_in, first_chars, joined,
    lemma_find, lemma_find_is, occurs_at, repeat, repeated, run_from, run_len, same, starts,
    strip_prefix_of, texts, trim_start, trim_start_of, trim_white, trimmed, without_prefix,
    CharClass,
};
use vstd::prelude::*;
use vstd::string::*;

verus! {

broadcast use {vstd::seq::group_seq_axioms, vstd::string::group_string_axioms};

pub const RESET: &'static str = "\x1b[0m";

pub const BOLD: &'static str = "\x1b[1m";

pub const DIM: &'static str = "\x1b[2m";

pub const CYAN: &'static str = "\x1b[36m";

pub const YELLOW: &'static str = "\x1b[33m";

pub const MAGENTA: &'static str = "\x1b[35m";

pub const RED: &'static str = "\x1b[31m";

pub const BLUE: &'static str = "\x1b[34m";

pub const BG_DARK: &'static str = "\x1b[48;5;236m";

pub const BANNER_WIDTH: usize = 54;

pub const BANNER_INNER_WIDTH: usize = 50;

// ---------------------------------------------------------------------------
// Inline Markdown
// ---------------------------------------------------------------------------

/// `text` with each `**` replaced by the switch into or out of bold, and a
/// reset at the end where bold is still on.
pub open spec fn emphasis(text: Seq<char>, bold: bool) -> Seq<char>
    decreases text.len(),
{
    match find(text, "**"@) {
        Some(i) => {
            proof {
                lemma_find(text, "**"@);
                reveal_strlit("**");
            }
            text.take(i) + (if bold {
                RESET@
            } else {
                BOLD@
            }) + emphasis(text.skip(i + 2), !bold)
        },
        None => if bold {
            text + RESET@
        } else {
            text
        },
    }
}

/// `text` with each backquote replaced by the switch into or out of code, the
/// stretches between them rendered with emphasis.
pub open spec fn inline(text: Seq<char>, in_code: bool) -> Seq<char>
    decreases text.len(),
{
    match find(text, "`"@) {
        Some(i) => {
            proof {
                lemma_find(text, "`"@);
                reveal_strlit("`");
            }
            emphasis(text.take(i), false) + (if in_code {
                RESET@
            } else {
                BG_DARK@ + BLUE@
            }) + inline(text.skip(i + 1), !in_code)
        },
        None => if in_code {
            emphasis(text, false) + RESET@
        } else {
            emphasis(text, false)
        },
    }
}

/// Renders `**bold**` stretches.
pub fn render_emphasis(text: &str) -> (r: String)
    ensures
        r@ == emphasis(text@, false),
{
    let mut output = String::new();
    let mut rest = text.to_owned();
    let mut bold = false;
    proof {
        reveal_strlit("**");
        assert(output@ + emphasis(text@, false) =~= emphasis(text@, false));
    }
    loop
        invariant
            "**"@.len() == 2,
            output@ + emphasis(rest@, bold) == emphasis(text@, false),
        decreases rest@.len(),
    {
        let ghost done = output@;
        match find_in(&rest, "**") {
            Some(index) => {
                output.append(before(&rest, index).as_str());
                if bold {
                    output.append(RESET);
                } else {
                    output.append(BOLD);
                }
                let next = after(&rest, index + 2);
                proof {
                    assert(output@ + emphasis(next@, !bold) =~= done + emphasis(rest@, bold));
                }
                bold = !bold;
                rest = next;
            },
            None => {
                output.append(rest.as_str());
                if bold {
                    output.append(RESET);
                }
                assert(output@ =~= done + emphasis(rest@, bold));
                return output;
            },
        }
    }
}

/// Renders inline code and bold stretches.
pub fn render_inline(text: &str) -> (r: String)
    ensures
        r@ == inline(text@, false),
{
    let mut output = String::new();
    let mut rest = text.to_owned();
    let mut in_code = false;
    proof {
        reveal_strlit("`");
        assert(output@ + inline(text@, false) =~= inline(text@, false));
    }
    loop
        invariant
            "`"@.len() == 1,
            output@ + inline(rest@, in_code) == inline(text@, false),
        decreases rest@.len(),
    {
        let ghost done = output@;
        match find_in(&rest, "`") {
            Some(index) => {
                output.append(render_emphasis(&before(&rest, index)).as_str());
                if in_code {
                    output.append(RESET);
                } else {
                    output.append(BG_DARK);
                    output.append(BLUE);
                }
                let next = after(&rest, index + 1);
                proof {
                    assert(output@ + inline(next@, !in_code) =~= done + inline(rest@, in_code));
                }
                in_code = !in_code;
                rest = next;
            },
            None => {
                output.append(render_emphasis(&rest).as_str());
                if in_code {
                    output.append(RESET);
                }
                assert(output@ =~= done + inline(rest@, in_code));
                return output;
            },
        }
    }
}

// ---------------------------------------------------------------------------
// Markdown lines
// ---------------------------------------------------------------------------

/// The level and the text of a heading line: one to six `#`, then a space.
pub open spec fn heading(line: Seq<char>) -> Option<(nat, Seq<char>)> {
    let level = run_len(line, CharClass::Is('#'));
    if 1 <= level <= 6 && level < line.len() && line[level as int] == ' ' {
        Some((level, line.skip(level as int + 1)))
    } else {
        None
    }
}

/// The number and the text of an ordered list item: digits, a dot, a space.
pub open spec fn ordered_item(line: Seq<char>) -> Option<(Seq<char>, Seq<char>)> {
    let dot = run_len(line, CharClass::Digit) as int;
    if 1 <= dot && dot + 1 < line.len() && line[dot] == '.' && line[dot + 1] == ' ' {
        Some((line.take(dot), line.skip(dot + 2)))
    } else {
        None
    }
}

/// The text of a bullet list item: a dash or an asterisk, then a space.
pub open spec fn bullet_item(line: Seq<char>) -> Option<Seq<char>> {
    match without_prefix(line, "- "@) {
        Some(item) => Some(item),
        None => without_prefix(line, "* "@),
    }
}

/// `s` without every leading occurrence of three backquotes.
pub open spec fn without_fences(s: Seq<char>) -> Seq<char>
    decreases s.len(),
{
    if begins(s, "```"@) {
        proof {
            reveal_strlit("```");
        }
        without_fences(s.skip(3))
    } else {
        s
    }
}

/// What one line prints as, without its line ending, and whether a code block
/// is open after it.
pub open spec fn rendered_line(line: Seq<char>, in_code: bool) -> (bool, Seq<char>) {
    let body = trim_start(line, CharClass::White);
    if begins(body, "```"@) {
        let lang = trimmed(without_fences(body));
        if in_code || lang.len() == 0 {
            (!in_code, DIM@ + "```"@ + RESET@)
        } else {
            (true, DIM@ + "``` "@ + lang + RESET@)
        }
    } else if in_code {
        (true, BG_DARK@ + line + RESET@)
    } else if body.len() == 0 {
        (false, seq![])
    } else if let Some((level, title)) = heading(body) {
        (
            false,
            BOLD@ + CYAN@ + repeated('#', level) + " "@ + inline(trimmed(title), false) + RESET@,
        )
    } else if let Some(item) = bullet_item(body) {
        (false, "  "@ + YELLOW@ + "-"@ + RESET@ + " "@ + inline(item, false))
    } else if let Some((n, item)) = ordered_item(body) {
        (false, "  "@ + YELLOW@ + n + "."@ + RESET@ + " "@ + inline(item, false))
    } else if begins(body, ">"@) {
        let quote = trim_start(trim_start(body, CharClass::Is('>')), CharClass::White);
        (false, DIM@ + "| "@ + inline(quote, false) + RESET@)
    } else {
        (false, inline(line, false))
    }
}

/// The level and the text of a heading line.
pub fn markdown_heading(line: &str) -> (r: Option<(usize, String)>)
    ensures
        match r {
            Some((level, title)) => heading(line@) == Some((level as nat, title@)),
            None => heading(line@) is None,
        },
{
    let chars = chars_of(line);
    assert(chars@.skip(0) =~= line@);
    let level: usize = run_from(&chars, 0, CharClass::Is('#'));
    if 1 <= level && level <= 6 && level < chars.len() && chars[level] == ' ' {
        Some((level, after(line, level + 1)))
    } else {
        None
    }
}

/// The number and the text of an ordered list item.
pub fn ordered_list_item(line: &str) -> (r: Option<(String, String)>)
    ensures
        match r {
            Some((n, item)) => ordered_item(line@) == Some((n@, item@)),
            None => ordered_item(line@) is None,
        },
{
    let chars = chars_of(line);
    assert(chars@.skip(0) =~= line@);
    let dot: usize = run_from(&chars, 0, CharClass::Digit);
    if dot >= 1 && chars.len() - dot >= 2 && chars[dot] == '.' && chars[dot + 1] == ' ' {
        Some((before(line, dot), after(line, dot + 2)))
    } else {
        None
    }
}

/// The text of a bullet list item.
pub fn bullet_list_item(line: &str) -> (r: Option<String>)
    ensures
        match r {
            Some(item) => bullet_item(line@) == Some(item@),
            None => bullet_item(line@) is None,
        },
{
    match strip_prefix_of(line, "- ") {
        Some(item) => Some(item),
        None => strip_prefix_of(line, "* "),
    }
}

fn skip_fences(s: &str) -> (r: String)
    ensures
        r@ == without_fences(s@),
    decreases s@.len(),
{
    match strip_prefix_of(s, "```") {
        Some(rest) => {
            proof {
                reveal_strlit("```");
            }
            skip_fences(&rest)
        },
        None => s.to_owned(),
    }
}

/// Markdown that arrives in pieces. Each complete line is rendered once.
pub struct MarkdownStream {
    buffer: String,
    in_code_block: bool,
}

/// What a stream still holds back, and whether a code block is open.
pub struct MarkdownState {
    pub pending: Seq<char>,
    pub in_code: bool,
}

impl View for MarkdownStream {
    type V = MarkdownState;

    closed spec fn view(&self) -> MarkdownState {
        MarkdownState { pending: self.buffer@, in_code: self.in_code_block }
    }
}

/// Renders every complete line of what is held back.
pub open spec fn drained(state: MarkdownState) -> (MarkdownState, Seq<char>)
    decreases state.pending.len(),
{
    match find(state.pending, "\n"@) {
        Some(i) => {
            proof {
                lemma_find(state.pending, "\n"@);
                reveal_strlit("\n");
            }
            let (in_code, out) = rendered_line(state.pending.take(i), state.in_code);
            let (next, more) = drained(
                MarkdownState { pending: state.pending.skip(i + 1), in_code },
            );
            (next, out + "\n"@ + more)
        },
        None => (state, seq![]),
    }
}

/// A stream after `delta` has arrived, and what that prints.
pub open spec fn pushed(state: MarkdownState, delta: Seq<char>) -> (MarkdownState, Seq<char>) {
    drained(MarkdownState { pending: state.pending + delta, in_code: state.in_code })
}

/// A stream after its end, and what that prints.
pub open spec fn finished(state: MarkdownState) -> (MarkdownState, Seq<char>) {
    if state.pending.len() == 0 {
        (state, RESET@)
    } else {
        let (in_code, out) = rendered_line(state.pending, state.in_code);
        (MarkdownState { pending: seq![], in_code }, out + "\n"@ + RESET@)
    }
}

/// The state of a stream before anything has arrived.
pub open spec fn fresh() -> MarkdownState {
    MarkdownState { pending: seq![], in_code: false }
}

impl MarkdownStream {
    /// A stream before anything has arrived.
    pub fn new() -> (r: Self)
        ensures
            r@ == fresh(),
    {
        let r = MarkdownStream { buffer: String::new(), in_code_block: false };
        assert(r@.pending =~= seq![]);
        r
    }

    /// Takes in `delta` and returns what the lines it completes print.
    pub fn push(&mut self, delta: &str) -> (r: String)
        ensures
            (final(self)@, r@) == pushed(old(self)@, delta@),
    {
        let mut out = String::new();
        self.buffer.append(delta);
        let ghost start = self@;
        proof {
            reveal_strlit("\n");
            assert(out@ + drained(start).1 =~= drained(start).1);
        }
        loop
            invariant
                "\n"@.len() == 1,
                drained(start) == pushed(old(self)@, delta@),
                drained(self@).0 == drained(start).0,
                out@ + drained(self@).1 == drained(start).1,
            decreases self@.pending.len(),
        {
            let ghost was = self@;
            let ghost done = out@;
            match find_in(&self.buffer, "\n") {
                Some(newline) => {
                    let line = before(&self.buffer, newline);
                    self.buffer = after(&self.buffer, newline + 1);
                    let rendered = self.print_line(&line);
                    out.append(rendered.as_str());
                    out.append("\n");
                    assert(out@ + drained(self@).1 =~= done + drained(was).1);
                },
                None => {
                    assert(out@ =~= drained(start).1);
                    return out;
                },
            }
        }
    }

    /// Returns what the last, incomplete line prints, and a reset.
    pub fn finish(&mut self) -> (r: String)
        ensures
            (final(self)@, r@) == finished(old(self)@),
    {
        let mut out = String::new();
        if char_count(&self.buffer) > 0 {
            let line = self.buffer.clone();
            self.buffer = String::new();
            let rendered = self.print_line(&line);
            out.append(rendered.as_str());
            out.append("\n");
            out.append(RESET);
            assert(self@.pending =~= seq![]);
            assert(out@ =~= finished(old(self)@).1);
        } else {
            out.append(RESET);
            assert(out@ =~= RESET@);
        }
        out
    }

    /// Renders one line, given without its line ending.
    fn print_line(&mut self, line: &str) -> (r: String)
        ensures
            final(self)@.pending == old(self)@.pending,
            (final(self)@.in_code, r@) == rendered_line(line@, old(self)@.in_code),
    {
        let body = trim_start_of(line, CharClass::White);
        if starts(&body, "```") {
            let lang = trim_white(&skip_fences(&body));
            let mut out = DIM.to_owned();
            if self.in_code_block || char_count(&lang) == 0 {
                self.in_code_block = !self.in_code_block;
                out.append("```");
            } else {
                self.in_code_block = true;
                out.append("``` ");
                out.append(lang.as_str());
            }
            out.append(RESET);
            return out;
        }
        if self.in_code_block {
            let mut out = BG_DARK.to_owned();
            out.append(line);
            out.append(RESET);
            return out;
        }
        if char_count(&body) == 0 {
            let out = String::new();
            assert(out@ =~= seq![]);
            return out;
        }
        if let Some((level, title)) = markdown_heading(&body) {
            let mut out = BOLD.to_owned();
            out.append(CYAN);
            out.append(repeat('#', level).as_str());
            out.append(" ");
            out.append(render_inline(&trim_white(&title)).as_str());
            out.append(RESET);
            return out;
        }
        if let Some(item) = bullet_list_item(&body) {
            let mut out = "  ".to_owned();
            out.append(YELLOW);
            out.append("-");
            out.append(RESET);
            out.append(" ");
            out.append(render_inline(&item).as_str());
            return out;
        }
        if let Some((n, item)) = ordered_list_item(&body) {
            let mut out = "  ".to_owned();
            out.append(YELLOW);
            out.append(n.as_str());
            out.append(".");
            out.append(RESET);
            out.append(" ");
            out.append(render_inline(&item).as_str());
            return out;
        }
        if starts(&body, ">") {
            let quote = trim_start_of(&trim_start_of(&body, CharClass::Is('>')), CharClass::White);
            let mut out = DIM.to_owned();
            out.append("| ");
            out.append(render_inline(&quote).as_str());
            out.append(RESET);
            return out;
        }
        render_inline(line)
    }
}

/// What `text` prints as a whole.
pub open spec fn markdown(text: Seq<char>) -> Seq<char> {
    let (state, out) = pushed(fresh(), text);
    out + finished(state).1
}

/// Renders a whole text.
pub fn render_markdown(text: &str) -> (r: String)
    ensures
        r@ == markdown(text@),
{
    let mut stream = MarkdownStream::new();
    let mut out = stream.push(text);
    let end = stream.finish();
    out.append(end.as_str());
    out
}

// ---------------------------------------------------------------------------
// Laws of the stream
// ---------------------------------------------------------------------------

/// The first line end of a text is also that of any continuation of it.
proof fn lemma_find_newline_stays(a: Seq<char>, b: Seq<char>)
    requires
        find(a, "\n"@) is Some,
    ensures
        find(a + b, "\n"@) == find(a, "\n"@),
{
    reveal_strlit("\n");
    lemma_find(a, "\n"@);
    let i = find(a, "\n"@).unwrap();
    let nl = "\n"@;
    assert((a + b).subrange(i, i + 1) =~= a.subrange(i, i + 1));
    assert forall|j: int| 0 <= j < i implies !#[trigger] occurs_at(a + b, nl, j) by {
        assert((a + b).subrange(j, j + 1) =~= a.subrange(j, j + 1));
        assert(!occurs_at(a, nl, j));
    }
    lemma_find_is(a + b, nl, i);
}

/// What a stream prints does not depend on how its text is cut: pushing `a` and
/// then `b` leaves the same state and prints the same as pushing `a + b`.
pub proof fn law_markdown_cut_anywhere(state: MarkdownState, a: Seq<char>, b: Seq<char>)
    ensures
        ({
            let (mid, first) = pushed(state, a);
            let (end, second) = pushed(mid, b);
            pushed(state, a + b) == (end, first + second)
        }),
{
    lemma_drained_cut(MarkdownState { pending: state.pending + a, in_code: state.in_code }, b);
    assert(state.pending + (a + b) =~= state.pending + a + b);
}

proof fn lemma_drained_cut(state: MarkdownState, b: Seq<char>)
    ensures
        ({
            let (mid, first) = drained(state);
            let (end, second) = pushed(mid, b);
            pushed(state, b) == (end, first + second)
        }),
    decreases state.pending.len(),
{
    let all = MarkdownState { pending: state.pending + b, in_code: state.in_code };
    match find(state.pending, "\n"@) {
        Some(i) => {
            lemma_find(state.pending, "\n"@);
            reveal_strlit("\n");
            lemma_find_newline_stays(state.pending, b);
            let (in_code, out) = rendered_line(state.pending.take(i), state.in_code);
            let rest = MarkdownState { pending: state.pending.skip(i + 1), in_code };
            lemma_drained_cut(rest, b);
            assert(all.pending.take(i) =~= state.pending.take(i));
            assert(all.pending.skip(i + 1) =~= rest.pending + b);
            let (mid, first) = drained(rest);
            let (end, second) = pushed(mid, b);
            assert(drained(state).1 + second =~= out + "\n"@ + (first + second));
        },
        None => {
            assert(drained(state).1 + pushed(state, b).1 =~= pushed(state, b).1);
        },
    }
}

/// The state and the output after a list of pieces has been pushed in order.
pub open spec fn pushed_all(state: MarkdownState, parts: Seq<Seq<char>>) -> (
    MarkdownState,
    Seq<char>,
)
    decreases parts.len(),
{
    if parts.len() == 0 {
        (state, seq![])
    } else {
        let (mid, first) = pushed_all(state, parts.drop_last());
        let (end, second) = pushed(mid, parts.last());
        (end, first + second)
    }
}

/// Text that arrives in any number of pieces prints what it prints as a whole.
pub proof fn law_streamed_as_whole(parts: Seq<Seq<char>>)
    ensures
        ({
            let (end, out) = pushed_all(fresh(), parts);
            out + finished(end).1 == markdown(joined(parts, seq![]))
        }),
{
    lemma_pushed_all(parts);
}

proof fn lemma_pushed_all(parts: Seq<Seq<char>>)
    ensures
        pushed_all(fresh(), parts) == pushed(fresh(), joined(parts, seq![])),
    decreases parts.len(),
{
    reveal_strlit("\n");
    if parts.len() == 0 {
        assert(fresh().pending + seq![] =~= fresh().pending);
        lemma_find(fresh().pending, "\n"@);
    } else {
        lemma_pushed_all(parts.drop_last());
        let head = joined(parts.drop_last(), seq![]);
        law_markdown_cut_anywhere(fresh(), head, parts.last());
        if parts.len() == 1 {
            assert(head + parts.last() =~= parts[0]);
        } else {
            assert(head + seq![] + parts.last() =~= head + parts.last());
        }
    }
}

/// A stream holds back no complete line.
pub proof fn law_no_line_held_back(state: MarkdownState, delta: Seq<char>)
    ensures
        find(pushed(state, delta).0.pending, "\n"@) is None,
{
    lemma_drained_holds_no_line(
        MarkdownState { pending: state.pending + delta, in_code: state.in_code },
    );
}

proof fn lemma_drained_holds_no_line(state: MarkdownState)
    ensures
        find(drained(state).0.pending, "\n"@) is None,
    decreases state.pending.len(),
{
    if let Some(i) = find(state.pending, "\n"@) {
        lemma_find(state.pending, "\n"@);
        reveal_strlit("\n");
        let (in_code, out) = rendered_line(state.pending.take(i), state.in_code);
        lemma_drained_holds_no_line(MarkdownState { pending: state.pending.skip(i + 1), in_code });
    }
}

/// Text without backquotes and asterisks in pairs is printed as it is.
pub proof fn law_plain_text_unchanged(text: Seq<char>)
    requires
        find(text, "`"@) is None,
        find(text, "**"@) is None,
    ensures
        inline(text, false) == text,
{
}

// ---------------------------------------------------------------------------
// Banner
// ---------------------------------------------------------------------------

/// `text` cut to `width` characters and set in the middle of that width, one
/// more space on the right where the spaces do not divide evenly.
pub open spec fn centered(text: Seq<char>, width: int) -> Seq<char> {
    let t = at_most(text, width);
    let left = (width - t.len()) / 2;
    repeated(' ', left as nat) + t + repeated(' ', (width - t.len() - left) as nat)
}

/// `text` cut to `max_chars` characters.
pub fn fit_banner_text(text: &str, max_chars: usize) -> (r: String)
    ensures
        r@ == at_most(text@, max_chars as int),
{
    first_chars(text, max_chars)
}

/// `text` set in the middle of `width` characters.
pub fn center_banner_text(text: &str, width: usize) -> (r: String)
    ensures
        r@ == centered(text@, width as int),
        r@.len() == width,
{
    let fitted = fit_banner_text(text, width);
    let len: usize = char_count(&fitted);
    if len >= width {
        assert(repeated(' ', 0) + fitted@ + repeated(' ', 0) =~= fitted@);
        return fitted;
    }
    let left: usize = (width - len) / 2;
    let right: usize = width - len - left;
    let mut out = repeat(' ', left);
    out.append(fitted.as_str());
    out.append(repeat(' ', right).as_str());
    out
}

/// The width without the two corner characters.
pub open spec fn inside(width: int) -> nat {
    if width >= 2 {
        (width - 2) as nat
    } else {
        0
    }
}

/// A horizontal border of the banner.
pub open spec fn border(left: char, fill: char, right: char, width: int) -> Seq<char> {
    (BOLD@ + CYAN@).push(left) + repeated(fill, inside(width)).push(right) + RESET@
}

/// An empty line of the banner.
pub open spec fn empty_line(width: int) -> Seq<char> {
    BOLD@ + CYAN@ + "║"@ + repeated(' ', inside(width)) + "║"@ + RESET@
}

pub fn banner_border(left: char, fill: char, right: char, width: usize) -> (r: String)
    ensures
        r@ == border(left, fill, right, width as int),
{
    let inner: usize = if width >= 2 {
        width - 2
    } else {
        0
    };
    let mut out = BOLD.to_owned();
    out.append(CYAN);
    out.push(left);
    let mut middle = repeat(fill, inner);
    middle.push(right);
    out.append(middle.as_str());
    out.append(RESET);
    out
}

pub fn banner_empty_line(width: usize) -> (r: String)
    ensures
        r@ == empty_line(width as int),
{
    let inner: usize = if width >= 2 {
        width - 2
    } else {
        0
    };
    let mut out = BOLD.to_owned();
    out.append(CYAN);
    out.append("║");
    out.append(repeat(' ', inner).as_str());
    out.append("║");
    out.append(RESET);
    out
}

/// A line of the banner that frames `text`.
pub open spec fn framed(text: Seq<char>) -> Seq<char> {
    BOLD@ + CYAN@ + "║ "@ + text + " ║"@ + RESET@
}

/// The onboarding lines of the banner, the first behind a label and the others
/// indented to it.
pub open spec fn onboarding_lines(onboarding: Seq<Seq<char>>) -> Seq<char>
    decreases onboarding.len(),
{
    if onboarding.len() == 0 {
        seq![]
    } else if onboarding.len() == 1 {
        BOLD@ + YELLOW@ + "onboarding>"@ + RESET@ + " "@ + onboarding[0] + "\n"@
    } else {
        onboarding_lines(onboarding.drop_last()) + DIM@ + "           "@ + RESET@ + " "@
            + onboarding.last() + "\n"@
    }
}

/// The two border lines, the title and the subtitle.
pub open spec fn banner_box(title: Seq<char>, subtitle: Seq<char>) -> Seq<char> {
    border('╔', '═', '╗', BANNER_WIDTH as int) + "\n"@ + empty_line(BANNER_WIDTH as int)
        + "\n"@ + framed(centered(title, BANNER_INNER_WIDTH as int)) + "\n"@ + framed(
        centered(subtitle, BANNER_INNER_WIDTH as int),
    ) + "\n"@ + empty_line(BANNER_WIDTH as int) + "\n"@ + border(
        '╚',
        '═',
        '╝',
        BANNER_WIDTH as int,
    ) + "\n"@
}

/// What the banner says of the session.
pub open spec fn banner_facts(
    provider: Seq<char>,
    model: Seq<char>,
    workspace: Seq<char>,
    access: Seq<char>,
) -> Seq<char> {
    let facts = DIM@ + "provider"@ + RESET@ + " "@ + provider + "  "@ + DIM@ + "model"@ + RESET@
        + " "@ + model + "  "@ + DIM@ + "access"@ + RESET@ + " "@ + access + "\n"@ + DIM@
        + "workspace"@ + RESET@ + " "@ + workspace + "\n"@;
    if access == "full-system"@ {
        facts + BOLD@ + RED@ + "warning>"@ + RESET@
            + " full system access is enabled: absolute paths, path escapes, shell, and writes are allowed\n"@
    } else {
        facts
    }
}

/// The onboarding part of the banner.
pub open spec fn banner_onboarding_part(onboarding: Seq<Seq<char>>) -> Seq<char> {
    if onboarding.len() == 0 {
        BOLD@ + YELLOW@ + "onboarding>"@ + RESET@
            + " /help commands  /models local models  /search web search  /permissions safety  /terminal real shell  /exit quit\n"@
    } else {
        onboarding_lines(onboarding)
    }
}

/// The startup banner.
pub open spec fn banner_text(
    title: Seq<char>,
    subtitle: Seq<char>,
    provider: Seq<char>,
    model: Seq<char>,
    workspace: Seq<char>,
    access: Seq<char>,
    onboarding: Seq<Seq<char>>,
    tip: Seq<char>,
) -> Seq<char> {
    banner_box(title, subtitle) + banner_facts(provider, model, workspace, access)
        + banner_onboarding_part(onboarding) + (DIM@ + "tip"@ + RESET@ + " "@ + tip + "\n\n"@)
}

fn banner_frame(text: &str) -> (r: String)
    ensures
        r@ == framed(centered(text@, BANNER_INNER_WIDTH as int)),
{
    let mut out = BOLD.to_owned();
    out.append(CYAN);
    out.append("║ ");
    out.append(center_banner_text(text, BANNER_INNER_WIDTH).as_str());
    out.append(" ║");
    out.append(RESET);
    out
}

fn banner_head(title: &str, subtitle: &str) -> (r: String)
    ensures
        r@ == banner_box(title@, subtitle@),
{
    let mut out = banner_border('╔', '═', '╗', BANNER_WIDTH);
    out.append("\n");
    out.append(banner_empty_line(BANNER_WIDTH).as_str());
    out.append("\n");
    out.append(banner_frame(title).as_str());
    out.append("\n");
    out.append(banner_frame(subtitle).as_str());
    out.append("\n");
    out.append(banner_empty_line(BANNER_WIDTH).as_str());
    out.append("\n");
    out.append(banner_border('╚', '═', '╝', BANNER_WIDTH).as_str());
    out.append("\n");
    out
}

fn banner_state(provider: &str, model: &str, workspace: &str, access: &str) -> (r: String)
    ensures
        r@ == banner_facts(provider@, model@, workspace@, access@),
{
    let mut out = DIM.to_owned();
    out.append("provider");
    out.append(RESET);
    out.append(" ");
    out.append(provider);
    out.append("  ");
    out.append(DIM);
    out.append("model");
    out.append(RESET);
    out.append(" ");
    out.append(model);
    out.append("  ");
    out.append(DIM);
    out.append("access");
    out.append(RESET);
    out.append(" ");
    out.append(access);
    out.append("\n");
    out.append(DIM);
    out.append("workspace");
    out.append(RESET);
    out.append(" ");
    out.append(workspace);
    out.append("\n");
    if same(access, "full-system") {
        out.append(BOLD);
        out.append(RED);
        out.append("warning>");
        out.append(RESET);
        out.append(
            " full system access is enabled: absolute paths, path escapes, shell, and writes are allowed\n",
        );
    }
    out
}

fn banner_guide(onboarding: &Vec<String>) -> (r: String)
    ensures
        r@ == banner_onboarding_part(texts(onboarding@)),
{
    if onboarding.len() == 0 {
        let mut out = BOLD.to_owned();
        out.append(YELLOW);
        out.append("onboarding>");
        out.append(RESET);
        out.append(
            " /help commands  /models local models  /search web search  /permissions safety  /terminal real shell  /exit quit\n",
        );
        return out;
    }
    let mut out = BOLD.to_owned();
    out.append(YELLOW);
    out.append("onboarding>");
    out.append(RESET);
    out.append(" ");
    out.append(onboarding[0].as_str());
    out.append("\n");
    let mut i: usize = 1;
    let ghost all = texts(onboarding@);
    assert(all.take(1)[0] == all[0]);
    while i < onboarding.len()
        invariant
            1 <= i <= onboarding@.len(),
            all == texts(onboarding@),
            out@ == onboarding_lines(all.take(i as int)),
        decreases onboarding@.len() - i,
    {
        out.append(DIM);
        out.append("           ");
        out.append(RESET);
        out.append(" ");
        out.append(onboarding[i].as_str());
        out.append("\n");
        assert(all.take(i + 1).drop_last() =~= all.take(i as int));
        i += 1;
    }
    assert(all.take(onboarding@.len() as int) =~= all);
    out
}

/// The startup banner, which `/clear` prints again.
pub fn banner(
    title: &str,
    subtitle: &str,
    provider: &str,
    model: &str,
    workspace: &str,
    access: &str,
    onboarding: &Vec<String>,
    tip: &str,
) -> (r: String)
    ensures
        r@ == banner_text(
            title@,
            subtitle@,
            provider@,
            model@,
            workspace@,
            access@,
            texts(onboarding@),
            tip@,
        ),
{
    let mut out = banner_head(title, subtitle);
    out.append(banner_state(provider, model, workspace, access).as_str());
    out.append(banner_guide(onboarding).as_str());
    let mut last = DIM.to_owned();
    last.append("tip");
    last.append(RESET);
    last.append(" ");
    last.append(tip);
    last.append("\n\n");
    out.append(last.as_str());
    out
}

// ---------------------------------------------------------------------------
// Prompts and notices
// ---------------------------------------------------------------------------

/// A bold label in one color, followed by a space.
pub open spec fn label(color: Seq<char>, name: Seq<char>) -> Seq<char> {
    BOLD@ + color + name + RESET@ + " "@
}

fn labelled(color: &str, name: &str) -> (r: String)
    ensures
        r@ == label(color@, name@),
{
    let mut out = BOLD.to_owned();
    out.append(color);
    out.append(name);
    out.append(RESET);
    out.append(" ");
    out
}

/// The prompt before an answer of the assistant.
pub fn assistant_start() -> (r: String)
    ensures
        r@ == label(CYAN@, "autofix>"@),
{
    labelled(CYAN, "autofix>")
}

/// What opens a visible thinking trace.
pub fn thinking_start() -> (r: String)
    ensures
        r@ == DIM@ + "[thinking] "@,
{
    let mut out = DIM.to_owned();
    out.append("[thinking] ");
    out
}

/// A piece of a visible thinking trace.
pub fn stream_thinking(delta: &str) -> (r: String)
    ensures
        r@ == delta@,
{
    delta.to_owned()
}

/// What ends a visible thinking trace, before the answer.
pub open spec fn thinking_end_text() -> Seq<char> {
    RESET@ + "\n"@ + label(CYAN@, "autofix>"@)
}

pub fn thinking_end() -> (r: String)
    ensures
        r@ == thinking_end_text(),
{
    let mut out = RESET.to_owned();
    out.append("\n");
    out.append(assistant_start().as_str());
    out
}

/// Switches every attribute off.
pub fn stream_reset() -> (r: String)
    ensures
        r@ == RESET@,
{
    RESET.to_owned()
}

/// The line that names a tool.
pub open spec fn tool_line(name: Seq<char>) -> Seq<char> {
    label(MAGENTA@, "tool>"@) + BOLD@ + MAGENTA@ + name + RESET@ + "\n"@
}

/// Announces a tool.
pub fn tool_start(label: &str) -> (r: String)
    ensures
        r@ == tool_line(label@),
{
    let mut out = labelled(MAGENTA, "tool>");
    out.append(BOLD);
    out.append(MAGENTA);
    out.append(label);
    out.append(RESET);
    out.append("\n");
    out
}

/// Shows the result of a tool, as Markdown.
pub fn tool_result(label: &str, result: &str) -> (r: String)
    ensures
        r@ == tool_line(label@) + markdown(result@),
{
    let mut out = tool_start(label);
    out.append(render_markdown(result).as_str());
    out
}

/// A notice.
pub fn info(message: &str) -> (r: String)
    ensures
        r@ == label(BLUE@, "info>"@) + message@ + "\n"@,
{
    let mut out = labelled(BLUE, "info>");
    out.append(message);
    out.append("\n");
    out
}

/// An error notice.
pub fn error(message: &str) -> (r: String)
    ensures
        r@ == label(RED@, "error>"@) + message@ + "\n"@,
{
    let mut out = labelled(RED, "error>");
    out.append(message);
    out.append("\n");
    out
}

/// A horizontal rule of sixty characters.
pub fn divider() -> (r: String)
    ensures
        r@ == DIM@ + repeated('─', 60) + RESET@ + "\n"@,
{
    let mut out = DIM.to_owned();
    out.append(repeat('─', 60).as_str());
    out.append(RESET);
    out.append("\n");
    out
}

/// Clears the terminal and moves to its corner.
pub fn clear_screen() -> (r: String)
    ensures
        r@ == "\x1b[2J\x1b[H"@,
{
    "\x1b[2J\x1b[H".to_owned()
}

/// The line-mode help.
pub const HELP_TEXT: &'static str = r#"Commands
  /help              show this help
  /config            show current config file state
  /config reload     reload autofix_config.json from disk
  /memory            show memory notes
  /memory add <text> add a durable memory note
  /memory clear      clear all memory notes
  /memory reload     reload memory.json from disk
  /skills            show active skills
  /skills list       list available skills on disk
  /skills reload     reload active skill files
  /skills enable <name> add a skill to the active set
  /skills disable <name> remove a skill from the active set
  /worktree          show git worktree state
  /worktree list     list worktrees in porcelain format
  /worktree auto     create and switch to an auto worktree if needed
  /worktree add <path> [branch] create a new worktree and switch to it
  /worktree switch <path> switch the active workspace to an existing worktree
  /worktree remove <path> remove a worktree
  /worktree prune    prune stale worktree metadata
  /agents            list isolated worker agents
  /agents spawn <name> | <task> spawn a worker in a fresh worktree
  /agents read <id>  show worker status and file paths
  /session           show current session state
  /session list      list saved sessions
  /session history   show current command history
  /session save      persist the current session record
  /session new       start a fresh session
  /session resume <id> resume a saved session into a fresh current session
  /history           show current command history
  /interrupt         stop the active model stream and save the interrupted session
  /provider          show provider configuration
  /permissions       show shell/write approval modes
  /permissions ask   ask before shell commands and file writes
  /permissions allow allow shell commands and file writes
  /permissions deny  deny shell commands and file writes
  /permissions shell <ask|allow|deny>
  /permissions write <ask|allow|deny>
  /thinking          show thinking mode and trace visibility
  /thinking off      ask Ollama to stop thinking for faster answers
  /thinking on       ask Ollama to return thinking tokens
  /thinking hide     hide thinking trace in the TUI
  /thinking show     show thinking trace in the TUI
  /stop              show configured stop sequences
  /stop add <text>   add a stop sequence
  /stop set <a,b,c>  replace stop sequences
  /stop clear        clear stop sequences
  /models            list locally installed Ollama models
  /use-model <name>  switch to an installed Ollama model
  /list [path]       list workspace files
  /read <path>       read a file
  /write <path>      write a file; finish input with a single '.'
  /attach file <path> append a file to the next prompt
  /attach image <path> append an image reference to the next prompt
  /attach show       show queued prompt attachments
  /attach clear      clear queued prompt attachments
  /search <query>    search the web with DuckDuckGo
  /shell             enter shell mode
  /shell <command>   run one shell command with confirmation
  !<command>         run one shell command from chat mode
  /terminal          open your real shell in the workspace
  /terminal <shell>  open a specific shell, e.g. /terminal /bin/bash
  /chat              leave shell mode
  /exit-shell        leave shell mode
  /clear             clear the terminal
  /exit              quit

Shortcuts
  Empty input is ignored.
  Assistant responses stream as tokens arrive."#;

/// The text that `/help` shows in line mode.
pub fn help_text() -> (r: &'static str)
    ensures
        r@ == HELP_TEXT@,
{
    HELP_TEXT
}

// ---------------------------------------------------------------------------
// Laws of what is printed
// ---------------------------------------------------------------------------

/// Inside an open code block a line that is no fence is printed as it is, on a dark ground, and
/// the block stays open.
pub proof fn law_code_is_printed_as_it_is(line: Seq<char>)
    requires
        !begins(trim_start(line, CharClass::White), "```"@),
    ensures
        rendered_line(line, true).1 == BG_DARK@ + line + RESET@,
        rendered_line(line, true).0,
{
}

/// A fence opens a code block where none is open and ends the one that is; no other line does
/// either.
pub proof fn law_fences_open_and_end_code(line: Seq<char>, in_code: bool)
    ensures
        begins(trim_start(line, CharClass::White), "```"@) ==> rendered_line(line, in_code).0
            == !in_code,
        !begins(trim_start(line, CharClass::White), "```"@) ==> rendered_line(line, in_code).0
            == in_code,
{
}

/// The fence that opens a code block is printed with the name of its language, the one that
/// ends it alone.
pub proof fn law_fences_are_printed(lang: Seq<char>)
    requires
        lang.len() > 0,
        !crate::text::is_white(lang[0]),
        !crate::text::is_white(lang.last()),
        lang[0] != '`',
    ensures
        rendered_line("```"@ + lang, false).1 == DIM@ + "``` "@ + lang + RESET@,
        rendered_line("```"@ + lang, true).1 == DIM@ + "```"@ + RESET@,
        rendered_line("```"@, false).1 == DIM@ + "```"@ + RESET@,
        rendered_line("```"@, true).1 == DIM@ + "```"@ + RESET@,
{
    reveal_strlit("```");
    let line = "```"@ + lang;
    crate::text::lemma_run_len_is(line, CharClass::White, 0);
    crate::text::lemma_run_len_is("```"@, CharClass::White, 0);
    assert(line.skip(0) =~= line);
    assert("```"@.skip(0) =~= "```"@);
    assert(line.subrange(0, 3) =~= "```"@);
    assert("```"@.subrange(0, 3) =~= "```"@);
    assert(line.skip(3) =~= lang);
    assert("```"@.skip(3) =~= seq![]);
    if begins(lang, "```"@) {
        assert(lang.subrange(0, 3)[0] == lang[0]);
    }
    assert(without_fences(lang) == lang);
    assert(without_fences(line) == lang);
    let none: Seq<char> = seq![];
    assert(without_fences(none) == none);
    assert(without_fences("```"@) == none);
    crate::text::lemma_run_len_is(lang, CharClass::White, 0);
    assert(lang.skip(0) =~= lang);
    crate::text::lemma_trim_end_is(lang, CharClass::White, lang.len() as int);
    assert(lang.take(lang.len() as int) =~= lang);
    crate::text::lemma_run_len(none, CharClass::White);
    crate::text::lemma_trim_end(none.skip(run_len(none, CharClass::White) as int), CharClass::White);
}

/// What is left of a text without its escape sequences, each of which runs from an escape
/// character to the next `m`.
pub open spec fn unescaped(s: Seq<char>) -> Seq<char>
    decreases s.len(),
{
    if s.len() == 0 {
        seq![]
    } else if s[0] == '\u{1b}' {
        let n = run_len(s, CharClass::Not('m')) as int;
        if 0 <= n < s.len() {
            unescaped(s.skip(n + 1))
        } else {
            seq![]
        }
    } else {
        seq![s[0]] + unescaped(s.skip(1))
    }
}

/// Whether a character may be a mark of Markdown or a blank, rather than text.
pub open spec fn is_mark(c: char) -> bool {
    crate::text::is_white(c) || c == '*' || c == '`' || c == '#' || c == '-' || c == '>' || c == '|'
}

/// The characters that are no marks.
pub open spec fn no_mark() -> spec_fn(char) -> bool {
    |c: char| !is_mark(c)
}

/// The text of a line of Markdown: its characters without the marks and the blanks.
pub open spec fn ink(s: Seq<char>) -> Seq<char> {
    s.filter(no_mark())
}

proof fn lemma_unescaped_plain(a: Seq<char>, tail: Seq<char>)
    requires
        forall|i: int| 0 <= i < a.len() ==> #[trigger] a[i] != '\u{1b}',
    ensures
        unescaped(a + tail) == a + unescaped(tail),
    decreases a.len(),
{
    if a.len() == 0 {
        assert(a + tail =~= tail);
        assert(a + unescaped(tail) =~= unescaped(tail));
    } else {
        let s = a + tail;
        assert(s[0] == a[0]);
        assert(s.skip(1) =~= a.skip(1) + tail);
        lemma_unescaped_plain(a.skip(1), tail);
        assert(seq![a[0]] + (a.skip(1) + unescaped(tail)) =~= a + unescaped(tail));
    }
}

proof fn lemma_unescaped_code(code: Seq<char>, tail: Seq<char>)
    requires
        code.len() >= 2,
        code[0] == '\u{1b}',
        code.last() == 'm',
        forall|i: int| 0 <= i < code.len() - 1 ==> #[trigger] code[i] != 'm',
    ensures
        unescaped(code + tail) == unescaped(tail),
{
    let s = code + tail;
    let n = code.len() - 1;
    assert forall|i: int| 0 <= i < n implies CharClass::Not('m').has(#[trigger] s[i]) by {
        assert(s[i] == code[i]);
    }
    assert(s[n] == 'm');
    crate::text::lemma_run_len_is(s, CharClass::Not('m'), n);
    assert(s.skip(n + 1) =~= tail);
}

proof fn lemma_switches(tail: Seq<char>)
    ensures
        unescaped(RESET@ + tail) == unescaped(tail),
        unescaped(BOLD@ + tail) == unescaped(tail),
        unescaped(DIM@ + tail) == unescaped(tail),
        unescaped(CYAN@ + tail) == unescaped(tail),
        unescaped(YELLOW@ + tail) == unescaped(tail),
        unescaped(BLUE@ + tail) == unescaped(tail),
        unescaped(BG_DARK@ + tail) == unescaped(tail),
{
    reveal_strlit("\x1b[0m");
    reveal_strlit("\x1b[1m");
    reveal_strlit("\x1b[2m");
    reveal_strlit("\x1b[36m");
    reveal_strlit("\x1b[33m");
    reveal_strlit("\x1b[34m");
    reveal_strlit("\x1b[48;5;236m");
    lemma_unescaped_code(RESET@, tail);
    lemma_unescaped_code(BOLD@, tail);
    lemma_unescaped_code(DIM@, tail);
    lemma_unescaped_code(CYAN@, tail);
    lemma_unescaped_code(YELLOW@, tail);
    lemma_unescaped_code(BLUE@, tail);
    lemma_unescaped_code(BG_DARK@, tail);
}

proof fn lemma_ink_of_both(a: Seq<char>, b: Seq<char>)
    ensures
        ink(a + b) == ink(a) + ink(b),
{
    Seq::filter_distributes_over_add(a, b, no_mark());
}

proof fn lemma_ink_cut(s: Seq<char>, k: int)
    requires
        0 <= k <= s.len(),
    ensures
        ink(s) == ink(s.take(k)) + ink(s.skip(k)),
{
    assert(s =~= s.take(k) + s.skip(k));
    lemma_ink_of_both(s.take(k), s.skip(k));
}

proof fn lemma_marks_are_no_ink(s: Seq<char>)
    requires
        forall|i: int| 0 <= i < s.len() ==> is_mark(#[trigger] s[i]),
    ensures
        ink(s) == Seq::<char>::empty(),
    decreases s.len(),
{
    reveal(Seq::filter);
    if s.len() > 0 {
        assert(is_mark(s[s.len() - 1]));
        lemma_marks_are_no_ink(s.drop_last());
    }
}

proof fn lemma_emphasis_keeps_ink(text: Seq<char>, bold: bool, tail: Seq<char>)
    requires
        forall|i: int| 0 <= i < text.len() ==> #[trigger] text[i] != '\u{1b}',
    ensures
        ink(unescaped(emphasis(text, bold) + tail)) == ink(text) + ink(unescaped(tail)),
    decreases text.len(),
{
    lemma_find(text, "**"@);
    reveal_strlit("**");
    match find(text, "**"@) {
        Some(i) => {
            let head = text.take(i);
            let rest = text.skip(i + 2);
            let code = if bold {
                RESET@
            } else {
                BOLD@
            };
            let more = emphasis(rest, !bold) + tail;
            assert(emphasis(text, bold) + tail =~= head + (code + more));
            lemma_switches(more);
            lemma_unescaped_plain(head, code + more);
            lemma_ink_of_both(head, unescaped(more));
            lemma_emphasis_keeps_ink(rest, !bold, tail);
            lemma_ink_cut(text, i);
            lemma_ink_cut(text.skip(i), 2);
            assert(text.skip(i).take(2) =~= text.subrange(i, i + 2));
            assert(text.skip(i).skip(2) =~= rest);
            lemma_marks_are_no_ink(text.skip(i).take(2));
            assert(ink(text) =~= ink(head) + ink(rest));
            assert(ink(head) + (ink(rest) + ink(unescaped(tail))) =~= ink(text) + ink(
                unescaped(tail),
            ));
        },
        None => {
            lemma_switches(tail);
            lemma_ink_of_both(text, unescaped(tail));
            if bold {
                assert(emphasis(text, bold) + tail =~= text + (RESET@ + tail));
                lemma_unescaped_plain(text, RESET@ + tail);
            } else {
                lemma_unescaped_plain(text, tail);
            }
        },
    }
}

proof fn lemma_inline_keeps_ink(text: Seq<char>, in_code: bool, tail: Seq<char>)
    requires
        forall|i: int| 0 <= i < text.len() ==> #[trigger] text[i] != '\u{1b}',
    ensures
        ink(unescaped(inline(text, in_code) + tail)) == ink(text) + ink(unescaped(tail)),
    decreases text.len(),
{
    lemma_find(text, "`"@);
    reveal_strlit("`");
    match find(text, "`"@) {
        Some(i) => {
            let head = text.take(i);
            let rest = text.skip(i + 1);
            let more = inline(rest, !in_code) + tail;
            let code = if in_code {
                RESET@
            } else {
                BG_DARK@ + BLUE@
            };
            assert(inline(text, in_code) + tail =~= emphasis(head, false) + (code + more));
            lemma_switches(more);
            lemma_switches(BLUE@ + more);
            assert(BG_DARK@ + BLUE@ + more =~= BG_DARK@ + (BLUE@ + more));
            assert(unescaped(code + more) == unescaped(more));
            lemma_emphasis_keeps_ink(head, false, code + more);
            lemma_inline_keeps_ink(rest, !in_code, tail);
            lemma_ink_cut(text, i);
            lemma_ink_cut(text.skip(i), 1);
            assert(text.skip(i).take(1) =~= text.subrange(i, i + 1));
            assert(text.skip(i).skip(1) =~= rest);
            lemma_marks_are_no_ink(text.skip(i).take(1));
            assert(ink(text) =~= ink(head) + ink(rest));
            assert(ink(head) + (ink(rest) + ink(unescaped(tail))) =~= ink(text) + ink(
                unescaped(tail),
            ));
        },
        None => {
            lemma_switches(tail);
            if in_code {
                assert(inline(text, in_code) + tail =~= emphasis(text, false) + (RESET@ + tail));
                lemma_emphasis_keeps_ink(text, false, RESET@ + tail);
            } else {
                lemma_emphasis_keeps_ink(text, false, tail);
            }
        },
    }
}

proof fn lemma_trimming_keeps_ink(s: Seq<char>)
    ensures
        ink(trim_start(s, CharClass::White)) == ink(s),
        ink(trimmed(s)) == ink(s),
        ink(trim_start(s, CharClass::Is('>'))) == ink(s),
        ink(trim_start(s, CharClass::Is('#'))) == ink(s),
{
    crate::text::lemma_run_len(s, CharClass::White);
    crate::text::lemma_run_len(s, CharClass::Is('>'));
    crate::text::lemma_run_len(s, CharClass::Is('#'));
    let a = run_len(s, CharClass::White) as int;
    let b = run_len(s, CharClass::Is('>')) as int;
    let d = run_len(s, CharClass::Is('#')) as int;
    lemma_ink_cut(s, a);
    lemma_ink_cut(s, b);
    lemma_ink_cut(s, d);
    assert forall|i: int| 0 <= i < a implies is_mark(#[trigger] s.take(a)[i]) by {
        assert(CharClass::White.has(s[i]));
    }
    assert forall|i: int| 0 <= i < b implies is_mark(#[trigger] s.take(b)[i]) by {
        assert(CharClass::Is('>').has(s[i]));
    }
    assert forall|i: int| 0 <= i < d implies is_mark(#[trigger] s.take(d)[i]) by {
        assert(CharClass::Is('#').has(s[i]));
    }
    lemma_marks_are_no_ink(s.take(a));
    lemma_marks_are_no_ink(s.take(b));
    lemma_marks_are_no_ink(s.take(d));
    assert(ink(s) =~= ink(s.skip(a)));
    assert(ink(s) =~= ink(s.skip(b)));
    assert(ink(s) =~= ink(s.skip(d)));
    let t = trim_start(s, CharClass::White);
    crate::text::lemma_trim_end(t, CharClass::White);
    let e = crate::text::trim_end(t, CharClass::White).len() as int;
    lemma_ink_cut(t, e);
    assert forall|i: int| 0 <= i < t.skip(e).len() implies is_mark(#[trigger] t.skip(e)[i]) by {
        assert(CharClass::White.has(t[e + i]));
    }
    lemma_marks_are_no_ink(t.skip(e));
    assert(ink(t) =~= ink(t.take(e)));
}

proof fn lemma_fences_are_no_ink(s: Seq<char>)
    ensures
        ink(without_fences(s)) == ink(s),
    decreases s.len(),
{
    reveal_strlit("```");
    if begins(s, "```"@) {
        lemma_fences_are_no_ink(s.skip(3));
        lemma_ink_cut(s, 3);
        assert(s.take(3) =~= s.subrange(0, 3));
        lemma_marks_are_no_ink(s.take(3));
        assert(ink(s) =~= ink(s.skip(3)));
    }
}

proof fn lemma_prefix_is_no_ink(s: Seq<char>, k: int)
    requires
        0 <= k <= s.len(),
        forall|i: int| 0 <= i < k ==> is_mark(#[trigger] s[i]),
    ensures
        ink(s.skip(k)) == ink(s),
{
    lemma_ink_cut(s, k);
    assert forall|i: int| 0 <= i < k implies is_mark(#[trigger] s.take(k)[i]) by {
        assert(is_mark(s[i]));
    }
    lemma_marks_are_no_ink(s.take(k));
    assert(ink(s) =~= ink(s.skip(k)));
}

/// What a line prints, before what is printed behind it, holds the text of the line.
proof fn lemma_line_keeps_ink(line: Seq<char>, in_code: bool, tail: Seq<char>)
    requires
        forall|i: int| 0 <= i < line.len() ==> #[trigger] line[i] != '\u{1b}',
        !(in_code && begins(trim_start(line, CharClass::White), "```"@)),
    ensures
        ink(unescaped(rendered_line(line, in_code).1 + tail)) == ink(line) + ink(unescaped(tail)),
{
    let body = trim_start(line, CharClass::White);
    let out = rendered_line(line, in_code).1;
    let last = RESET@ + tail;
    crate::text::lemma_run_len(line, CharClass::White);
    lemma_trimming_keeps_ink(line);
    lemma_switches(tail);
    if begins(body, "```"@) {
        let lang = trimmed(without_fences(body));
        lemma_fences_are_no_ink(body);
        lemma_trimming_keeps_ink(without_fences(body));
        reveal_strlit("```");
        reveal_strlit("``` ");
        lemma_within(line, body);
        lemma_fences_within(body);
        lemma_trimmed_within(without_fences(body));
        lemma_within_all(lang, without_fences(body));
        lemma_within_all(without_fences(body), body);
        if lang.len() == 0 {
            assert(out + tail =~= DIM@ + ("```"@ + last));
            lemma_switches("```"@ + last);
            lemma_unescaped_plain("```"@, last);
            lemma_ink_of_both("```"@, unescaped(tail));
            lemma_marks_are_no_ink("```"@);
            assert(lang =~= seq![]);
            lemma_marks_are_no_ink(lang);
            assert(ink(line) + ink(unescaped(tail)) =~= ink(unescaped(tail)));
            assert(ink("```"@) + ink(unescaped(tail)) =~= ink(unescaped(tail)));
        } else {
            assert(out + tail =~= DIM@ + (("``` "@ + lang) + last));
            lemma_switches(("``` "@ + lang) + last);
            lemma_unescaped_plain("``` "@ + lang, last);
            lemma_ink_of_both("``` "@ + lang, unescaped(tail));
            lemma_ink_of_both("``` "@, lang);
            lemma_marks_are_no_ink("``` "@);
            assert(ink("``` "@) + ink(lang) =~= ink(line));
        }
    } else if in_code {
        assert(out + tail =~= BG_DARK@ + (line + last));
        lemma_switches(line + last);
        lemma_unescaped_plain(line, last);
        lemma_ink_of_both(line, unescaped(tail));
    } else if body.len() == 0 {
        assert(out + tail =~= tail);
        lemma_marks_are_no_ink(body);
        assert(ink(line) + ink(unescaped(tail)) =~= ink(unescaped(tail)));
    } else {
        lemma_body_keeps_ink(line, tail);
    }
}

/// Whether each character of one text is one of another.
pub open spec fn is_within(a: Seq<char>, b: Seq<char>) -> bool {
    forall|i: int| 0 <= i < a.len() ==> b.contains(#[trigger] a[i])
}

proof fn lemma_within(line: Seq<char>, body: Seq<char>)
    requires
        body == trim_start(line, CharClass::White),
    ensures
        is_within(body, line),
{
    crate::text::lemma_run_len(line, CharClass::White);
    let n = run_len(line, CharClass::White) as int;
    assert forall|i: int| 0 <= i < body.len() implies line.contains(#[trigger] body[i]) by {
        assert(line[n + i] == body[i]);
    }
}

proof fn lemma_within_all(a: Seq<char>, b: Seq<char>)
    requires
        is_within(a, b),
        forall|i: int| 0 <= i < b.len() ==> #[trigger] b[i] != '\u{1b}',
    ensures
        forall|i: int| 0 <= i < a.len() ==> #[trigger] a[i] != '\u{1b}',
{
    assert forall|i: int| 0 <= i < a.len() implies #[trigger] a[i] != '\u{1b}' by {
        assert(b.contains(a[i]));
    }
}

proof fn lemma_fences_within(s: Seq<char>)
    ensures
        is_within(without_fences(s), s),
    decreases s.len(),
{
    reveal_strlit("```");
    if begins(s, "```"@) {
        lemma_fences_within(s.skip(3));
        let t = without_fences(s);
        assert forall|i: int| 0 <= i < t.len() implies s.contains(#[trigger] t[i]) by {
            assert(s.skip(3).contains(t[i]));
            let j = choose|j: int| 0 <= j < s.skip(3).len() && s.skip(3)[j] == t[i];
            assert(s[j + 3] == t[i]);
        }
    } else {
        assert forall|i: int| 0 <= i < s.len() implies s.contains(#[trigger] s[i]) by {}
    }
}

proof fn lemma_trimmed_within(s: Seq<char>)
    ensures
        is_within(trimmed(s), s),
{
    crate::text::lemma_run_len(s, CharClass::White);
    let n = run_len(s, CharClass::White) as int;
    let t = trim_start(s, CharClass::White);
    crate::text::lemma_trim_end(t, CharClass::White);
    let u = trimmed(s);
    assert forall|i: int| 0 <= i < u.len() implies s.contains(#[trigger] u[i]) by {
        assert(u[i] == t[i]);
        assert(s[n + i] == u[i]);
    }
}

/// What a heading prints holds its text.
proof fn lemma_heading_keeps_ink(level: nat, title: Seq<char>, tail: Seq<char>)
    requires
        forall|i: int| 0 <= i < title.len() ==> #[trigger] title[i] != '\u{1b}',
    ensures
        ink(
            unescaped(
                BOLD@ + CYAN@ + repeated('#', level) + " "@ + inline(trimmed(title), false) + RESET@
                    + tail,
            ),
        ) == ink(title) + ink(unescaped(tail)),
{
    reveal_strlit(" ");
    let said = trimmed(title);
    let last = RESET@ + tail;
    let marks = repeated('#', level) + " "@;
    let more = inline(said, false) + last;
    let out = BOLD@ + CYAN@ + repeated('#', level) + " "@ + inline(said, false) + RESET@ + tail;
    lemma_trimming_keeps_ink(title);
    lemma_trimmed_within(title);
    lemma_within_all(said, title);
    assert(out =~= BOLD@ + (CYAN@ + (marks + more)));
    lemma_switches(CYAN@ + (marks + more));
    lemma_switches(marks + more);
    lemma_switches(tail);
    lemma_unescaped_plain(marks, more);
    lemma_ink_of_both(marks, unescaped(more));
    lemma_marks_are_no_ink(marks);
    lemma_inline_keeps_ink(said, false, last);
    assert(ink(marks) + ink(unescaped(more)) =~= ink(unescaped(more)));
}

/// What an item prints holds its number or its dash, and its text.
proof fn lemma_item_keeps_ink(number: Seq<char>, item: Seq<char>, tail: Seq<char>)
    requires
        forall|i: int| 0 <= i < number.len() ==> #[trigger] number[i] != '\u{1b}',
        forall|i: int| 0 <= i < item.len() ==> #[trigger] item[i] != '\u{1b}',
    ensures
        ink(
            unescaped(
                "  "@ + (YELLOW@ + (number + (RESET@ + (" "@ + (inline(item, false) + tail))))),
            ),
        ) == ink(number) + ink(item) + ink(unescaped(tail)),
{
    reveal_strlit(" ");
    reveal_strlit("  ");
    let shown = inline(item, false) + tail;
    let c = " "@ + shown;
    let b = number + (RESET@ + c);
    lemma_unescaped_plain("  "@, YELLOW@ + b);
    lemma_switches(b);
    lemma_unescaped_plain(number, RESET@ + c);
    lemma_switches(c);
    lemma_unescaped_plain(" "@, shown);
    lemma_ink_of_both("  "@, unescaped(b));
    lemma_ink_of_both(number, unescaped(c));
    lemma_ink_of_both(" "@, unescaped(shown));
    lemma_marks_are_no_ink("  "@);
    lemma_marks_are_no_ink(" "@);
    lemma_inline_keeps_ink(item, false, tail);
    assert(ink(" "@) + ink(unescaped(shown)) =~= ink(unescaped(shown)));
    assert(ink("  "@) + ink(unescaped(b)) =~= ink(unescaped(b)));
    assert(ink(number) + (ink(item) + ink(unescaped(tail))) =~= ink(number) + ink(item) + ink(
        unescaped(tail),
    ));
}

/// What a quotation prints holds its text.
proof fn lemma_quote_keeps_ink(quote: Seq<char>, tail: Seq<char>)
    requires
        forall|i: int| 0 <= i < quote.len() ==> #[trigger] quote[i] != '\u{1b}',
    ensures
        ink(unescaped(DIM@ + ("| "@ + (inline(quote, false) + (RESET@ + tail))))) == ink(quote)
            + ink(unescaped(tail)),
{
    reveal_strlit("| ");
    let last = RESET@ + tail;
    let more = inline(quote, false) + last;
    lemma_switches("| "@ + more);
    lemma_switches(tail);
    lemma_unescaped_plain("| "@, more);
    lemma_ink_of_both("| "@, unescaped(more));
    lemma_marks_are_no_ink("| "@);
    lemma_inline_keeps_ink(quote, false, last);
    assert(ink("| "@) + ink(unescaped(more)) =~= ink(unescaped(more)));
}

/// What a line outside code prints, before what is printed behind it, holds the text of the
/// line.
proof fn lemma_body_keeps_ink(line: Seq<char>, tail: Seq<char>)
    requires
        forall|i: int| 0 <= i < line.len() ==> #[trigger] line[i] != '\u{1b}',
        !begins(trim_start(line, CharClass::White), "```"@),
        trim_start(line, CharClass::White).len() > 0,
    ensures
        ink(unescaped(rendered_line(line, false).1 + tail)) == ink(line) + ink(unescaped(tail)),
{
    let body = trim_start(line, CharClass::White);
    let out = rendered_line(line, false).1;
    crate::text::lemma_run_len(line, CharClass::White);
    lemma_trimming_keeps_ink(line);
    lemma_within(line, body);
    lemma_within_all(body, line);
    if let Some((level, title)) = heading(body) {
        crate::text::lemma_run_len(body, CharClass::Is('#'));
        assert forall|i: int| 0 <= i < level + 1 implies is_mark(#[trigger] body[i]) by {
            if i < level {
                assert(CharClass::Is('#').has(body[i]));
            }
        }
        lemma_prefix_is_no_ink(body, level as int + 1);
        assert forall|i: int| 0 <= i < title.len() implies #[trigger] title[i] != '\u{1b}' by {
            assert(title[i] == body[level as int + 1 + i]);
        }
        lemma_heading_keeps_ink(level, title, tail);
    } else if let Some(item) = bullet_item(body) {
        lemma_bullet_keeps_ink(body, item, tail);
        assert(out + tail =~= "  "@ + (YELLOW@ + ("-"@ + (RESET@ + (" "@ + (inline(item, false)
            + tail))))));
    } else if let Some((n, item)) = ordered_item(body) {
        lemma_ordered_keeps_ink(body, n, item, tail);
        assert(out + tail =~= "  "@ + (YELLOW@ + ((n + "."@) + (RESET@ + (" "@ + (inline(
            item,
            false,
        ) + tail))))));
    } else if begins(body, ">"@) {
        let first = trim_start(body, CharClass::Is('>'));
        let quote = trim_start(first, CharClass::White);
        lemma_trimming_keeps_ink(body);
        lemma_trimming_keeps_ink(first);
        crate::text::lemma_run_len(body, CharClass::Is('>'));
        assert forall|i: int| 0 <= i < first.len() implies #[trigger] first[i] != '\u{1b}' by {
            assert(first[i] == body[run_len(body, CharClass::Is('>')) + i]);
        }
        lemma_within(first, quote);
        lemma_within_all(quote, first);
        lemma_quote_keeps_ink(quote, tail);
        assert(out + tail =~= DIM@ + ("| "@ + (inline(quote, false) + (RESET@ + tail))));
    } else {
        lemma_inline_keeps_ink(line, false, tail);
    }
}

proof fn lemma_bullet_keeps_ink(body: Seq<char>, item: Seq<char>, tail: Seq<char>)
    requires
        forall|i: int| 0 <= i < body.len() ==> #[trigger] body[i] != '\u{1b}',
        bullet_item(body) == Some(item),
    ensures
        ink(
            unescaped(
                "  "@ + (YELLOW@ + ("-"@ + (RESET@ + (" "@ + (inline(item, false) + tail))))),
            ),
        ) == ink(body) + ink(unescaped(tail)),
{
    reveal_strlit("-");
    reveal_strlit("- ");
    reveal_strlit("* ");
    assert(body[0] == body.subrange(0, 2)[0]);
    assert(body[1] == body.subrange(0, 2)[1]);
    lemma_prefix_is_no_ink(body, 2);
    assert(item =~= body.skip(2));
    assert forall|i: int| 0 <= i < item.len() implies #[trigger] item[i] != '\u{1b}' by {
        assert(item[i] == body[2 + i]);
    }
    lemma_item_keeps_ink("-"@, item, tail);
    lemma_marks_are_no_ink("-"@);
    assert(ink("-"@) + ink(item) =~= ink(body));
}

proof fn lemma_ordered_keeps_ink(body: Seq<char>, n: Seq<char>, item: Seq<char>, tail: Seq<char>)
    requires
        forall|i: int| 0 <= i < body.len() ==> #[trigger] body[i] != '\u{1b}',
        ordered_item(body) == Some((n, item)),
    ensures
        ink(
            unescaped(
                "  "@ + (YELLOW@ + ((n + "."@) + (RESET@ + (" "@ + (inline(item, false) + tail))))),
            ),
        ) == ink(body) + ink(unescaped(tail)),
{
    reveal_strlit(".");
    reveal_strlit(" ");
    crate::text::lemma_run_len(body, CharClass::Digit);
    let dot = n.len() as int;
    let number = n + "."@;
    assert forall|i: int| 0 <= i < item.len() implies #[trigger] item[i] != '\u{1b}' by {
        assert(item[i] == body[dot + 2 + i]);
    }
    assert forall|i: int| 0 <= i < number.len() implies #[trigger] number[i] != '\u{1b}' by {
        assert(number[i] == body[i]);
    }
    lemma_item_keeps_ink(number, item, tail);
    lemma_ink_cut(body, dot + 1);
    assert(body.take(dot + 1) =~= number);
    lemma_ink_cut(body.skip(dot + 1), 1);
    assert(body.skip(dot + 1).take(1) =~= " "@);
    assert(body.skip(dot + 1).skip(1) =~= item);
    lemma_marks_are_no_ink(" "@);
    assert(ink(body.skip(dot + 1)) =~= ink(item));
}

/// What a line prints, without the escape sequences and the marks, is all the text of the line
/// and nothing else. The fence that ends a code block is printed alone, and is left out here.
pub proof fn law_lines_keep_their_text(line: Seq<char>, in_code: bool)
    requires
        forall|i: int| 0 <= i < line.len() ==> #[trigger] line[i] != '\u{1b}',
        !(in_code && begins(trim_start(line, CharClass::White), "```"@)),
    ensures
        ink(unescaped(rendered_line(line, in_code).1)) == ink(line),
{
    let none: Seq<char> = seq![];
    lemma_line_keeps_ink(line, in_code, none);
    assert(rendered_line(line, in_code).1 + none =~= rendered_line(line, in_code).1);
    assert(unescaped(none) =~= none);
    lemma_marks_are_no_ink(none);
    assert(ink(line) + ink(unescaped(none)) =~= ink(line));
}

/// A line is printed when its end arrives, with all that was held back of it before, and ends
/// in a line end of its own.
pub proof fn law_each_line_is_printed(state: MarkdownState, line: Seq<char>)
    requires
        find(state.pending + line, "\n"@) is None,
    ensures
        pushed(state, line + "\n"@).1 == rendered_line(state.pending + line, state.in_code).1 + "\n"@,
        pushed(state, line + "\n"@).0.pending.len() == 0,
        pushed(state, line + "\n"@).0.in_code == rendered_line(
            state.pending + line,
            state.in_code,
        ).0,
        pushed(state, line).1.len() == 0,
        pushed(state, line).0 == (MarkdownState {
            pending: state.pending + line,
            in_code: state.in_code,
        }),
{
    reveal_strlit("\n");
    let held = state.pending + line;
    let all = held + "\n"@;
    let n = held.len() as int;
    assert(state.pending + (line + "\n"@) =~= all);
    lemma_find(held, "\n"@);
    assert(all.subrange(n, n + 1) =~= "\n"@);
    assert forall|j: int| 0 <= j < n implies !#[trigger] occurs_at(all, "\n"@, j) by {
        assert(!occurs_at(held, "\n"@, j));
        assert(all.subrange(j, j + 1) =~= held.subrange(j, j + 1));
    }
    lemma_find_is(all, "\n"@, n);
    assert(all.take(n) =~= held);
    assert(all.skip(n + 1) =~= seq![]);
    let (in_code, out) = rendered_line(held, state.in_code);
    let rest = MarkdownState { pending: all.skip(n + 1), in_code };
    lemma_find(rest.pending, "\n"@);
    assert(find(rest.pending, "\n"@) is None);
    assert(drained(rest) == (rest, Seq::<char>::empty()));
    assert(out + "\n"@ + Seq::<char>::empty() =~= out + "\n"@);
}

/// At the end what is held back is printed as a line, and everything is switched off.
pub proof fn law_the_last_line_is_printed(state: MarkdownState)
    ensures
        finished(state).0.pending.len() == 0,
        state.pending.len() > 0 ==> finished(state).1 == rendered_line(
            state.pending,
            state.in_code,
        ).1 + "\n"@ + RESET@,
        state.pending.len() == 0 ==> finished(state).1 == RESET@,
        !fresh().in_code,
        fresh().pending.len() == 0,
{
}

/// Printing a text prints each of its lines in order.
pub proof fn law_markdown_prints_line_by_line(line: Seq<char>, rest: Seq<char>)
    requires
        find(line, "\n"@) is None,
        !rendered_line(line, false).0,
    ensures
        markdown(line + "\n"@ + rest) == rendered_line(line, false).1 + "\n"@ + markdown(rest),
{
    let start = fresh();
    assert(start.pending + line =~= line);
    law_each_line_is_printed(start, line);
    law_markdown_cut_anywhere(start, line + "\n"@, rest);
    let (mid, first) = pushed(start, line + "\n"@);
    assert(mid.pending =~= start.pending);
    assert(mid == start);
    let (end, second) = pushed(mid, rest);
    assert(markdown(line + "\n"@ + rest) =~= first + markdown(rest));
}

/// A stretch between pairs of asterisks is bold, one between backquotes is set as code, and the
/// text around them is printed as it is.
pub proof fn law_stretches_are_marked(a: Seq<char>, b: Seq<char>, c: Seq<char>)
    requires
        forall|i: int| 0 <= i < a.len() ==> #[trigger] a[i] != '*' && a[i] != '`',
        forall|i: int| 0 <= i < b.len() ==> #[trigger] b[i] != '*' && b[i] != '`',
        forall|i: int| 0 <= i < c.len() ==> #[trigger] c[i] != '*' && c[i] != '`',
    ensures
        inline(a + "**"@ + b + "**"@ + c, false) == a + BOLD@ + b + RESET@ + c,
        inline(a + "`"@ + b + "`"@ + c, false) == a + (BG_DARK@ + BLUE@) + b + RESET@ + c,
{
    reveal_strlit("**");
    reveal_strlit("`");
    lemma_no_stars(a);
    lemma_no_stars(b);
    lemma_no_stars(c);
    let bold = a + "**"@ + b + "**"@ + c;
    lemma_find(bold, "`"@);
    if let Some(i) = find(bold, "`"@) {
        assert(bold.subrange(i, i + 1)[0] == bold[i]);
        assert(bold[i] == '`');
    }
    let tail = b + "**"@ + c;
    assert(bold =~= a + ("**"@ + tail));
    lemma_first_mark(a, "**"@, tail);
    lemma_first_mark(b, "**"@, c);
    assert(bold.take(a.len() as int) =~= a);
    assert(bold.skip(a.len() as int + 2) =~= tail);
    assert(tail =~= b + ("**"@ + c));
    assert(tail.take(b.len() as int) =~= b);
    assert(tail.skip(b.len() as int + 2) =~= c);
    assert(emphasis(c, false) == c);
    assert(emphasis(tail, true) =~= b + RESET@ + c);
    assert(emphasis(bold, false) =~= a + BOLD@ + b + RESET@ + c);
    let code = a + "`"@ + b + "`"@ + c;
    let rest = b + "`"@ + c;
    assert(code =~= a + ("`"@ + rest));
    assert(rest =~= b + ("`"@ + c));
    lemma_first_mark(a, "`"@, rest);
    lemma_first_mark(b, "`"@, c);
    assert(code.take(a.len() as int) =~= a);
    assert(code.skip(a.len() as int + 1) =~= rest);
    assert(rest.take(b.len() as int) =~= b);
    assert(rest.skip(b.len() as int + 1) =~= c);
    lemma_find(c, "`"@);
    if let Some(i) = find(c, "`"@) {
        assert(c.subrange(i, i + 1)[0] == c[i]);
    }
    assert(inline(c, false) == c);
    assert(inline(rest, true) =~= b + RESET@ + c);
    assert(inline(code, false) =~= a + (BG_DARK@ + BLUE@) + b + RESET@ + c);
}

proof fn lemma_no_stars(s: Seq<char>)
    requires
        forall|i: int| 0 <= i < s.len() ==> #[trigger] s[i] != '*' && s[i] != '`',
    ensures
        emphasis(s, false) == s,
{
    reveal_strlit("**");
    lemma_find(s, "**"@);
    if let Some(i) = find(s, "**"@) {
        assert(s.subrange(i, i + 2)[0] == s[i]);
    }
}

proof fn lemma_first_mark(s: Seq<char>, mark: Seq<char>, rest: Seq<char>)
    requires
        mark == "**"@ || mark == "`"@,
        forall|i: int| 0 <= i < s.len() ==> #[trigger] s[i] != '*' && s[i] != '`',
    ensures
        find(s + (mark + rest), mark) == Some(s.len() as int),
{
    reveal_strlit("**");
    reveal_strlit("`");
    let all = s + (mark + rest);
    let n = s.len() as int;
    assert(all.subrange(n, n + mark.len()) =~= mark);
    assert forall|j: int| 0 <= j < n implies !#[trigger] occurs_at(all, mark, j) by {
        if occurs_at(all, mark, j) {
            assert(all.subrange(j, j + mark.len())[0] == s[j]);
        }
    }
    lemma_find_is(all, mark, n);
}

/// One to six `#` and a space make a heading of that level; digits, a dot and a space an
/// ordered item of that number; a dash or an asterisk and a space an item.
pub proof fn law_headings_and_items_are_read(level: nat, number: Seq<char>, text: Seq<char>)
    requires
        number.len() > 0,
        forall|i: int| 0 <= i < number.len() ==> crate::text::is_digit(#[trigger] number[i]),
    ensures
        1 <= level <= 6 ==> heading(repeated('#', level) + " "@ + text) == Some((level, text)),
        level > 6 ==> heading(repeated('#', level) + " "@ + text) is None,
        ordered_item(number + ". "@ + text) == Some((number, text)),
        bullet_item("- "@ + text) == Some(text),
        bullet_item("* "@ + text) == Some(text),
{
    reveal_strlit(" ");
    reveal_strlit(". ");
    reveal_strlit("- ");
    reveal_strlit("* ");
    let line = repeated('#', level) + " "@ + text;
    crate::text::lemma_run_len_is(line, CharClass::Is('#'), level as int);
    assert(line.skip(level as int + 1) =~= text);
    let item = number + ". "@ + text;
    let dot = number.len() as int;
    assert forall|i: int| 0 <= i < dot implies CharClass::Digit.has(#[trigger] item[i]) by {
        assert(item[i] == number[i]);
    }
    crate::text::lemma_run_len_is(item, CharClass::Digit, dot);
    assert(item.take(dot) =~= number);
    assert(item.skip(dot + 2) =~= text);
    let dash = "- "@ + text;
    let star = "* "@ + text;
    assert(dash.subrange(0, 2) =~= "- "@);
    assert(star.subrange(0, 2) =~= "* "@);
    assert(star.subrange(0, 2)[0] != "- "@[0]);
    assert(dash.skip(2) =~= text);
    assert(star.skip(2) =~= text);
}

/// A heading is printed in its colors with its marks and its text, an item behind a dash or its
/// number, and a quotation behind a bar.
pub proof fn law_blocks_are_printed(level: nat, number: Seq<char>, text: Seq<char>)
    requires
        number.len() > 0,
        forall|i: int| 0 <= i < number.len() ==> crate::text::is_digit(#[trigger] number[i]),
        1 <= level <= 6,
    ensures
        rendered_line(repeated('#', level) + " "@ + text, false).1 == BOLD@ + CYAN@ + repeated(
            '#',
            level,
        ) + " "@ + inline(trimmed(text), false) + RESET@,
        rendered_line("- "@ + text, false).1 == "  "@ + YELLOW@ + "-"@ + RESET@ + " "@ + inline(
            text,
            false,
        ),
        rendered_line("* "@ + text, false).1 == "  "@ + YELLOW@ + "-"@ + RESET@ + " "@ + inline(
            text,
            false,
        ),
        rendered_line(number + ". "@ + text, false).1 == "  "@ + YELLOW@ + number + "."@ + RESET@
            + " "@ + inline(text, false),
{
    reveal_strlit(" ");
    reveal_strlit(". ");
    reveal_strlit("- ");
    reveal_strlit("* ");
    reveal_strlit("```");
    law_headings_and_items_are_read(level, number, text);
    lemma_unindented(repeated('#', level) + " "@ + text);
    lemma_unindented("- "@ + text);
    lemma_unindented("* "@ + text);
    assert((number + ". "@ + text)[0] == number[0]);
    lemma_unindented(number + ". "@ + text);
    crate::text::lemma_run_len_is("- "@ + text, CharClass::Is('#'), 0);
    crate::text::lemma_run_len_is("* "@ + text, CharClass::Is('#'), 0);
    crate::text::lemma_run_len_is(number + ". "@ + text, CharClass::Is('#'), 0);
    let item = number + ". "@ + text;
    if begins(item, "- "@) {
        assert(item.subrange(0, 2)[0] == item[0]);
    }
    if begins(item, "* "@) {
        assert(item.subrange(0, 2)[0] == item[0]);
    }
}

proof fn lemma_unindented(line: Seq<char>)
    requires
        line.len() > 0,
        !crate::text::is_white(line[0]),
        line[0] != '`',
    ensures
        trim_start(line, CharClass::White) == line,
        !begins(line, "```"@),
{
    reveal_strlit("```");
    crate::text::lemma_run_len_is(line, CharClass::White, 0);
    assert(line.skip(0) =~= line);
    if begins(line, "```"@) {
        assert(line.subrange(0, 3)[0] == line[0]);
    }
}

/// A quotation is printed behind a bar, and any other line that begins with no mark as it
/// stands, with its stretches marked.
pub proof fn law_quotes_and_plain_lines_are_printed(text: Seq<char>)
    requires
        text.len() > 0,
        !is_mark(text[0]),
        !crate::text::is_digit(text[0]),
    ensures
        rendered_line("> "@ + text, false).1 == DIM@ + "| "@ + inline(text, false) + RESET@,
        rendered_line(text, false).1 == inline(text, false),
{
    reveal_strlit("> ");
    reveal_strlit(">");
    reveal_strlit("- ");
    reveal_strlit("* ");
    let line = "> "@ + text;
    lemma_unindented(line);
    lemma_unindented(text);
    crate::text::lemma_run_len_is(line, CharClass::Is('#'), 0);
    crate::text::lemma_run_len_is(text, CharClass::Is('#'), 0);
    crate::text::lemma_run_len_is(line, CharClass::Digit, 0);
    crate::text::lemma_run_len_is(text, CharClass::Digit, 0);
    crate::text::lemma_run_len_is(line, CharClass::Is('>'), 1);
    assert(line.skip(1)[0] == ' ');
    assert(line.skip(1)[1] == text[0]);
    crate::text::lemma_run_len_is(line.skip(1), CharClass::White, 1);
    assert(line.skip(1).skip(1) =~= text);
    assert(line.subrange(0, 1) =~= ">"@);
    if begins(line, "- "@) {
        assert(line.subrange(0, 2)[0] == line[0]);
    }
    if begins(line, "* "@) {
        assert(line.subrange(0, 2)[0] == line[0]);
    }
    if begins(text, "- "@) {
        assert(text.subrange(0, 2)[0] == text[0]);
    }
    if begins(text, "* "@) {
        assert(text.subrange(0, 2)[0] == text[0]);
    }
    if begins(text, ">"@) {
        assert(text.subrange(0, 1)[0] == text[0]);
    }
}

// ---------------------------------------------------------------------------
// Laws of the banner
// ---------------------------------------------------------------------------

/// A text that fits stands whole in the middle of its width, one that does not is cut to it,
/// and there is nothing but spaces beside it.
pub proof fn law_banner_texts_are_centered(text: Seq<char>, width: int)
    requires
        0 <= width,
    ensures
        centered(text, width).len() == width,
        text.len() <= width ==> ({
            let left = (width - text.len()) / 2;
            &&& centered(text, width).subrange(left, left + text.len()) == text
            &&& forall|i: int|
                0 <= i < width && !(left <= i < left + text.len()) ==> #[trigger] centered(
                    text,
                    width,
                )[i] == ' '
        }),
        text.len() > width ==> centered(text, width) == text.take(width),
{
    if text.len() <= width {
        let left = (width - text.len()) / 2;
        assert(centered(text, width).subrange(left, left + text.len()) =~= text);
    } else {
        assert(centered(text, width) =~= text.take(width));
    }
}

/// The banner is its title and its subtitle in a frame, then the provider, the model and the
/// reach of the tools on one line and the workspace on the next, a warning of full access and
/// only of that, the lines that greet the user, and the tip.
pub proof fn law_banners_name_the_session(
    title: Seq<char>,
    subtitle: Seq<char>,
    provider: Seq<char>,
    model: Seq<char>,
    workspace: Seq<char>,
    access: Seq<char>,
    onboarding: Seq<Seq<char>>,
    tip: Seq<char>,
)
    ensures
        banner_text(title, subtitle, provider, model, workspace, access, onboarding, tip)
            == banner_box(title, subtitle) + banner_facts(provider, model, workspace, access)
            + banner_onboarding_part(onboarding) + (DIM@ + "tip"@ + RESET@ + " "@ + tip + "\n\n"@),
        ({
            let facts = DIM@ + "provider"@ + RESET@ + " "@ + provider + "  "@ + DIM@ + "model"@
                + RESET@ + " "@ + model + "  "@ + DIM@ + "access"@ + RESET@ + " "@ + access
                + "\n"@ + DIM@ + "workspace"@ + RESET@ + " "@ + workspace + "\n"@;
            &&& access != "full-system"@ ==> banner_facts(provider, model, workspace, access)
                == facts
            &&& access == "full-system"@ ==> banner_facts(provider, model, workspace, access)
                == facts + BOLD@ + RED@ + "warning>"@ + RESET@
                + " full system access is enabled: absolute paths, path escapes, shell, and writes are allowed\n"@
        }),
        ({
            let edge = BOLD@ + CYAN@ + "║"@ + repeated(' ', 52) + "║"@ + RESET@;
            let top = (BOLD@ + CYAN@).push('╔') + repeated('═', 52).push('╗') + RESET@;
            let low = (BOLD@ + CYAN@).push('╚') + repeated('═', 52).push('╝') + RESET@;
            banner_box(title, subtitle) == top + "\n"@ + edge + "\n"@ + (BOLD@ + CYAN@ + "║ "@
                + centered(title, 50) + " ║"@ + RESET@) + "\n"@ + (BOLD@ + CYAN@ + "║ "@ + centered(
                subtitle,
                50,
            ) + " ║"@ + RESET@) + "\n"@ + edge + "\n"@ + low + "\n"@
        }),
{
}

/// The banner shows each line that is to greet the user, one behind the other.
pub proof fn law_banners_greet_line_by_line(onboarding: Seq<Seq<char>>, line: Seq<char>)
    ensures
        banner_onboarding_part(seq![line]) == BOLD@ + YELLOW@ + "onboarding>"@ + RESET@ + " "@ + line
            + "\n"@,
        onboarding.len() > 0 ==> banner_onboarding_part(onboarding.push(line))
            == banner_onboarding_part(onboarding) + (DIM@ + "           "@ + RESET@ + " "@ + line
            + "\n"@),
{
    assert(onboarding.push(line).drop_last() =~= onboarding);
    if onboarding.len() > 0 {
        assert(banner_onboarding_part(onboarding.push(line)) =~= banner_onboarding_part(onboarding)
            + (DIM@ + "           "@ + RESET@ + " "@ + line + "\n"@));
    }
}

/// The line that names a tool holds the name, and a label its own.
pub proof fn law_labels_hold_their_names(color: Seq<char>, name: Seq<char>)
    ensures
        label(color, name) == BOLD@ + color + name + RESET@ + " "@,
        tool_line(name) == BOLD@ + MAGENTA@ + "tool>"@ + RESET@ + " "@ + BOLD@ + MAGENTA@ + name
            + RESET@ + "\n"@,
        thinking_end_text() == RESET@ + "\n"@ + (BOLD@ + CYAN@ + "autofix>"@ + RESET@ + " "@),
{
}

/// A stretch in bold begins at the next two stars or ends there, and one left open ends with the
/// text. A stretch of code begins and ends at the next backquote.
pub proof fn law_marks_begin_and_end_stretches(text: Seq<char>, i: int)
    ensures
        find(text, "**"@) == Some(i) ==> emphasis(text, false) == text.take(i) + BOLD@ + emphasis(
            text.skip(i + 2),
            true,
        ),
        find(text, "**"@) == Some(i) ==> emphasis(text, true) == text.take(i) + RESET@ + emphasis(
            text.skip(i + 2),
            false,
        ),
        find(text, "**"@) is None ==> emphasis(text, false) == text && emphasis(text, true) == text
            + RESET@,
        find(text, "`"@) == Some(i) ==> inline(text, false) == emphasis(text.take(i), false) + (
        BG_DARK@ + BLUE@) + inline(text.skip(i + 1), true),
        find(text, "`"@) == Some(i) ==> inline(text, true) == emphasis(text.take(i), false) + RESET@
            + inline(text.skip(i + 1), false),
        find(text, "`"@) is None ==> inline(text, false) == emphasis(text, false) && inline(
            text,
            true,
        ) == emphasis(text, false) + RESET@,
{
}

/// Blanks before a block do not change how it is printed.
pub proof fn law_blocks_may_be_indented(blanks: Seq<char>, line: Seq<char>, in_code: bool)
    requires
        forall|i: int| 0 <= i < blanks.len() ==> crate::text::is_white(#[trigger] blanks[i]),
        line.len() > 0,
        !crate::text::is_white(line[0]),
        begins(line, "```"@) || (!in_code && (heading(line) is Some || bullet_item(line) is Some
            || ordered_item(line) is Some || begins(line, ">"@))),
    ensures
        rendered_line(blanks + line, in_code) == rendered_line(line, in_code),
{
    let whole = blanks + line;
    assert(whole[blanks.len() as int] == line[0]);
    crate::text::lemma_run_len_is(whole, CharClass::White, blanks.len() as int);
    assert(whole.skip(blanks.len() as int) =~= line);
    crate::text::lemma_run_len_is(line, CharClass::White, 0);
    assert(line.skip(0) =~= line);
}

/// A line that is no block is printed whole, with the blanks before it; a blank line is empty.
pub proof fn law_other_lines_are_printed_whole(line: Seq<char>, blanks: Seq<char>)
    requires
        forall|i: int| 0 <= i < blanks.len() ==> crate::text::is_white(#[trigger] blanks[i]),
    ensures
        ({
            let body = trim_start(line, CharClass::White);
            body.len() > 0 && !begins(body, "```"@) && heading(body) is None && bullet_item(body)
                is None && ordered_item(body) is None && !begins(body, ">"@) ==> rendered_line(
                line,
                false,
            ) == (false, inline(line, false))
        }),
        rendered_line(blanks, false) == (false, Seq::<char>::empty()),
{
    crate::text::lemma_run_len_is(blanks, CharClass::White, blanks.len() as int);
    reveal_strlit("```");
    assert(trim_start(blanks, CharClass::White).len() == 0);
}

/// What is read as a block is made of its mark and its text.
pub proof fn law_blocks_begin_with_their_marks(line: Seq<char>, i: int)
    ensures
        heading(line) matches Some((level, text)) ==> 1 <= level <= 6 && line == repeated('#', level)
            + " "@ + text,
        bullet_item(line) matches Some(item) ==> line == "- "@ + item || line == "* "@ + item,
        ordered_item(line) matches Some((number, item)) ==> number.len() > 0 && line == number
            + ". "@ + item && (0 <= i < number.len() ==> crate::text::is_digit(number[i])),
{
    reveal_strlit(" ");
    reveal_strlit(". ");
    reveal_strlit("- ");
    reveal_strlit("* ");
    crate::text::lemma_run_len(line, CharClass::Is('#'));
    crate::text::lemma_run_len(line, CharClass::Digit);
    if let Some((level, text)) = heading(line) {
        assert(line =~= repeated('#', level) + " "@ + text);
    }
    if let Some((number, item)) = ordered_item(line) {
        assert(line =~= number + ". "@ + item);
        if 0 <= i < number.len() {
            assert(number[i] == line[i]);
        }
    }
    if begins(line, "- "@) {
        assert(line.subrange(0, 2) =~= "- "@);
        assert(line =~= "- "@ + line.skip(2));
    } else if begins(line, "* "@) {
        assert(line.subrange(0, 2) =~= "* "@);
        assert(line =~= "* "@ + line.skip(2));
    }
}

/// What opens code names its language, without any more fences; what closes it names none.
pub proof fn law_fences_name_their_language(line: Seq<char>, rest: Seq<char>)
    requires
        begins(trim_start(line, CharClass::White), "```"@),
    ensures
        ({
            let lang = trimmed(without_fences(trim_start(line, CharClass::White)));
            &&& rendered_line(line, true).1 == DIM@ + "```"@ + RESET@
            &&& lang.len() == 0 ==> rendered_line(line, false).1 == DIM@ + "```"@ + RESET@
            &&& lang.len() > 0 ==> rendered_line(line, false).1 == DIM@ + "``` "@ + lang + RESET@
        }),
        without_fences("```"@ + rest) == without_fences(rest),
        !begins(rest, "```"@) ==> without_fences(rest) == rest,
{
    reveal_strlit("```");
    assert(("```"@ + rest).subrange(0, 3) =~= "```"@);
    assert(("```"@ + rest).skip(3) =~= rest);
}

/// A banner without a greeting of its own names the commands to begin with.
pub proof fn law_plain_banners_name_commands()
    ensures
        banner_onboarding_part(seq![]) == BOLD@ + YELLOW@ + "onboarding>"@ + RESET@
            + " /help commands  /models local models  /search web search  /permissions safety  /terminal real shell  /exit quit\n"@,
{
}

}
