//! Thinking traces inside answers: `<think>...</think>` blocks are taken out of
//! the conversation history and shown or hidden while an answer streams.
use crate::text::{
    after, before, char_count, find, find_in, holds_text, joined, lemma_find, lemma_joined_first,
    occurs_at, trim_white, trimmed,
};
use crate::ui::{
    finished, fresh, law_markdown_cut_anywhere, law_no_line_held_back, pushed, stream_reset,
    stream_thinking, thinking_end, thinking_end_text, thinking_start, DIM, MarkdownState,
    MarkdownStream, RESET,
};
use vstd::prelude::*;
use vstd::string::*;

verus! {

broadcast use {vstd::seq::group_seq_axioms, vstd::string::group_string_axioms};

/// What opens a thinking block.
pub const OPEN: &'static str = "<think>";

/// What closes a thinking block.
pub const CLOSE: &'static str = "</think>";

// ---------------------------------------------------------------------------
// Taking blocks out of a whole text
// ---------------------------------------------------------------------------

/// The stretches of `text` outside its thinking blocks, in order. A block that is
/// not closed reaches to the end.
pub open spec fn outside_pieces(text: Seq<char>) -> Seq<Seq<char>>
    decreases text.len(),
{
    match find(text, OPEN@) {
        Some(start) => {
            let block = text.skip(start + OPEN@.len());
            match find(block, CLOSE@) {
                Some(end) => {
                    proof {
                        lemma_tags();
                        lemma_find(text, OPEN@);
                        lemma_find(block, CLOSE@);
                    }
                    seq![text.take(start)] + outside_pieces(block.skip(end + CLOSE@.len()))
                },
                None => seq![text.take(start)],
            }
        },
        None => seq![text],
    }
}

/// `text` without its thinking blocks.
pub open spec fn outside(text: Seq<char>) -> Seq<char> {
    joined(outside_pieces(text), seq![])
}

pub proof fn lemma_tags()
    ensures
        OPEN@.len() == 7,
        CLOSE@.len() == 8,
{
    reveal_strlit("<think>");
    reveal_strlit("</think>");
}

/// The recursion of `outside`, stretch by stretch.
proof fn lemma_outside(text: Seq<char>)
    ensures
        outside(text) == (match find(text, OPEN@) {
            Some(start) => {
                let block = text.skip(start + OPEN@.len());
                text.take(start) + (match find(block, CLOSE@) {
                    Some(end) => outside(block.skip(end + CLOSE@.len())),
                    None => seq![],
                })
            },
            None => text,
        }),
{
    if let Some(start) = find(text, OPEN@) {
        let block = text.skip(start + OPEN@.len());
        if let Some(end) = find(block, CLOSE@) {
            lemma_joined_first(text.take(start), outside_pieces(block.skip(end + CLOSE@.len())));
        } else {
            assert(text.take(start) + Seq::<char>::empty() =~= text.take(start));
        }
    }
}

/// `text` without its thinking blocks and without surrounding white space: what
/// the conversation history keeps of an answer.
pub fn strip_think_blocks(text: &str) -> (r: String)
    ensures
        r@ == trimmed(outside(text@)),
{
    let mut output = String::new();
    let mut rest = text.to_owned();
    assert(output@ + outside(text@) =~= outside(text@));
    loop
        invariant
            output@ + outside(rest@) == outside(text@),
        decreases rest@.len(),
    {
        proof {
            lemma_tags();
            lemma_outside(rest@);
        }
        let ghost done = output@;
        match find_in(&rest, OPEN) {
            None => {
                output.append(rest.as_str());
                return trim_white(&output);
            },
            Some(start) => {
                output.append(before(&rest, start).as_str());
                let block = after(&rest, start + 7);
                match find_in(&block, CLOSE) {
                    None => {
                        assert(output@ =~= done + outside(rest@));
                        return trim_white(&output);
                    },
                    Some(end) => {
                        let next = after(&block, end + 8);
                        assert(output@ + outside(next@) =~= done + outside(rest@));
                        rest = next;
                    },
                }
            },
        }
    }
}

// ---------------------------------------------------------------------------
// Filtering a stream for the full-screen interface
// ---------------------------------------------------------------------------

/// What a piece of an answer adds to the screen, and whether a block is open
/// behind it. The tags never show; what stands in a block shows on request.
pub open spec fn filtered(rest: Seq<char>, show: bool, inline: bool) -> (Seq<char>, bool)
    decreases rest.len(),
{
    if inline {
        match find(rest, CLOSE@) {
            Some(end) => {
                proof {
                    lemma_tags();
                    lemma_find(rest, CLOSE@);
                }
                let (more, open) = filtered(rest.skip(end + CLOSE@.len()), show, false);
                (shown(rest.take(end), show) + more, open)
            },
            None => (shown(rest, show), true),
        }
    } else {
        match find(rest, OPEN@) {
            Some(start) => {
                proof {
                    lemma_tags();
                    lemma_find(rest, OPEN@);
                }
                let (more, open) = filtered(rest.skip(start + OPEN@.len()), show, true);
                (rest.take(start) + more, open)
            },
            None => (rest, false),
        }
    }
}

/// `text` where it is to show, else nothing.
pub open spec fn shown(text: Seq<char>, show: bool) -> Seq<char> {
    if show {
        text
    } else {
        seq![]
    }
}

/// What a piece of an answer adds to the screen.
pub fn filter_tui_content_delta(
    delta: &str,
    show_thinking: bool,
    inline_thinking: &mut bool,
) -> (r: String)
    ensures
        (r@, *final(inline_thinking)) == filtered(delta@, show_thinking, *old(inline_thinking)),
{
    let mut output = String::new();
    let mut rest = delta.to_owned();
    let ghost whole = filtered(delta@, show_thinking, *inline_thinking);
    assert(output@ + whole.0 =~= whole.0);
    loop
        invariant
            whole == filtered(delta@, show_thinking, *old(inline_thinking)),
            output@ + filtered(rest@, show_thinking, *inline_thinking).0 == whole.0,
            filtered(rest@, show_thinking, *inline_thinking).1 == whole.1,
        decreases rest@.len(),
    {
        proof {
            lemma_tags();
        }
        let ghost done = output@;
        let ghost todo = filtered(rest@, show_thinking, *inline_thinking);
        if *inline_thinking {
            match find_in(&rest, CLOSE) {
                Some(end) => {
                    if show_thinking {
                        output.append(before(&rest, end).as_str());
                    }
                    let next = after(&rest, end + 8);
                    *inline_thinking = false;
                    assert(output@ + filtered(next@, show_thinking, false).0 =~= done + todo.0);
                    rest = next;
                },
                None => {
                    if show_thinking {
                        output.append(rest.as_str());
                    }
                    assert(output@ =~= whole.0);
                    return output;
                },
            }
        } else {
            match find_in(&rest, OPEN) {
                Some(start) => {
                    output.append(before(&rest, start).as_str());
                    let next = after(&rest, start + 7);
                    *inline_thinking = true;
                    assert(output@ + filtered(next@, show_thinking, true).0 =~= done + todo.0);
                    rest = next;
                },
                None => {
                    output.append(rest.as_str());
                    return output;
                },
            }
        }
    }
}

// ---------------------------------------------------------------------------
// Streaming in line mode
// ---------------------------------------------------------------------------

/// How far an answer has streamed.
pub struct StreamState {
    /// A thinking block is open.
    pub inline_thinking: bool,
    /// Some thinking has been announced.
    pub showed_thinking: bool,
    /// Some of the answer itself has been printed.
    pub showed_answer: bool,
    pub markdown: MarkdownState,
}

/// A piece of the answer itself: it ends a visible trace, then goes through Markdown.
pub open spec fn answered(state: StreamState, delta: Seq<char>) -> (StreamState, Seq<char>) {
    let (markdown, out) = pushed(state.markdown, delta);
    (
        StreamState { showed_answer: true, markdown, ..state },
        (if state.showed_thinking && !state.showed_answer {
            thinking_end_text()
        } else {
            seq![]
        }) + out,
    )
}

/// The opening of a thinking block, announced once where traces show.
pub open spec fn announced(state: StreamState, show: bool) -> (StreamState, Seq<char>) {
    if show && !state.showed_thinking {
        (StreamState { showed_thinking: true, ..state }, DIM@ + "[thinking] "@)
    } else {
        (state, seq![])
    }
}

/// The state after a piece of content, and what it prints.
pub open spec fn streamed(state: StreamState, rest: Seq<char>, show: bool) -> (
    StreamState,
    Seq<char>,
)
    decreases rest.len(),
{
    if state.inline_thinking {
        match find(rest, CLOSE@) {
            Some(end) => {
                proof {
                    lemma_tags();
                    lemma_find(rest, CLOSE@);
                }
                let (last, more) = streamed(
                    StreamState { inline_thinking: false, ..state },
                    rest.skip(end + CLOSE@.len()),
                    show,
                );
                (last, shown(rest.take(end), show) + more)
            },
            None => (state, shown(rest, show)),
        }
    } else {
        match find(rest, OPEN@) {
            Some(start) => {
                proof {
                    lemma_tags();
                    lemma_find(rest, OPEN@);
                }
                let (s1, out1) = said(state, rest.take(start));
                let (s2, out2) = announced(StreamState { inline_thinking: true, ..s1 }, show);
                let (last, more) = streamed(s2, rest.skip(start + OPEN@.len()), show);
                (last, out1 + out2 + more)
            },
            None => said(state, rest),
        }
    }
}

/// A stretch of the answer itself, where there is one.
pub open spec fn said(state: StreamState, delta: Seq<char>) -> (StreamState, Seq<char>) {
    if delta.len() == 0 {
        (state, seq![])
    } else {
        answered(state, delta)
    }
}

/// An answer that is being streamed in line mode. Each method returns what to print.
pub struct AnswerStream {
    show_thinking: bool,
    inline_thinking: bool,
    showed_thinking: bool,
    showed_answer: bool,
    markdown: MarkdownStream,
}

impl View for AnswerStream {
    type V = StreamState;

    closed spec fn view(&self) -> StreamState {
        StreamState {
            inline_thinking: self.inline_thinking,
            showed_thinking: self.showed_thinking,
            showed_answer: self.showed_answer,
            markdown: self.markdown@,
        }
    }
}

/// Before anything has streamed.
pub open spec fn unstreamed() -> StreamState {
    StreamState {
        inline_thinking: false,
        showed_thinking: false,
        showed_answer: false,
        markdown: fresh(),
    }
}

/// What ends an answer: its last line, and a reset where only thinking was shown.
pub open spec fn ended(state: StreamState) -> Seq<char> {
    finished(state.markdown).1 + (if state.showed_thinking && !state.showed_answer {
        RESET@
    } else {
        seq![]
    }) + "\n"@
}

impl AnswerStream {
    /// Whether thinking traces show.
    pub closed spec fn shows(&self) -> bool {
        self.show_thinking
    }

    /// An answer before anything of it has arrived.
    pub fn new(show_thinking: bool) -> (r: Self)
        ensures
            r@ == unstreamed(),
            r.shows() == show_thinking,
    {
        AnswerStream {
            show_thinking,
            inline_thinking: false,
            showed_thinking: false,
            showed_answer: false,
            markdown: MarkdownStream::new(),
        }
    }

    /// Prints a piece of the answer itself.
    pub fn stream_answer_delta(&mut self, delta: &str) -> (r: String)
        ensures
            (final(self)@, r@) == answered(old(self)@, delta@),
            final(self).shows() == old(self).shows(),
    {
        let mut out = String::new();
        if self.showed_thinking && !self.showed_answer {
            out = thinking_end();
        }
        self.showed_answer = true;
        let rendered = self.markdown.push(delta);
        out.append(rendered.as_str());
        assert(Seq::<char>::empty() =~= seq![]);
        out
    }

    fn say(&mut self, delta: &str) -> (r: String)
        ensures
            (final(self)@, r@) == said(old(self)@, delta@),
            final(self).shows() == old(self).shows(),
    {
        if char_count(delta) > 0 {
            self.stream_answer_delta(delta)
        } else {
            let out = String::new();
            assert(out@ =~= seq![]);
            out
        }
    }

    fn announce(&mut self) -> (r: String)
        ensures
            (final(self)@, r@) == announced(old(self)@, old(self).shows()),
            final(self).shows() == old(self).shows(),
    {
        if self.show_thinking && !self.showed_thinking {
            self.showed_thinking = true;
            thinking_start()
        } else {
            let out = String::new();
            assert(out@ =~= seq![]);
            out
        }
    }

    fn show(&self, thought: &str) -> (r: String)
        ensures
            r@ == shown(thought@, self.shows()),
    {
        if self.show_thinking {
            stream_thinking(thought)
        } else {
            let out = String::new();
            assert(out@ =~= seq![]);
            out
        }
    }

    /// Prints a piece of content: thinking blocks where they show, the rest as Markdown.
    pub fn stream_content_delta(&mut self, delta: &str) -> (r: String)
        ensures
            (final(self)@, r@) == streamed(old(self)@, delta@, old(self).shows()),
            final(self).shows() == old(self).shows(),
    {
        let mut out = String::new();
        let mut rest = delta.to_owned();
        let ghost show = self.shows();
        let ghost whole = streamed(self@, delta@, show);
        assert(out@ + whole.1 =~= whole.1);
        loop
            invariant
                whole == streamed(old(self)@, delta@, old(self).shows()),
                show == old(self).shows(),
                self.shows() == show,
                streamed(self@, rest@, show).0 == whole.0,
                out@ + streamed(self@, rest@, show).1 == whole.1,
            decreases rest@.len(),
        {
            proof {
                lemma_tags();
            }
            let ghost now = self@;
            let ghost done = out@;
            let ghost todo = streamed(now, rest@, show);
            if self.inline_thinking {
                match find_in(&rest, CLOSE) {
                    Some(end) => {
                        out.append(self.show(&before(&rest, end)).as_str());
                        self.inline_thinking = false;
                        rest = after(&rest, end + 8);
                        assert(out@ + streamed(self@, rest@, show).1 =~= done + todo.1);
                    },
                    None => {
                        out.append(self.show(&rest).as_str());
                        return out;
                    },
                }
            } else {
                match find_in(&rest, OPEN) {
                    Some(start) => {
                        let first = self.say(&before(&rest, start));
                        self.inline_thinking = true;
                        let second = self.announce();
                        out.append(first.as_str());
                        out.append(second.as_str());
                        rest = after(&rest, start + 7);
                        assert(out@ + streamed(self@, rest@, show).1 =~= done + todo.1);
                    },
                    None => {
                        let last = self.say(&rest);
                        out.append(last.as_str());
                        return out;
                    },
                }
            }
        }
    }

    /// Prints a piece of thinking that arrives apart from the content.
    pub fn stream_thinking_delta(&mut self, delta: &str) -> (r: String)
        ensures
            final(self)@ == announced(old(self)@, old(self).shows()).0,
            r@ == announced(old(self)@, old(self).shows()).1 + shown(delta@, old(self).shows()),
            final(self).shows() == old(self).shows(),
    {
        let mut out = self.announce();
        out.append(self.show(delta).as_str());
        out
    }

    /// Prints what is left at the end of the answer.
    pub fn finish(&mut self) -> (r: String)
        ensures
            final(self)@ == (StreamState { markdown: finished(old(self)@.markdown).0, ..old(self)@ }),
            r@ == ended(old(self)@),
            final(self).shows() == old(self).shows(),
    {
        let mut out = self.markdown.finish();
        if self.showed_thinking && !self.showed_answer {
            out.append(stream_reset().as_str());
        }
        out.append("\n");
        assert(out@ =~= ended(old(self)@));
        out
    }
}

// ---------------------------------------------------------------------------
// Laws
// ---------------------------------------------------------------------------

/// No block survives in the history: none of the stretches that are kept holds
/// the tag that opens a block.
pub proof fn law_no_block_survives(text: Seq<char>)
    ensures
        outside(text) == joined(outside_pieces(text), seq![]),
        forall|i: int|
            0 <= i < outside_pieces(text).len() ==> !holds_text(
                #[trigger] outside_pieces(text)[i],
                OPEN@,
            ),
    decreases text.len(),
{
    lemma_tags();
    lemma_find(text, OPEN@);
    if let Some(start) = find(text, OPEN@) {
        let head = text.take(start);
        lemma_find(head, OPEN@);
        if let Some(k) = find(head, OPEN@) {
            assert(head.subrange(k, k + 7) =~= text.subrange(k, k + 7));
            assert(occurs_at(text, OPEN@, k));
        }
        let block = text.skip(start + 7);
        lemma_find(block, CLOSE@);
        if let Some(end) = find(block, CLOSE@) {
            let tail = block.skip(end + 8);
            law_no_block_survives(tail);
            assert forall|i: int| 0 <= i < outside_pieces(text).len() implies !holds_text(
                #[trigger] outside_pieces(text)[i],
                OPEN@,
            ) by {
                if i > 0 {
                    assert(outside_pieces(text)[i] == outside_pieces(tail)[i - 1]);
                }
            }
        }
    }
}

/// An answer without a thinking block is kept as it is, without surrounding white space.
pub proof fn law_answer_without_block_kept(text: Seq<char>)
    requires
        !holds_text(text, OPEN@),
    ensures
        trimmed(outside(text)) == trimmed(text),
{
    lemma_outside(text);
}

/// With thinking hidden, the screen shows of an answer what the history keeps
/// of it, up to surrounding white space.
pub proof fn law_hidden_thinking_matches_history(text: Seq<char>)
    ensures
        filtered(text, false, false).0 == outside(text),
        trimmed(filtered(text, false, false).0) == trimmed(outside(text)),
    decreases text.len(),
{
    lemma_tags();
    lemma_outside(text);
    lemma_find(text, OPEN@);
    if let Some(start) = find(text, OPEN@) {
        let block = text.skip(start + 7);
        lemma_find(block, CLOSE@);
        if let Some(end) = find(block, CLOSE@) {
            let tail = block.skip(end + 8);
            law_hidden_thinking_matches_history(tail);
            assert(filtered(block, false, true).0 =~= filtered(tail, false, false).0);
        } else {
            assert(filtered(block, false, true).0 =~= seq![]);
        }
        assert(filtered(text, false, false).0 =~= outside(text));
    }
}

/// With thinking hidden, line mode prints the Markdown of what stands outside the
/// blocks and nothing else.
pub proof fn law_hidden_thinking_prints_answer(state: StreamState, rest: Seq<char>)
    requires
        !state.showed_thinking,
        find(state.markdown.pending, "\n"@) is None,
    ensures
        ({
            let visible = filtered(rest, false, state.inline_thinking);
            let (end, out) = streamed(state, rest, false);
            &&& end.markdown == pushed(state.markdown, visible.0).0
            &&& out == pushed(state.markdown, visible.0).1
            &&& end.inline_thinking == visible.1
            &&& !end.showed_thinking
        }),
    decreases rest.len(),
{
    lemma_tags();
    if state.inline_thinking {
        lemma_find(rest, CLOSE@);
        match find(rest, CLOSE@) {
            Some(end) => {
                let tail = rest.skip(end + 8);
                let next = StreamState { inline_thinking: false, ..state };
                law_hidden_thinking_prints_answer(next, tail);
                assert(filtered(rest, false, true).0 =~= filtered(tail, false, false).0);
                assert(streamed(state, rest, false).1 =~= streamed(next, tail, false).1);
            },
            None => {
                lemma_push_nothing(state.markdown);
            },
        }
    } else {
        lemma_find(rest, OPEN@);
        match find(rest, OPEN@) {
            Some(start) => {
                let head = rest.take(start);
                let tail = rest.skip(start + 7);
                lemma_push_nothing(state.markdown);
                let (s1, out1) = said(state, head);
                assert(head.len() == 0 ==> head =~= seq![]);
                assert(s1.markdown == pushed(state.markdown, head).0);
                assert(out1 =~= pushed(state.markdown, head).1);
                law_no_line_held_back(state.markdown, head);
                let s2 = StreamState { inline_thinking: true, ..s1 };
                law_hidden_thinking_prints_answer(s2, tail);
                let (more, open) = filtered(tail, false, true);
                law_markdown_cut_anywhere(state.markdown, head, more);
                let (last, out2) = streamed(s2, tail, false);
                assert(out1 + seq![] + out2 =~= out1 + out2);
            },
            None => {
                lemma_push_nothing(state.markdown);
                assert(rest.len() == 0 ==> rest =~= seq![]);
                assert(said(state, rest).1 =~= pushed(state.markdown, rest).1);
            },
        }
    }
}

/// Pushing nothing changes nothing and prints nothing.
proof fn lemma_push_nothing(markdown: MarkdownState)
    requires
        find(markdown.pending, "\n"@) is None,
    ensures
        pushed(markdown, seq![]) == (markdown, Seq::<char>::empty()),
{
    assert(markdown.pending + seq![] =~= markdown.pending);
}

/// A thinking block is taken out of an answer with its tags, and what stands before and behind
/// it is kept; a block that is not closed is taken out to the end.
pub proof fn law_blocks_are_taken_out(a: Seq<char>, thought: Seq<char>, rest: Seq<char>)
    ensures
        find(a + "<think>"@ + thought + "</think>"@ + rest, "<think>"@) == Some(a.len() as int)
            && find(thought + "</think>"@ + rest, "</think>"@) == Some(thought.len() as int)
            ==> outside(a + "<think>"@ + thought + "</think>"@ + rest) == a + outside(rest),
        find(a + "<think>"@ + thought, "<think>"@) == Some(a.len() as int) && !holds_text(
            thought,
            "</think>"@,
        ) ==> outside(a + "<think>"@ + thought) == a,
{
    lemma_tags();
    let all = a + "<think>"@ + thought + "</think>"@ + rest;
    lemma_outside(all);
    let n = a.len() as int;
    let block = all.skip(n + 7);
    assert(block =~= thought + "</think>"@ + rest);
    assert(all.take(n) =~= a);
    assert(block.skip(thought.len() as int + 8) =~= rest);
    let open = a + "<think>"@ + thought;
    lemma_outside(open);
    assert(open.skip(n + 7) =~= thought);
    assert(open.take(n) =~= a);
    assert(a + Seq::<char>::empty() =~= a);
}

/// What stands in a thinking block is added to the screen where thinking shows and left out
/// where it does not; the tags are left out either way, and what stands outside is added.
pub proof fn law_screens_show_thinking_on_request(
    a: Seq<char>,
    thought: Seq<char>,
    rest: Seq<char>,
    show: bool,
)
    requires
        find(a + "<think>"@ + thought + "</think>"@ + rest, "<think>"@) == Some(a.len() as int),
        find(thought + "</think>"@ + rest, "</think>"@) == Some(thought.len() as int),
    ensures
        ({
            let all = a + "<think>"@ + thought + "</think>"@ + rest;
            &&& show ==> filtered(all, show, false).0 == a + thought + filtered(
                rest,
                show,
                false,
            ).0
            &&& !show ==> filtered(all, show, false).0 == a + filtered(rest, show, false).0
            &&& filtered(all, show, false).1 == filtered(rest, show, false).1
        }),
{
    lemma_tags();
    let all = a + "<think>"@ + thought + "</think>"@ + rest;
    let n = a.len() as int;
    let block = all.skip(n + 7);
    assert(block =~= thought + "</think>"@ + rest);
    assert(all.take(n) =~= a);
    assert(block.take(thought.len() as int) =~= thought);
    assert(block.skip(thought.len() as int + 8) =~= rest);
    let more = filtered(rest, show, false).0;
    assert(filtered(block, show, true).0 == shown(thought, show) + more);
    assert(filtered(all, show, false).0 == a + (shown(thought, show) + more));
    assert(a + (thought + more) =~= a + thought + more);
    assert(a + (Seq::<char>::empty() + more) =~= a + more);
}

/// A piece without tags is added to the screen as it is outside a block, and inside an open one
/// where thinking shows; the block stays as open as it was.
pub proof fn law_untagged_pieces_are_shown(text: Seq<char>, show: bool)
    ensures
        !holds_text(text, "<think>"@) ==> filtered(text, show, false) == (text, false),
        !holds_text(text, "</think>"@) ==> filtered(text, true, true) == (text, true),
        !holds_text(text, "</think>"@) ==> filtered(text, false, true) == (
            Seq::<char>::empty(),
            true,
        ),
{
}

/// An answer whose thinking shows is printed as the announcement, the thinking as it is, what
/// ends it, and then the answer itself.
pub proof fn law_shown_thinking_is_printed(thought: Seq<char>, answer: Seq<char>)
    requires
        answer.len() > 0,
        !holds_text(answer, "<think>"@),
        find(thought + "</think>"@ + answer, "</think>"@) == Some(thought.len() as int),
    ensures
        streamed(unstreamed(), "<think>"@ + thought + "</think>"@ + answer, true).1 == DIM@
            + "[thinking] "@ + thought + thinking_end_text() + pushed(fresh(), answer).1,
        streamed(unstreamed(), "<think>"@ + thought + "</think>"@ + answer, false).1 == pushed(
            fresh(),
            answer,
        ).1,
        !streamed(unstreamed(), "<think>"@ + thought + "</think>"@ + answer, true).0.inline_thinking,
        streamed(unstreamed(), "<think>"@ + thought + "</think>"@ + answer, true).0.showed_answer,
{
    lemma_tags();
    let all = "<think>"@ + thought + "</think>"@ + answer;
    assert(all.subrange(0, 7) =~= "<think>"@);
    assert(occurs_at(all, "<think>"@, 0));
    assert(find(all, "<think>"@) == Some(0int));
    assert(all.take(0) =~= seq![]);
    let block = all.skip(7);
    assert(block =~= thought + "</think>"@ + answer);
    let n = thought.len() as int;
    assert(block.take(n) =~= thought);
    assert(block.skip(n + 8) =~= answer);
    let start = unstreamed();
    assert(said(start, all.take(0)) == (start, Seq::<char>::empty()));
    let open = StreamState { inline_thinking: true, ..start };
    let loud = StreamState { showed_thinking: true, ..open };
    let over = StreamState { inline_thinking: false, ..loud };
    let quiet = StreamState { inline_thinking: false, ..open };
    assert(quiet == start);
    let printed = pushed(fresh(), answer).1;
    assert(streamed(over, answer, true).1 == thinking_end_text() + printed);
    assert(streamed(loud, block, true).1 == thought + (thinking_end_text() + printed));
    assert(streamed(quiet, answer, false).1 =~= printed);
    assert(streamed(open, block, false).1 =~= printed);
    assert(streamed(start, all, true).1 =~= DIM@ + "[thinking] "@ + thought + thinking_end_text()
        + printed);
    assert(streamed(start, all, false).1 =~= printed);
}

/// A piece of thinking inside an open block is printed as it is where thinking shows, and not
/// at all where it does not.
pub proof fn law_open_blocks_are_printed_on_request(state: StreamState, thought: Seq<char>)
    requires
        state.inline_thinking,
        !holds_text(thought, "</think>"@),
    ensures
        streamed(state, thought, true) == (state, thought),
        streamed(state, thought, false) == (state, Seq::<char>::empty()),
{
}

/// A piece of the answer itself is printed as Markdown, behind what ends the thinking where
/// that was the first thing printed.
pub proof fn law_answers_are_printed(state: StreamState, text: Seq<char>)
    requires
        !state.inline_thinking,
        text.len() > 0,
        !holds_text(text, "<think>"@),
    ensures
        state.showed_answer || !state.showed_thinking ==> streamed(state, text, true).1 == pushed(
            state.markdown,
            text,
        ).1 && answered(state, text).1 == pushed(state.markdown, text).1,
        state.showed_thinking && !state.showed_answer ==> streamed(state, text, true).1
            == thinking_end_text() + pushed(state.markdown, text).1 && answered(state, text).1
            == thinking_end_text() + pushed(state.markdown, text).1,
        streamed(state, text, true).0.markdown == pushed(state.markdown, text).0,
        answered(state, text).0 == streamed(state, text, true).0,
        answered(state, text).0.showed_answer,
{
    let none: Seq<char> = seq![];
    assert(none + pushed(state.markdown, text).1 =~= pushed(state.markdown, text).1);
}

/// Thinking is announced once, and only where it shows.
pub proof fn law_thinking_is_announced_once(state: StreamState)
    ensures
        announced(state, false) == (state, Seq::<char>::empty()),
        state.showed_thinking ==> announced(state, true) == (state, Seq::<char>::empty()),
        !state.showed_thinking ==> announced(state, true).1 == DIM@ + "[thinking] "@,
        announced(announced(state, true).0, true).1 == Seq::<char>::empty(),
        announced(state, true).0 == (StreamState { showed_thinking: true, ..state }),
{
}

/// An answer ends with its last line and a line end, and with everything switched off once more
/// where nothing but thinking was shown.
pub proof fn law_answers_end_with_their_last_line(state: StreamState)
    ensures
        state.showed_thinking && !state.showed_answer ==> ended(state) == finished(state.markdown).1
            + RESET@ + "\n"@,
        !state.showed_thinking || state.showed_answer ==> ended(state) == finished(state.markdown).1
            + "\n"@,
        unstreamed().markdown.pending.len() == 0,
        !unstreamed().inline_thinking && !unstreamed().showed_thinking && !unstreamed().showed_answer,
{
    let none: Seq<char> = seq![];
    assert(finished(state.markdown).1 + none + "\n"@ =~= finished(state.markdown).1 + "\n"@);
}

/// Whatever was printed before, a piece with a thinking block is printed as what stands before
/// it, then the announcement and the thinking where it shows, and then what stands behind it.
pub proof fn law_pieces_are_printed_stretch_by_stretch(
    state: StreamState,
    a: Seq<char>,
    rest: Seq<char>,
    show: bool,
)
    requires
        !state.inline_thinking,
        find(a + "<think>"@ + rest, "<think>"@) == Some(a.len() as int),
    ensures
        ({
            let before = if a.len() > 0 {
                answered(state, a)
            } else {
                (state, Seq::<char>::empty())
            };
            let open = announced(StreamState { inline_thinking: true, ..before.0 }, show);
            let inside = streamed(open.0, rest, show);
            &&& streamed(state, a + "<think>"@ + rest, show).0 == inside.0
            &&& streamed(state, a + "<think>"@ + rest, show).1 == before.1 + open.1 + inside.1
        }),
{
    lemma_tags();
    let all = a + "<think>"@ + rest;
    let n = a.len() as int;
    assert(all.take(n) =~= a);
    assert(all.skip(n + 7) =~= rest);
}

/// A block that is closed is printed where thinking shows, and the answer goes on behind it.
pub proof fn law_closed_blocks_are_left(
    state: StreamState,
    thought: Seq<char>,
    rest: Seq<char>,
    show: bool,
)
    requires
        state.inline_thinking,
        find(thought + "</think>"@ + rest, "</think>"@) == Some(thought.len() as int),
    ensures
        ({
            let behind = streamed(StreamState { inline_thinking: false, ..state }, rest, show);
            let all = streamed(state, thought + "</think>"@ + rest, show);
            &&& all.0 == behind.0
            &&& show ==> all.1 == thought + behind.1
            &&& !show ==> all.1 == behind.1
        }),
{
    lemma_tags();
    let all = thought + "</think>"@ + rest;
    let n = thought.len() as int;
    assert(all.take(n) =~= thought);
    assert(all.skip(n + 8) =~= rest);
    let behind = streamed(StreamState { inline_thinking: false, ..state }, rest, show);
    assert(Seq::<char>::empty() + behind.1 =~= behind.1);
}

/// The same holds of what is added to the screen of the full interface inside an open block.
pub proof fn law_screens_leave_closed_blocks(thought: Seq<char>, rest: Seq<char>, show: bool)
    requires
        find(thought + "</think>"@ + rest, "</think>"@) == Some(thought.len() as int),
    ensures
        ({
            let behind = filtered(rest, show, false);
            let all = filtered(thought + "</think>"@ + rest, show, true);
            &&& all.1 == behind.1
            &&& show ==> all.0 == thought + behind.0
            &&& !show ==> all.0 == behind.0
        }),
{
    lemma_tags();
    let all = thought + "</think>"@ + rest;
    let n = thought.len() as int;
    assert(all.take(n) =~= thought);
    assert(all.skip(n + 8) =~= rest);
    assert(Seq::<char>::empty() + filtered(rest, show, false).0 =~= filtered(rest, show, false).0);
}

}
