//! Web search: the address that is asked, and the results read out of the HTML
//! page that comes back.
use crate::text::{
    after, at, before, begins, byte_count, byte_len, char_count, chars_of, decimal, find, find_from,
    find_in, has_text, holds_text, is_white, join, joined, lemma_find, lemma_rfind, lemma_run_len,
    lemma_run_len_is, lemma_trim_end_is, number, rfind, rfind_before, run_from, run_len, same,
    slice, split_words, starts, string_of, texts, trim_end, trim_end_of, trim_start, trim_white,
    trimmed, words, CharClass,
};
use vstd::prelude::*;
use vstd::string::*;

verus! {

broadcast use {vstd::seq::group_seq_axioms, vstd::string::group_string_axioms};

// ---------------------------------------------------------------------------
// HTML to text
// ---------------------------------------------------------------------------

/// The end of the entity that begins at the start of `s`, of which `n` characters
/// have been read: behind a semicolon, or once more than twelve bytes are read.
pub open spec fn entity_end(s: Seq<char>, n: int) -> int
    decreases s.len() - n,
{
    if n < 0 || n >= s.len() {
        n
    } else if s[n] == ';' || byte_len(s.take(n + 1)) > 12 {
        n + 1
    } else {
        entity_end(s, n + 1)
    }
}

/// What an entity stands for. One that is not known stands for itself.
pub open spec fn entity(e: Seq<char>) -> Seq<char> {
    if e == "&amp;"@ {
        "&"@
    } else if e == "&lt;"@ {
        "<"@
    } else if e == "&gt;"@ {
        ">"@
    } else if e == "&quot;"@ {
        "\""@
    } else if e == "&#39;"@ || e == "&#x27;"@ {
        "'"@
    } else {
        e
    }
}

/// What of `s` stands outside tags, with its entities replaced.
pub open spec fn visible(s: Seq<char>, in_tag: bool) -> Seq<char>
    decreases s.len(),
{
    if s.len() == 0 {
        seq![]
    } else if s[0] == '<' {
        visible(s.skip(1), true)
    } else if s[0] == '>' {
        visible(s.skip(1), false)
    } else if in_tag {
        visible(s.skip(1), true)
    } else if s[0] == '&' {
        let n = entity_end(s, 1);
        proof {
            lemma_entity_end(s, 1);
        }
        entity(s.take(n)) + visible(s.skip(n), false)
    } else {
        seq![s[0]] + visible(s.skip(1), false)
    }
}

/// The text of a piece of HTML: what is visible of it, its words one space apart.
pub open spec fn html_text(input: Seq<char>) -> Seq<char> {
    joined(words(visible(input, false)), " "@)
}

/// An entity ends behind where its reading stands, within the text.
pub proof fn lemma_entity_end(s: Seq<char>, n: int)
    requires
        0 <= n <= s.len(),
    ensures
        n <= entity_end(s, n) <= s.len(),
        n < s.len() ==> n < entity_end(s, n),
    decreases s.len() - n,
{
    if n < s.len() && s[n] != ';' && byte_len(s.take(n + 1)) <= 12 {
        lemma_entity_end(s, n + 1);
    }
}

fn entity_of(e: &str) -> (r: String)
    ensures
        r@ == entity(e@),
{
    if same(e, "&amp;") {
        "&".to_owned()
    } else if same(e, "&lt;") {
        "<".to_owned()
    } else if same(e, "&gt;") {
        ">".to_owned()
    } else if same(e, "&quot;") {
        "\"".to_owned()
    } else if same(e, "&#39;") || same(e, "&#x27;") {
        "'".to_owned()
    } else {
        e.to_owned()
    }
}

/// Reads the entity that begins at `from`, and returns the position behind it.
fn read_entity(chars: &Vec<char>, from: usize) -> (r: (String, usize))
    requires
        from < chars.len(),
    ensures
        ({
            let s = chars@.skip(from as int);
            let n = entity_end(s, 1);
            r.0@ == s.take(n) && r.1 == from + n
        }),
        from < r.1 <= chars@.len(),
{
    let ghost s = chars@.skip(from as int);
    let mut end: usize = from + 1;
    let mut read = string_of(chars, from, end);
    assert(read@ =~= s.take(1));
    loop
        invariant
            s == chars@.skip(from as int),
            from < end <= chars@.len(),
            read@ == s.take(end - from),
            entity_end(s, end - from) == entity_end(s, 1),
        decreases chars@.len() - end,
    {
        if end == chars.len() {
            return (read, end);
        }
        let next = chars[end];
        read.push(next);
        assert(read@ =~= s.take(end - from + 1));
        assert(s[end - from] == next);
        end += 1;
        if next == ';' || byte_count(&read) > 12 {
            return (read, end);
        }
    }
}

/// The text of a piece of HTML.
pub fn html_to_text(input: &str) -> (r: String)
    ensures
        r@ == html_text(input@),
{
    let chars = chars_of(input);
    let mut output = String::new();
    let mut in_tag = false;
    let mut i: usize = 0;
    assert(chars@.skip(0) =~= input@);
    assert(output@ + visible(input@, false) =~= visible(input@, false));
    while i < chars.len()
        invariant
            i <= chars@.len(),
            output@ + visible(chars@.skip(i as int), in_tag) == visible(input@, false),
        decreases chars@.len() - i,
    {
        let ghost rest = chars@.skip(i as int);
        let ghost done = output@;
        let ghost todo = visible(rest, in_tag);
        let ch = chars[i];
        assert(rest[0] == ch);
        assert(rest.skip(1) =~= chars@.skip(i + 1));
        if ch == '<' {
            in_tag = true;
            i += 1;
        } else if ch == '>' {
            in_tag = false;
            i += 1;
        } else if in_tag {
            i += 1;
        } else if ch == '&' {
            let (read, end) = read_entity(&chars, i);
            output.append(entity_of(&read).as_str());
            assert(rest.skip(end - i) =~= chars@.skip(end as int));
            assert(output@ + visible(chars@.skip(end as int), false) =~= done + todo);
            i = end;
        } else {
            output.push(ch);
            assert(output@ + visible(chars@.skip(i + 1), false) =~= done + todo);
            i += 1;
        }
    }
    assert(chars@.skip(i as int) =~= seq![]);
    assert(output@ =~= visible(input@, false));
    join(&split_words(&output), " ")
}

// ---------------------------------------------------------------------------
// Parts of a result
// ---------------------------------------------------------------------------

/// The quoted value of an attribute of a tag.
pub open spec fn attribute(tag: Seq<char>, attr: Seq<char>) -> Option<Seq<char>> {
    let needle = attr + "=\""@;
    match find(tag, needle) {
        Some(i) => {
            let value = tag.skip(i + needle.len());
            match find(value, "\""@) {
                Some(n) => Some(value.take(n)),
                None => None,
            }
        },
        None => None,
    }
}

/// The quoted value of an attribute of a tag.
pub fn extract_attr(tag: &str, attr: &str) -> (r: Option<String>)
    ensures
        match r {
            Some(v) => attribute(tag@, attr@) == Some(v@),
            None => attribute(tag@, attr@) is None,
        },
{
    let mut needle = attr.to_owned();
    needle.append("=\"");
    match find_in(tag, &needle) {
        Some(i) => {
            let value = after(tag, i + char_count(&needle));
            match find_in(&value, "\"") {
                Some(n) => Some(before(&value, n)),
                None => None,
            }
        },
        None => None,
    }
}

/// The snippet in what follows the title of a result: the text of the element
/// whose tag is marked as a snippet, up to the next closing tag of its name.
pub open spec fn snippet(block: Seq<char>) -> Option<Seq<char>> {
    match find(block, "result__snippet"@) {
        Some(marker) => match rfind(block.take(marker), "<"@) {
            Some(start) => {
                let tag = block.skip(start);
                match find(tag, ">"@) {
                    Some(end) => {
                        let name = tag.skip(1).take(run_len(tag.skip(1), CharClass::Alpha) as int);
                        let body = tag.skip(end + 1);
                        let inner = match find(body, "</"@ + name) {
                            Some(n) => body.take(n),
                            None => body,
                        };
                        if trimmed(html_text(inner)).len() == 0 {
                            None
                        } else {
                            Some(html_text(inner))
                        }
                    },
                    None => None,
                }
            },
            None => None,
        },
        None => None,
    }
}

/// The snippet in what follows the title of a result.
pub fn find_snippet(block: &str) -> (r: Option<String>)
    ensures
        match r {
            Some(s) => snippet(block@) == Some(s@),
            None => snippet(block@) is None,
        },
{
    proof {
        reveal_strlit("result__snippet");
        reveal_strlit("<");
        reveal_strlit(">");
        lemma_find(block@, "result__snippet"@);
    }
    let chars = chars_of(block);
    let marker: usize = match find_in(block, "result__snippet") {
        Some(i) => i,
        None => return None,
    };
    let start: usize = match rfind_before(&chars, "<", marker) {
        Some(i) => i,
        None => return None,
    };
    let ghost tag = block@.skip(start as int);
    let end: usize = match find_from(&chars, ">", start) {
        Some(i) => i,
        None => return None,
    };
    assert(tag.skip(1) =~= chars@.skip(start + 1));
    let n: usize = run_from(&chars, start + 1, CharClass::Alpha);
    let name = string_of(&chars, start + 1, start + 1 + n);
    assert(name@ =~= tag.skip(1).take(n as int));
    let body = after(block, end + 1);
    assert(body@ =~= tag.skip(end - start + 1));
    let mut closing = "</".to_owned();
    closing.append(name.as_str());
    let inner = match find_in(&body, &closing) {
        Some(k) => before(&body, k),
        None => body,
    };
    let text = html_to_text(&inner);
    if char_count(&trim_white(&text)) == 0 {
        None
    } else {
        Some(text)
    }
}

// ---------------------------------------------------------------------------
// Addresses
// ---------------------------------------------------------------------------

/// The texts of a list of pairs.
pub open spec fn pair_texts(pairs: Seq<(String, String)>) -> Seq<(Seq<char>, Seq<char>)> {
    Seq::new(pairs.len(), |i: int| (pairs[i].0@, pairs[i].1@))
}

/// The decoded query pairs of an address, where `Url::parse` accepts it.
pub uninterp spec fn url_query(address: Seq<char>) -> Option<Seq<(Seq<char>, Seq<char>)>>;

/// The address that `Url::parse_with_params` makes of a base and query pairs,
/// where it accepts the base.
pub uninterp spec fn url_with(base: Seq<char>, params: Seq<(Seq<char>, Seq<char>)>) -> Option<
    Seq<char>,
>;

/// Calls `reqwest::Url::parse` and `query_pairs` on its result. The contract says that the
/// outcome depends on the address alone: none where the address does not parse,
/// else its decoded query pairs in order.
#[verifier::external_body]
fn query_pairs(address: &str) -> (r: Option<Vec<(String, String)>>)
    ensures
        match r {
            Some(pairs) => url_query(address@) == Some(pair_texts(pairs@)),
            None => url_query(address@) is None,
        },
{
    match reqwest::Url::parse(address) {
        Ok(url) => Some(url.query_pairs().into_owned().collect()),
        Err(_) => None,
    }
}

/// Calls `reqwest::Url::parse_with_params`. The contract says that the outcome depends on
/// the base and the pairs alone: none where the base does not parse, else the
/// address that carries the pairs in its query.
#[verifier::external_body]
fn address_with(base: &str, params: &Vec<(String, String)>) -> (r: Option<String>)
    requires
        base@.len() <= 4096,
        !base@.contains('#'),
    ensures
        match r {
            Some(address) => url_with(base@, pair_texts(params@)) == Some(address@),
            None => url_with(base@, pair_texts(params@)) is None,
        },
{
    match reqwest::Url::parse_with_params(base, params) {
        Ok(url) => Some(String::from(url)),
        Err(_) => None,
    }
}

/// The value of the first pair of that name.
pub open spec fn first_value(pairs: Seq<(Seq<char>, Seq<char>)>, name: Seq<char>) -> Option<
    Seq<char>,
>
    decreases pairs.len(),
{
    if pairs.len() == 0 {
        None
    } else if pairs[0].0 == name {
        Some(pairs[0].1)
    } else {
        first_value(pairs.skip(1), name)
    }
}

/// An address with its scheme.
pub open spec fn absolute(raw: Seq<char>) -> Seq<char> {
    if begins(raw, "//"@) {
        "https:"@ + raw
    } else {
        raw
    }
}

/// Where a search result leads, given the query pairs of its address: to the value
/// of `uddg` where there is one, else to the address itself.
pub open spec fn target(
    href: Seq<char>,
    pairs: Option<Seq<(Seq<char>, Seq<char>)>>,
) -> Seq<char> {
    match pairs {
        Some(p) => match first_value(p, "uddg"@) {
            Some(value) => value,
            None => href,
        },
        None => href,
    }
}

/// Where the address of a search result leads.
pub open spec fn destination(raw: Seq<char>) -> Seq<char> {
    target(absolute(raw), url_query(absolute(raw)))
}

/// Where a search result leads, given the query pairs of its address.
pub fn redirect_target(href: &str, pairs: &Option<Vec<(String, String)>>) -> (r: String)
    ensures
        r@ == target(
            href@,
            match pairs {
                Some(p) => Some(pair_texts(p@)),
                None => None,
            },
        ),
{
    match pairs {
        Some(list) => {
            let mut i: usize = 0;
            let ghost all = pair_texts(list@);
            assert(all.skip(0) =~= all);
            while i < list.len()
                invariant
                    i <= list@.len(),
                    *pairs == Some(*list),
                    all == pair_texts(list@),
                    first_value(all, "uddg"@) == first_value(all.skip(i as int), "uddg"@),
                decreases list@.len() - i,
            {
                assert(all.skip(i as int)[0] == all[i as int]);
                assert(all.skip(i as int).skip(1) =~= all.skip(i + 1));
                if same(&list[i].0, "uddg") {
                    return list[i].1.clone();
                }
                i += 1;
            }
            href.to_owned()
        },
        None => href.to_owned(),
    }
}

/// Where the address of a search result leads: through the redirect that carries
/// the real address in `uddg`, where it is one.
pub fn normalize_duckduckgo_url(raw_href: &str) -> (r: String)
    ensures
        r@ == destination(raw_href@),
{
    let href = if starts(raw_href, "//") {
        let mut out = "https:".to_owned();
        out.append(raw_href);
        out
    } else {
        raw_href.to_owned()
    };
    redirect_target(&href, &query_pairs(&href))
}

// ---------------------------------------------------------------------------
// Results
// ---------------------------------------------------------------------------

/// One search result.
pub struct SearchResult {
    pub title: String,
    pub url: String,
    pub snippet: String,
}

/// The texts of a search result.
pub struct Hit {
    pub title: Seq<char>,
    pub url: Seq<char>,
    pub snippet: Seq<char>,
}

impl View for SearchResult {
    type V = Hit;

    open spec fn view(&self) -> Hit {
        Hit { title: self.title@, url: self.url@, snippet: self.snippet@ }
    }
}

/// The texts of a list of results.
pub open spec fn hits(results: Seq<SearchResult>) -> Seq<Hit> {
    Seq::new(results.len(), |i: int| results[i]@)
}

/// What marks the link of a result.
pub const MARKER: &'static str = "result__a";

/// What one marker leads to.
pub enum Found {
    /// No further result can be read.
    Nothing,
    /// The marker belongs to no result; the search goes on at the position.
    Skip(int),
    /// A result; the search goes on at the position.
    Result(Hit, int),
}

/// The link to which the marker at `hint` belongs: the tag that begins last before
/// it. A link without the marker in its tag, without an address or without a title
/// is no result.
pub open spec fn read_link(html: Seq<char>, hint: int) -> Found {
    match rfind(html.take(hint), "<a"@) {
        None => Found::Skip(hint + MARKER@.len()),
        Some(start) => match find(html.skip(start), ">"@) {
            None => Found::Nothing,
            Some(n) => {
                let end = start + n;
                let tag = html.subrange(start, end + 1);
                let onward = if end + 1 > hint + MARKER@.len() {
                    end + 1
                } else {
                    hint + MARKER@.len()
                };
                match attribute(tag, "href"@) {
                    Some(href) if holds_text(tag, MARKER@) => match find(
                        html.skip(end + 1),
                        "</a>"@,
                    ) {
                        None => Found::Nothing,
                        Some(len) => {
                            let close = end + 1 + len;
                            let title = html_text(html.subrange(end + 1, close));
                            if title.len() == 0 {
                                Found::Skip(onward)
                            } else {
                                Found::Result(
                                    Hit {
                                        title,
                                        url: destination(href),
                                        snippet: match snippet(until_marker(html.skip(close))) {
                                            Some(s) => s,
                                            None => seq![],
                                        },
                                    },
                                    close + 4,
                                )
                            }
                        },
                    },
                    _ => Found::Skip(onward),
                }
            },
        },
    }
}

/// What stands before the next marker.
pub open spec fn until_marker(s: Seq<char>) -> Seq<char> {
    match find(s, MARKER@) {
        Some(n) => s.take(n),
        None => s,
    }
}

/// The results of a page from position `from` on, at most `max` of them.
pub open spec fn results_from(html: Seq<char>, from: int, max: nat) -> Seq<Hit>
    decreases max, html.len() - from,
{
    if max == 0 || from < 0 || from > html.len() {
        seq![]
    } else {
        match find(html.skip(from), MARKER@) {
            None => seq![],
            Some(n) => {
                proof {
                    lemma_read_link(html, from, n);
                }
                match read_link(html, from + n) {
                    Found::Nothing => seq![],
                    Found::Skip(next) => results_from(html, next, max),
                    Found::Result(hit, next) => seq![hit] + results_from(
                        html,
                        next,
                        (max - 1) as nat,
                    ),
                }
            },
        }
    }
}

/// Reading a link moves the search on within the page; a skip moves it forward.
pub proof fn lemma_read_link(html: Seq<char>, from: int, n: int)
    requires
        0 <= from <= html.len(),
        find(html.skip(from), MARKER@) == Some(n),
    ensures
        MARKER@.len() == 9,
        0 <= n,
        from + n + 9 <= html.len(),
        match read_link(html, from + n) {
            Found::Nothing => true,
            Found::Skip(next) => from < next <= html.len(),
            Found::Result(_, next) => 0 <= next <= html.len(),
        },
{
    reveal_strlit("result__a");
    reveal_strlit("<a");
    reveal_strlit(">");
    reveal_strlit("</a>");
    lemma_find(html.skip(from), MARKER@);
    let hint = from + n;
    lemma_rfind(html.take(hint), "<a"@);
    if let Some(start) = rfind(html.take(hint), "<a"@) {
        lemma_find(html.skip(start), ">"@);
        if let Some(k) = find(html.skip(start), ">"@) {
            lemma_find(html.skip(start + k + 1), "</a>"@);
        }
    }
}

enum LinkStep {
    Nothing,
    Skip(usize),
    Result(SearchResult, usize),
}

impl LinkStep {
    spec fn model(self) -> Found {
        match self {
            LinkStep::Nothing => Found::Nothing,
            LinkStep::Skip(next) => Found::Skip(next as int),
            LinkStep::Result(result, next) => Found::Result(result@, next as int),
        }
    }
}

fn read_link_at(html: &str, chars: &Vec<char>, hint: usize) -> (r: LinkStep)
    requires
        chars@ == html@,
        hint + 9 <= chars.len(),
    ensures
        r.model() == read_link(html@, hint as int),
{
    proof {
        reveal_strlit("result__a");
        reveal_strlit("<a");
        reveal_strlit(">");
        reveal_strlit("</a>");
    }
    let start: usize = match rfind_before(chars, "<a", hint) {
        Some(i) => i,
        None => return LinkStep::Skip(hint + 9),
    };
    let end: usize = match find_from(chars, ">", start) {
        Some(i) => i,
        None => return LinkStep::Nothing,
    };
    let tag = slice(html, start, end + 1);
    let onward: usize = if end + 1 > hint + 9 {
        end + 1
    } else {
        hint + 9
    };
    if !has_text(&tag, MARKER) {
        return LinkStep::Skip(onward);
    }
    let href = match extract_attr(&tag, "href") {
        Some(value) => value,
        None => return LinkStep::Skip(onward),
    };
    let close: usize = match find_from(chars, "</a>", end + 1) {
        Some(i) => i,
        None => return LinkStep::Nothing,
    };
    let title = html_to_text(&slice(html, end + 1, close));
    if char_count(&title) == 0 {
        return LinkStep::Skip(onward);
    }
    let rest = after(html, close);
    let block = match find_in(&rest, MARKER) {
        Some(n) => before(&rest, n),
        None => rest,
    };
    let found = match find_snippet(&block) {
        Some(text) => text,
        None => {
            let none = String::new();
            assert(none@ =~= seq![]);
            none
        },
    };
    let result = SearchResult { title, url: normalize_duckduckgo_url(&href), snippet: found };
    LinkStep::Result(result, close + 4)
}

/// The results of a page, at most `max_results` of them.
pub fn parse_duckduckgo_results(html: &str, max_results: usize) -> (r: Vec<SearchResult>)
    ensures
        hits(r@) == results_from(html@, 0, max_results as nat),
        r@.len() <= max_results,
{
    let chars = chars_of(html);
    let mut results: Vec<SearchResult> = Vec::new();
    let mut from: usize = 0;
    let ghost whole = results_from(html@, 0, max_results as nat);
    assert(hits(results@) + whole =~= whole);
    while results.len() < max_results
        invariant
            chars@ == html@,
            from <= chars@.len(),
            results@.len() <= max_results,
            whole == results_from(html@, 0, max_results as nat),
            hits(results@) + results_from(
                html@,
                from as int,
                (max_results - results@.len()) as nat,
            ) == whole,
        decreases max_results - results@.len(), chars@.len() - from,
    {
        let ghost left = (max_results - results@.len()) as nat;
        match find_from(&chars, MARKER, from) {
            None => {
                assert(hits(results@) =~= whole);
                return results;
            },
            Some(hint) => {
                proof {
                    lemma_read_link(html@, from as int, hint - from);
                }
                match read_link_at(html, &chars, hint) {
                    LinkStep::Nothing => {
                        assert(hits(results@) =~= whole);
                        return results;
                    },
                    LinkStep::Skip(next) => {
                        from = next;
                    },
                    LinkStep::Result(result, next) => {
                        let ghost done = hits(results@);
                        let ghost hit = result@;
                        results.push(result);
                        proof {
                            assert(hits(results@) =~= done.push(hit));
                            let more = results_from(html@, next as int, (left - 1) as nat);
                            assert(hits(results@) + more =~= done + (seq![hit] + more));
                        }
                        from = next;
                    },
                }
            },
        }
    }
    assert(hits(results@) =~= whole);
    results
}

/// How many results are read for a request: at least one, at most eight.
pub open spec fn result_limit(requested: int) -> int {
    if requested < 1 {
        1
    } else if requested > 8 {
        8
    } else {
        requested
    }
}

/// How many results are read for a request.
pub fn clamp_results(requested: usize) -> (r: usize)
    ensures
        r == result_limit(requested as int),
{
    if requested < 1 {
        1
    } else if requested > 8 {
        8
    } else {
        requested
    }
}

/// The page that is asked for results.
pub const SEARCH_PAGE: &'static str = "https://html.duckduckgo.com/html/";

/// The query pairs of a search.
pub open spec fn search_params(query: Seq<char>) -> Seq<(Seq<char>, Seq<char>)> {
    seq![("q"@, query), ("kl"@, "us-en"@), ("kp"@, "-1"@), ("ia"@, "web"@)]
}

/// The address that a search asks.
pub fn search_address(query: &str) -> (r: Option<String>)
    ensures
        match r {
            Some(address) => url_with(SEARCH_PAGE@, search_params(query@)) == Some(address@),
            None => url_with(SEARCH_PAGE@, search_params(query@)) is None,
        },
{
    let mut params: Vec<(String, String)> = Vec::new();
    params.push(("q".to_owned(), query.to_owned()));
    params.push(("kl".to_owned(), "us-en".to_owned()));
    params.push(("kp".to_owned(), "-1".to_owned()));
    params.push(("ia".to_owned(), "web".to_owned()));
    proof {
        reveal_strlit("https://html.duckduckgo.com/html/");
        assert(pair_texts(params@) =~= search_params(query@));
    }
    address_with(SEARCH_PAGE, &params)
}

/// One result of the answer to a search: numbered title, address and snippet.
pub open spec fn hit_text(hit: Hit, n: nat) -> Seq<char> {
    let head = "\n"@ + decimal(n) + ". "@ + hit.title + "\n"@ + "   "@ + hit.url + "\n"@;
    if trimmed(hit.snippet).len() == 0 {
        head
    } else {
        head + "   "@ + hit.snippet + "\n"@
    }
}

/// The results of the answer to a search, numbered from one.
pub open spec fn hit_list(list: Seq<Hit>) -> Seq<char>
    decreases list.len(),
{
    if list.len() == 0 {
        seq![]
    } else {
        hit_list(list.drop_last()) + hit_text(list.last(), list.len())
    }
}

/// The answer to a search.
pub open spec fn search_answer(query: Seq<char>, list: Seq<Hit>) -> Seq<char> {
    if list.len() == 0 {
        "no DuckDuckGo results found for `"@ + query + "`"@
    } else {
        trim_end(
            "DuckDuckGo results for `"@ + query + "`:\n"@ + hit_list(list),
            CharClass::White,
        )
    }
}

fn result_text(result: &SearchResult, n: usize) -> (r: String)
    ensures
        r@ == hit_text(result@, n as nat),
{
    let mut out = "\n".to_owned();
    out.append(number(n as u64).as_str());
    out.append(". ");
    out.append(result.title.as_str());
    out.append("\n");
    out.append("   ");
    out.append(result.url.as_str());
    out.append("\n");
    if char_count(&trim_white(&result.snippet)) > 0 {
        out.append("   ");
        out.append(result.snippet.as_str());
        out.append("\n");
    }
    out
}

/// The answer to a search.
pub fn format_results(query: &str, results: &Vec<SearchResult>) -> (r: String)
    ensures
        r@ == search_answer(query@, hits(results@)),
{
    if results.len() == 0 {
        let mut out = "no DuckDuckGo results found for `".to_owned();
        out.append(query);
        out.append("`");
        return out;
    }
    let mut list = String::new();
    let ghost all = hits(results@);
    let mut i: usize = 0;
    assert(list@ =~= hit_list(all.take(0)));
    while i < results.len()
        invariant
            i <= results@.len(),
            all == hits(results@),
            list@ == hit_list(all.take(i as int)),
        decreases results@.len() - i,
    {
        list.append(result_text(&results[i], i + 1).as_str());
        assert(all.take(i + 1).drop_last() =~= all.take(i as int));
        i += 1;
    }
    assert(all.take(results@.len() as int) =~= all);
    let mut out = "DuckDuckGo results for `".to_owned();
    out.append(query);
    out.append("`:\n");
    out.append(list.as_str());
    trim_end_of(&out, CharClass::White)
}

/// The answer to a search, read out of the page that came back.
pub fn answer_search(query: &str, max_results: usize, html: &str) -> (r: String)
    ensures
        r@ == search_answer(
            query@,
            results_from(html@, 0, result_limit(max_results as int) as nat),
        ),
{
    let limit: usize = clamp_results(max_results);
    let results = parse_duckduckgo_results(html, limit);
    format_results(query, &results)
}


// ---------------------------------------------------------------------------
// Laws
// ---------------------------------------------------------------------------

/// No more results are read than were asked for, and each has a title.
pub proof fn law_results_are_bounded(html: Seq<char>, from: int, max: nat)
    ensures
        results_from(html, from, max).len() <= max,
        forall|i: int|
            0 <= i < results_from(html, from, max).len() ==> (#[trigger] results_from(
                html,
                from,
                max,
            )[i]).title.len() > 0,
    decreases max, html.len() - from,
{
    if max > 0 && 0 <= from <= html.len() {
        if let Some(n) = find(html.skip(from), MARKER@) {
            lemma_read_link(html, from, n);
            match read_link(html, from + n) {
                Found::Nothing => {},
                Found::Skip(next) => {
                    law_results_are_bounded(html, next, max);
                },
                Found::Result(hit, next) => {
                    law_results_are_bounded(html, next, (max - 1) as nat);
                },
            }
        }
    }
}

/// However many results are wished for, one answer shows between one and eight of those
/// that there are.
pub proof fn law_answers_are_short(html: Seq<char>, wished: int)
    ensures
        1 <= result_limit(wished) <= 8,
        results_from(html, 0, result_limit(wished) as nat).len() <= 8,
        1 <= wished <= 8 ==> result_limit(wished) == wished,
{
    law_results_are_bounded(html, 0, result_limit(wished) as nat);
}

proof fn lemma_words_are_ink(s: Seq<char>)
    ensures
        forall|i: int| 0 <= i < words(s).len() ==> is_ink(#[trigger] words(s)[i]),
    decreases s.len(),
{
    let t = trim_start(s, CharClass::White);
    let n = run_len(t, CharClass::Ink) as int;
    if 0 < n <= t.len() <= s.len() {
        lemma_run_len(t, CharClass::Ink);
        lemma_words_are_ink(t.skip(n));
        assert(is_ink(t.take(n)));
        let rest = words(t.skip(n));
        assert(words(s) == seq![t.take(n)] + rest);
        assert forall|i: int| 0 <= i < words(s).len() implies is_ink(#[trigger] words(s)[i]) by {
            if i > 0 {
                assert(words(s)[i] == rest[i - 1]);
                assert(is_ink(rest[i - 1]));
            }
        }
    }
}

/// Whether a text is a word: not empty, and without white space.
pub open spec fn is_ink(w: Seq<char>) -> bool {
    w.len() > 0 && forall|i: int| 0 <= i < w.len() ==> !is_white(#[trigger] w[i])
}

proof fn lemma_joined_words(list: Seq<Seq<char>>)
    requires
        forall|i: int| 0 <= i < list.len() ==> is_ink(#[trigger] list[i]),
        list.len() > 0,
    ensures
        joined(list, " "@).len() > 0,
        !is_white(joined(list, " "@)[0]),
        !is_white(joined(list, " "@).last()),
    decreases list.len(),
{
    reveal_strlit(" ");
    assert(is_ink(list[0]));
    assert(is_ink(list[list.len() - 1]));
    if list.len() > 1 {
        let rest = list.drop_last();
        assert forall|i: int| 0 <= i < rest.len() implies is_ink(#[trigger] rest[i]) by {
            assert(is_ink(list[i]));
        }
        lemma_joined_words(rest);
    }
}

/// The text of a piece of HTML neither begins nor ends in white space.
pub proof fn law_text_is_trimmed(input: Seq<char>)
    ensures
        trimmed(html_text(input)) == html_text(input),
{
    let list = words(visible(input, false));
    let text = html_text(input);
    lemma_words_are_ink(visible(input, false));
    if list.len() > 0 {
        lemma_joined_words(list);
        lemma_run_len_is(text, CharClass::White, 0);
    } else {
        lemma_run_len_is(text, CharClass::White, 0);
    }
    assert(trim_start(text, CharClass::White) =~= text);
    lemma_trim_end_is(text, CharClass::White, text.len() as int);
    assert(text.take(text.len() as int) =~= text);
}

/// Text without tags and entities is visible as it is, and its words are kept in order with one
/// space between them.
pub proof fn law_plain_text_is_visible(s: Seq<char>)
    requires
        forall|i: int| 0 <= i < s.len() ==> #[trigger] s[i] != '<' && s[i] != '>' && s[i] != '&',
    ensures
        visible(s, false) == s,
        html_text(s) == joined(words(s), " "@),
{
    lemma_visible_before(s, seq![]);
    assert(visible(seq![], false) =~= seq![]);
    assert(s + Seq::<char>::empty() =~= s);
}

proof fn lemma_visible_before(s: Seq<char>, rest: Seq<char>)
    requires
        forall|i: int| 0 <= i < s.len() ==> #[trigger] s[i] != '<' && s[i] != '>' && s[i] != '&',
    ensures
        visible(s + rest, false) == s + visible(rest, false),
    decreases s.len(),
{
    if s.len() == 0 {
        assert(s + rest =~= rest);
        assert(s + visible(rest, false) =~= visible(rest, false));
    } else {
        let all = s + rest;
        assert(all[0] == s[0]);
        assert(all.skip(1) =~= s.skip(1) + rest);
        assert forall|i: int| 0 <= i < s.skip(1).len() implies #[trigger] s.skip(1)[i] != '<'
            && s.skip(1)[i] != '>' && s.skip(1)[i] != '&' by {
            assert(s.skip(1)[i] == s[i + 1]);
        }
        lemma_visible_before(s.skip(1), rest);
        assert(seq![s[0]] + (s.skip(1) + visible(rest, false)) =~= s + visible(rest, false));
    }
}

proof fn lemma_inside_tag(tag: Seq<char>, rest: Seq<char>)
    requires
        forall|i: int| 0 <= i < tag.len() ==> #[trigger] tag[i] != '>',
    ensures
        visible(tag + rest, true) == visible(rest, true),
    decreases tag.len(),
{
    if tag.len() == 0 {
        assert(tag + rest =~= rest);
    } else {
        let all = tag + rest;
        assert(all[0] == tag[0]);
        assert(all.skip(1) =~= tag.skip(1) + rest);
        assert forall|i: int| 0 <= i < tag.skip(1).len() implies #[trigger] tag.skip(1)[i] != '>' by {
            assert(tag.skip(1)[i] == tag[i + 1]);
        }
        lemma_inside_tag(tag.skip(1), rest);
    }
}

/// A tag is left out, and the text before and behind it is visible.
pub proof fn law_tags_are_left_out(text: Seq<char>, tag: Seq<char>, rest: Seq<char>)
    requires
        forall|i: int|
            0 <= i < text.len() ==> #[trigger] text[i] != '<' && text[i] != '>' && text[i] != '&',
        forall|i: int| 0 <= i < tag.len() ==> #[trigger] tag[i] != '>',
    ensures
        visible(text + "<"@ + tag + ">"@ + rest, false) == text + visible(rest, false),
{
    reveal_strlit("<");
    reveal_strlit(">");
    let behind = ">"@ + rest;
    let inside = tag + behind;
    let tagged = "<"@ + inside;
    assert(text + "<"@ + tag + ">"@ + rest =~= text + tagged);
    lemma_visible_before(text, tagged);
    assert(tagged.skip(1) =~= inside);
    lemma_inside_tag(tag, behind);
    assert(behind.skip(1) =~= rest);
}

proof fn lemma_entity_ends(s: Seq<char>, n: int, at: int)
    requires
        0 <= n <= at < s.len(),
        s[at] == ';',
        forall|i: int| n <= i < at ==> #[trigger] s[i] != ';' && byte_len(s.take(i + 1)) <= 12,
    ensures
        entity_end(s, n) == at + 1,
    decreases at - n,
{
    if n < at {
        assert(s[n] != ';');
        lemma_entity_ends(s, n + 1, at);
    }
}

/// An entity, from its ampersand to its semicolon, is visible as the character that it stands
/// for, or as it is where it stands for none that is known.
pub proof fn law_entities_are_read(e: Seq<char>, rest: Seq<char>)
    requires
        e.len() > 1,
        e[0] == '&',
        e.last() == ';',
        forall|i: int|
            0 <= i < e.len() - 1 ==> #[trigger] e[i] != ';' && byte_len(e.take(i + 1)) <= 12,
    ensures
        visible(e + rest, false) == entity(e) + visible(rest, false),
        entity("&amp;"@) == "&"@,
        entity("&lt;"@) == "<"@,
        entity("&gt;"@) == ">"@,
        entity("&quot;"@) == "\""@,
        entity("&#39;"@) == "'"@,
        entity("&#x27;"@) == "'"@,
        e != "&amp;"@ && e != "&lt;"@ && e != "&gt;"@ && e != "&quot;"@ && e != "&#39;"@ && e
            != "&#x27;"@ ==> entity(e) == e,
{
    let s = e + rest;
    let at = e.len() - 1;
    assert forall|i: int| 1 <= i < at implies #[trigger] s[i] != ';' && byte_len(s.take(i + 1))
        <= 12 by {
        assert(s[i] == e[i]);
        assert(s.take(i + 1) =~= e.take(i + 1));
    }
    lemma_entity_ends(s, 1, at);
    assert(s.take(at + 1) =~= e);
    assert(s.skip(at + 1) =~= rest);
    reveal_strlit("&amp;");
    reveal_strlit("&lt;");
    reveal_strlit("&gt;");
    reveal_strlit("&quot;");
    reveal_strlit("&#39;");
    reveal_strlit("&#x27;");
    assert("&lt;"@[1] != "&gt;"@[1]);
    assert("&amp;"@[1] != "&#39;"@[1]);
    assert("&quot;"@[1] != "&#x27;"@[1]);
}

/// The value of an attribute is what stands between the quotation marks behind its name.
pub proof fn law_attributes_are_read(
    head: Seq<char>,
    attr: Seq<char>,
    value: Seq<char>,
    rest: Seq<char>,
)
    requires
        find(head + attr + "=\""@ + value + "\""@ + rest, attr + "=\""@) == Some(head.len() as int),
        find(value + "\""@ + rest, "\""@) == Some(value.len() as int),
    ensures
        attribute(head + attr + "=\""@ + value + "\""@ + rest, attr) == Some(value),
{
    let tag = head + attr + "=\""@ + value + "\""@ + rest;
    let needle = attr + "=\""@;
    let n = head.len() as int;
    assert(tag.skip(n + needle.len()) =~= value + "\""@ + rest);
    assert((value + "\""@ + rest).take(value.len() as int) =~= value);
}

/// A tag without an attribute has no value for it.
pub proof fn law_missing_attributes_have_no_value(tag: Seq<char>, attr: Seq<char>)
    requires
        !holds_text(tag, attr + "=\""@),
    ensures
        attribute(tag, attr) is None,
{
}

/// The snippet of a result is the text inside the element that is marked as one.
pub proof fn law_snippets_are_read(
    head: Seq<char>,
    name: Seq<char>,
    attrs: Seq<char>,
    inner: Seq<char>,
    rest: Seq<char>,
    marker: int,
)
    requires
        ({
            let tag = "<"@ + name + attrs + ">"@;
            let block = head + tag + inner + ("</"@ + name) + rest;
            &&& find(block, "result__snippet"@) == Some(marker)
            &&& 0 <= marker <= block.len()
            &&& rfind(block.take(marker), "<"@) == Some(head.len() as int)
            &&& find(block.skip(head.len() as int), ">"@) == Some(tag.len() - 1)
            &&& run_len(block.skip(head.len() as int + 1), CharClass::Alpha) == name.len()
            &&& find(inner + ("</"@ + name) + rest, "</"@ + name) == Some(inner.len() as int)
        }),
    ensures
        ({
            let tag = "<"@ + name + attrs + ">"@;
            let block = head + tag + inner + ("</"@ + name) + rest;
            &&& trimmed(html_text(inner)).len() > 0 ==> snippet(block) == Some(html_text(inner))
            &&& trimmed(html_text(inner)).len() == 0 ==> snippet(block) is None
        }),
{
    reveal_strlit("<");
    reveal_strlit(">");
    let tag = "<"@ + name + attrs + ">"@;
    let close = "</"@ + name;
    let block = head + tag + inner + close + rest;
    let n = head.len() as int;
    let from = block.skip(n);
    assert(from =~= tag + inner + close + rest);
    assert(from.skip(1) =~= block.skip(n + 1));
    assert(from.skip(1).take(name.len() as int) =~= name);
    let body = from.skip(tag.len() as int);
    assert(body =~= inner + close + rest);
    assert(body.take(inner.len() as int) =~= inner);
}

/// A block without the mark of a snippet has none.
pub proof fn law_blocks_without_snippets_have_none(block: Seq<char>)
    requires
        !holds_text(block, "result__snippet"@),
    ensures
        snippet(block) is None,
{
}

/// A link leads to the address that it carries for the search engine to send the reader on to,
/// the first of that name, or else where it says itself.
pub proof fn law_links_lead_where_they_are_sent(
    href: Seq<char>,
    pairs: Seq<(Seq<char>, Seq<char>)>,
    i: int,
)
    requires
        0 <= i <= pairs.len(),
        forall|j: int| 0 <= j < i ==> (#[trigger] pairs[j]).0 != "uddg"@,
        i < pairs.len() ==> pairs[i].0 == "uddg"@,
    ensures
        i < pairs.len() ==> target(href, Some(pairs)) == pairs[i].1,
        i == pairs.len() ==> target(href, Some(pairs)) == href,
        target(href, None) == href,
{
    lemma_first_value(pairs, "uddg"@, i);
}

proof fn lemma_first_value(pairs: Seq<(Seq<char>, Seq<char>)>, name: Seq<char>, i: int)
    requires
        0 <= i <= pairs.len(),
        forall|j: int| 0 <= j < i ==> (#[trigger] pairs[j]).0 != name,
        i < pairs.len() ==> pairs[i].0 == name,
    ensures
        i < pairs.len() ==> first_value(pairs, name) == Some(pairs[i].1),
        i == pairs.len() ==> first_value(pairs, name) is None,
    decreases pairs.len(),
{
    if i > 0 {
        assert(pairs[0].0 != name);
        let rest = pairs.skip(1);
        assert forall|j: int| 0 <= j < i - 1 implies (#[trigger] rest[j]).0 != name by {
            assert(rest[j] == pairs[j + 1]);
        }
        lemma_first_value(rest, name, i - 1);
    }
}

/// An address without a scheme gets the one of the web, and another stays as it is.
pub proof fn law_addresses_are_completed(raw: Seq<char>)
    ensures
        absolute("//"@ + raw) == "https://"@ + raw,
        !begins(raw, "//"@) ==> absolute(raw) == raw,
        destination(raw) == target(absolute(raw), url_query(absolute(raw))),
{
    reveal_strlit("//");
    reveal_strlit("https:");
    reveal_strlit("https://");
    let whole = "//"@ + raw;
    assert(whole.subrange(0, 2) =~= "//"@);
    assert("https:"@ + whole =~= "https://"@ + raw);
}

/// A link that is marked as a result and has a title is a result: its title is the text of the
/// link, its address where the link leads, and its snippet the one that stands before the next
/// result. Reading goes on behind the link.
pub proof fn law_marked_links_are_results(
    head: Seq<char>,
    attrs: Seq<char>,
    title: Seq<char>,
    rest: Seq<char>,
    hint: int,
    href: Seq<char>,
)
    requires
        ({
            let tag = "<a"@ + attrs + ">"@;
            let html = head + tag + title + "</a>"@ + rest;
            &&& 0 <= hint <= html.len()
            &&& rfind(html.take(hint), "<a"@) == Some(head.len() as int)
            &&& find(html.skip(head.len() as int), ">"@) == Some(tag.len() - 1)
            &&& attribute(tag, "href"@) == Some(href)
            &&& holds_text(tag, "result__a"@)
            &&& find(title + "</a>"@ + rest, "</a>"@) == Some(title.len() as int)
            &&& html_text(title).len() > 0
        }),
    ensures
        ({
            let html = head + ("<a"@ + attrs + ">"@) + title + "</a>"@ + rest;
            match read_link(html, hint) {
                Found::Result(hit, next) => {
                    &&& hit.title == html_text(title)
                    &&& hit.url == destination(href)
                    &&& snippet(until_marker("</a>"@ + rest)) is Some ==> hit.snippet == snippet(
                        until_marker("</a>"@ + rest),
                    )->0
                    &&& snippet(until_marker("</a>"@ + rest)) is None ==> hit.snippet.len() == 0
                    &&& html.skip(next) == rest
                },
                _ => false,
            }
        }),
{
    reveal_strlit("</a>");
    reveal_strlit(">");
    let tag = "<a"@ + attrs + ">"@;
    let html = head + tag + title + "</a>"@ + rest;
    let start = head.len() as int;
    let end = start + tag.len() - 1;
    assert(html.subrange(start, end + 1) =~= tag);
    assert(html.skip(end + 1) =~= title + "</a>"@ + rest);
    let close = end + 1 + title.len();
    assert(html.subrange(end + 1, close) =~= title);
    assert(html.skip(close) =~= "</a>"@ + rest);
    assert(html.skip(close + 4) =~= rest);
}

/// What belongs to a result ends where the next one is marked.
pub proof fn law_results_end_at_the_next(own: Seq<char>, rest: Seq<char>)
    ensures
        find(own + "result__a"@ + rest, "result__a"@) == Some(own.len() as int) ==> until_marker(
            own + "result__a"@ + rest,
        ) == own,
        !holds_text(own, "result__a"@) ==> until_marker(own) == own,
{
    assert((own + "result__a"@ + rest).take(own.len() as int) =~= own);
}

/// Asking for fewer results gives the first of those that asking for more gives.
pub proof fn law_fewer_results_are_the_first(html: Seq<char>, from: int, few: nat, many: nat)
    requires
        few <= many,
    ensures
        results_from(html, from, few).is_prefix_of(results_from(html, from, many)),
        results_from(html, from, many).len() >= few ==> results_from(html, from, few).len() == few,
    decreases few, html.len() - from,
{
    if few > 0 && 0 <= from <= html.len() {
        if let Some(n) = find(html.skip(from), MARKER@) {
            lemma_read_link(html, from, n);
            match read_link(html, from + n) {
                Found::Nothing => {},
                Found::Skip(next) => {
                    law_fewer_results_are_the_first(html, next, few, many);
                },
                Found::Result(hit, next) => {
                    law_fewer_results_are_the_first(
                        html,
                        next,
                        (few - 1) as nat,
                        (many - 1) as nat,
                    );
                    let a = results_from(html, next, (few - 1) as nat);
                    let b = results_from(html, next, (many - 1) as nat);
                    assert(seq![hit] + a =~= (seq![hit] + b).take(a.len() as int + 1));
                },
            }
        }
    }
}

/// Each marked link is a result in its turn: the results of a page are the first one and then
/// those behind it, links that are none are passed over, and a page without the mark has none.
pub proof fn law_results_come_in_order(html: Seq<char>, from: int, n: int, max: nat)
    requires
        0 <= from <= html.len(),
        max > 0,
    ensures
        find(html.skip(from), "result__a"@) is None ==> results_from(html, from, max).len() == 0,
        find(html.skip(from), "result__a"@) == Some(n) ==> (read_link(html, from + n)
            matches Found::Result(hit, next) ==> results_from(html, from, max) == seq![hit]
            + results_from(html, next, (max - 1) as nat)),
        find(html.skip(from), "result__a"@) == Some(n) ==> (read_link(html, from + n)
            matches Found::Skip(next) ==> results_from(html, from, max) == results_from(
            html,
            next,
            max,
        )),
{
}

/// A search asks for at least one result and at most eight.
pub proof fn law_results_are_limited(requested: int)
    ensures
        requested < 1 ==> result_limit(requested) == 1,
        1 <= requested <= 8 ==> result_limit(requested) == requested,
        requested > 8 ==> result_limit(requested) == 8,
{
}

/// A search sends the query as it is.
pub proof fn law_queries_are_sent_whole(query: Seq<char>)
    ensures
        search_params(query).len() == 4,
        search_params(query)[0] == ("q"@, query),
        search_params(query)[1] == ("kl"@, "us-en"@),
        search_params(query)[2] == ("kp"@, "-1"@),
        search_params(query)[3] == ("ia"@, "web"@),
{
}

/// Each result is told in its turn, under its number, with its title, its address and its
/// snippet where it has one.
pub proof fn law_each_result_is_told(list: Seq<Hit>, hit: Hit)
    ensures
        hit_list(seq![]).len() == 0,
        trimmed(hit.snippet).len() > 0 ==> hit_list(list.push(hit)) == hit_list(list) + ("\n"@
            + decimal(list.len() + 1) + ". "@ + hit.title + "\n"@ + "   "@ + hit.url + "\n"@
            + "   "@ + hit.snippet + "\n"@),
        trimmed(hit.snippet).len() == 0 ==> hit_list(list.push(hit)) == hit_list(list) + ("\n"@
            + decimal(list.len() + 1) + ". "@ + hit.title + "\n"@ + "   "@ + hit.url + "\n"@),
{
    assert(list.push(hit).drop_last() =~= list);
}

/// The answer to a search names the query and tells every result, or says that there is none.
pub proof fn law_searches_are_answered(query: Seq<char>, list: Seq<Hit>)
    ensures
        list.len() == 0 ==> search_answer(query, list) == "no DuckDuckGo results found for `"@
            + query + "`"@,
        list.len() > 0 ==> search_answer(query, list) == trim_end(
            "DuckDuckGo results for `"@ + query + "`:\n"@ + hit_list(list),
            CharClass::White,
        ),
{
}

/// An entity that is read ends behind its semicolon, or once more than twelve bytes are read,
/// or with the text, whichever comes first.
pub proof fn law_entities_end_early(s: Seq<char>, n: int, i: int)
    requires
        0 <= n < s.len(),
    ensures
        n < entity_end(s, n) <= s.len(),
        n <= i < entity_end(s, n) - 1 ==> s[i] != ';' && byte_len(s.take(i + 1)) <= 12,
        entity_end(s, n) < s.len() ==> s[entity_end(s, n) - 1] == ';' || byte_len(
            s.take(entity_end(s, n)),
        ) > 12,
    decreases s.len() - n,
{
    lemma_entity_end(s, n);
    if !(s[n] == ';' || byte_len(s.take(n + 1)) > 12) && n + 1 < s.len() {
        law_entities_end_early(s, n + 1, i);
    }
}

/// A bracket that closes no tag is left out.
pub proof fn law_stray_brackets_are_left_out(rest: Seq<char>)
    ensures
        visible(">"@ + rest, false) == visible(rest, false),
        visible(seq![], false).len() == 0,
{
    reveal_strlit(">");
    let s = ">"@ + rest;
    assert(s[0] == '>');
    assert(s.skip(1) =~= rest);
}

/// What is no result is passed over: a mark outside a link, a link without an address or a
/// title. A link that does not end ends the reading.
pub proof fn law_other_links_are_passed_over(html: Seq<char>, hint: int, start: int, n: int)
    requires
        0 <= hint <= html.len(),
    ensures
        rfind(html.take(hint), "<a"@) is None ==> read_link(html, hint) == Found::Skip(
            hint + "result__a"@.len(),
        ),
        rfind(html.take(hint), "<a"@) == Some(start) && find(html.skip(start), ">"@) is None
            ==> read_link(html, hint) == Found::Nothing,
        rfind(html.take(hint), "<a"@) == Some(start) && find(html.skip(start), ">"@) == Some(n) && (
        attribute(html.subrange(start, start + n + 1), "href"@) is None || !holds_text(
            html.subrange(start, start + n + 1),
            "result__a"@,
        )) ==> (read_link(html, hint) matches Found::Skip(next) && next >= start + n + 1 && next
            >= hint + "result__a"@.len() && (next == start + n + 1 || next == hint
            + "result__a"@.len())),
{
}

/// What begins like an entity is read up to its end, and shown as it is where it is none.
pub proof fn law_ampersands_are_read_to_their_end(s: Seq<char>)
    requires
        s.len() > 0,
        s[0] == '&',
    ensures
        visible(s, false) == entity(s.take(entity_end(s, 1))) + visible(
            s.skip(entity_end(s, 1)),
            false,
        ),
        visible(s, true) == visible(s.skip(1), true),
{
}

/// A value that is not closed is no value.
pub proof fn law_open_values_are_none(head: Seq<char>, attr: Seq<char>, rest: Seq<char>)
    requires
        find(head + attr + "=\""@ + rest, attr + "=\""@) == Some(head.len() as int),
        find(rest, "\""@) is None,
    ensures
        attribute(head + attr + "=\""@ + rest, attr) is None,
{
    let needle = attr + "=\""@;
    let tag = head + attr + "=\""@ + rest;
    assert(tag.skip((head.len() + needle.len()) as int) =~= rest);
}

/// A snippet outside of any tag, or in a tag that does not end, is none; one whose tag is not
/// closed reaches to the end of its block.
pub proof fn law_open_snippets_reach_the_end(
    block: Seq<char>,
    marker: int,
    start: int,
    end: int,
)
    requires
        find(block, "result__snippet"@) == Some(marker),
    ensures
        rfind(block.take(marker), "<"@) is None ==> snippet(block) is None,
        rfind(block.take(marker), "<"@) == Some(start) && find(block.skip(start), ">"@) is None
            ==> snippet(block) is None,
        ({
            let tag = block.skip(start);
            let body = tag.skip(end + 1);
            let name = tag.skip(1).take(run_len(tag.skip(1), CharClass::Alpha) as int);
            rfind(block.take(marker), "<"@) == Some(start) && find(tag, ">"@) == Some(end) && find(
                body,
                "</"@ + name,
            ) is None && trimmed(html_text(body)).len() > 0 ==> snippet(block) == Some(
                html_text(body),
            )
        }),
{
}

/// A link that is not closed ends the results, and one without a title is passed over.
pub proof fn law_links_need_an_end_and_a_title(html: Seq<char>, hint: int, start: int, n: int, len: int)
    requires
        rfind(html.take(hint), "<a"@) == Some(start),
        find(html.skip(start), ">"@) == Some(n),
        attribute(html.subrange(start, start + n + 1), "href"@) is Some,
        holds_text(html.subrange(start, start + n + 1), "result__a"@),
    ensures
        find(html.skip(start + n + 1), "</a>"@) is None ==> read_link(html, hint) == Found::Nothing,
        find(html.skip(start + n + 1), "</a>"@) == Some(len) && html_text(
            html.subrange(start + n + 1, start + n + 1 + len),
        ).len() == 0 ==> read_link(html, hint) is Skip,
{
}

/// Where a link ends the results, no more are read.
pub proof fn law_results_end_with_an_open_link(html: Seq<char>, from: int, n: int, max: nat)
    requires
        0 <= from <= html.len(),
        find(html.skip(from), "result__a"@) == Some(n),
        read_link(html, from + n) == Found::Nothing,
    ensures
        results_from(html, from, max).len() == 0,
{
}

}
