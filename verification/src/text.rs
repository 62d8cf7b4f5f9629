//! Text as sequences of characters: searching, trimming, splitting, joining and
//! number formatting. Positions are counted in characters.
use vstd::prelude::*;
use vstd::string::*;
use vstd::utf8::encode_utf8;

verus! {

broadcast use {vstd::seq::group_seq_axioms, vstd::string::group_string_axioms};

// ---------------------------------------------------------------------------
// Characters
// ---------------------------------------------------------------------------

/// A class of characters that text is trimmed or scanned by.
#[derive(Clone, Copy)]
pub enum CharClass {
    /// Unicode `White_Space`.
    White,
    /// `0` to `9`.
    Digit,
    /// ASCII letters.
    Alpha,
    /// One given character.
    Is(char),
    /// Any character but the given one.
    Not(char),
    /// Anything but Unicode `White_Space`.
    Ink,
}

/// The characters with the Unicode property `White_Space`.
pub open spec fn is_white(c: char) -> bool {
    ||| '\u{9}' <= c <= '\u{d}'
    ||| c == ' '
    ||| c == '\u{85}'
    ||| c == '\u{a0}'
    ||| c == '\u{1680}'
    ||| '\u{2000}' <= c <= '\u{200a}'
    ||| c == '\u{2028}'
    ||| c == '\u{2029}'
    ||| c == '\u{202f}'
    ||| c == '\u{205f}'
    ||| c == '\u{3000}'
}

pub open spec fn is_digit(c: char) -> bool {
    '0' <= c <= '9'
}

pub open spec fn is_alpha(c: char) -> bool {
    ('a' <= c <= 'z') || ('A' <= c <= 'Z')
}

impl CharClass {
    /// Whether `c` belongs to the class.
    pub open spec fn has(self, c: char) -> bool {
        match self {
            CharClass::White => is_white(c),
            CharClass::Digit => is_digit(c),
            CharClass::Alpha => is_alpha(c),
            CharClass::Is(x) => c == x,
            CharClass::Not(x) => c != x,
            CharClass::Ink => !is_white(c),
        }
    }

    pub fn contains(self, c: char) -> (r: bool)
        ensures
            r == self.has(c),
    {
        match self {
            CharClass::White => is_whitespace(c),
            CharClass::Digit => '0' <= c && c <= '9',
            CharClass::Alpha => ('a' <= c && c <= 'z') || ('A' <= c && c <= 'Z'),
            CharClass::Is(x) => c == x,
            CharClass::Not(x) => c != x,
            CharClass::Ink => !is_whitespace(c),
        }
    }
}

/// Whether `c` has the Unicode property `White_Space`.
pub fn is_whitespace(c: char) -> (r: bool)
    ensures
        r == is_white(c),
{
    ('\u{9}' <= c && c <= '\u{d}') || c == ' ' || c == '\u{85}' || c == '\u{a0}' || c == '\u{1680}'
        || ('\u{2000}' <= c && c <= '\u{200a}') || c == '\u{2028}' || c == '\u{2029}' || c
        == '\u{202f}' || c == '\u{205f}' || c == '\u{3000}'
}

// ---------------------------------------------------------------------------
// Strings and character vectors
// ---------------------------------------------------------------------------

/// `String::push` of std appends one character.
pub assume_specification[ String::push ](s: &mut String, c: char)
    ensures
        final(s)@ == old(s)@.push(c),
;

/// The texts of a list of strings.
pub open spec fn texts(list: Seq<String>) -> Seq<Seq<char>> {
    Seq::new(list.len(), |i: int| list[i]@)
}

/// The characters of `s`.
pub fn chars_of(s: &str) -> (r: Vec<char>)
    ensures
        r@ == s@,
{
    let mut out: Vec<char> = Vec::new();
    for c in it: s.chars()
        invariant
            it.seq() == s@,
            out@ == s@.take(it.index() as int),
    {
        out.push(c);
        assert(s@.take(it.index() as int).push(c) =~= s@.take(it.index() + 1));
    }
    assert(s@.take(s@.len() as int) =~= s@);
    out
}

/// The characters from `from` up to `to`, as a string.
pub fn string_of(chars: &Vec<char>, from: usize, to: usize) -> (r: String)
    requires
        from <= to <= chars@.len(),
    ensures
        r@ == chars@.subrange(from as int, to as int),
{
    let mut out = String::new();
    let mut i: usize = from;
    while i < to
        invariant
            from <= i <= to <= chars@.len(),
            out@ == chars@.subrange(from as int, i as int),
        decreases to - i,
    {
        out.push(chars[i]);
        proof {
            assert(chars@.subrange(from as int, i as int).push(chars@[i as int])
                =~= chars@.subrange(from as int, i + 1));
        }
        i += 1;
    }
    out
}

/// Whether two texts are the same.
pub fn same(a: &str, b: &str) -> (r: bool)
    ensures
        r == (a@ == b@),
{
    a.to_owned() == b.to_owned()
}

// ---------------------------------------------------------------------------
// Runs and trimming
// ---------------------------------------------------------------------------

/// How many characters at the start of `s` belong to the class, before the first that does not.
pub open spec fn run_len(s: Seq<char>, class: CharClass) -> nat
    decreases s.len(),
{
    if s.len() > 0 && class.has(s[0]) {
        1 + run_len(s.skip(1), class)
    } else {
        0
    }
}

/// `s` without the leading run of the class.
pub open spec fn trim_start(s: Seq<char>, class: CharClass) -> Seq<char> {
    s.skip(run_len(s, class) as int)
}

/// `s` without the trailing run of the class.
pub open spec fn trim_end(s: Seq<char>, class: CharClass) -> Seq<char>
    decreases s.len(),
{
    if s.len() > 0 && class.has(s.last()) {
        trim_end(s.drop_last(), class)
    } else {
        s
    }
}

/// `s` without the leading and the trailing run of the class.
pub open spec fn trim(s: Seq<char>, class: CharClass) -> Seq<char> {
    trim_end(trim_start(s, class), class)
}

/// `s` without surrounding white space.
pub open spec fn trimmed(s: Seq<char>) -> Seq<char> {
    trim(s, CharClass::White)
}

/// A run is made of members of the class and ends at the end of the text or
/// before a character outside the class.
pub proof fn lemma_run_len(s: Seq<char>, class: CharClass)
    ensures
        run_len(s, class) <= s.len(),
        forall|i: int| 0 <= i < run_len(s, class) ==> class.has(#[trigger] s[i]),
        run_len(s, class) < s.len() ==> !class.has(s[run_len(s, class) as int]),
    decreases s.len(),
{
    if s.len() > 0 && class.has(s[0]) {
        lemma_run_len(s.skip(1), class);
        let n = run_len(s.skip(1), class);
        assert forall|i: int| 0 <= i < run_len(s, class) implies class.has(#[trigger] s[i]) by {
            if i > 0 {
                assert(s[i] == s.skip(1)[i - 1]);
            }
        }
        if n + 1 < s.len() {
            assert(s[(n + 1) as int] == s.skip(1)[n as int]);
        }
    }
}

/// The run is the only length with these properties.
pub proof fn lemma_run_len_is(s: Seq<char>, class: CharClass, n: int)
    requires
        0 <= n <= s.len(),
        forall|i: int| 0 <= i < n ==> class.has(#[trigger] s[i]),
        n < s.len() ==> !class.has(s[n]),
    ensures
        run_len(s, class) == n,
{
    lemma_run_len(s, class);
    let k = run_len(s, class) as int;
    if k < n {
        assert(class.has(s[k]));
    }
    if n < k {
        assert(class.has(s[n]));
    }
}

/// Trimming the end keeps the longest prefix whose last character is outside the class.
pub proof fn lemma_trim_end(s: Seq<char>, class: CharClass)
    ensures
        trim_end(s, class).len() <= s.len(),
        trim_end(s, class) == s.take(trim_end(s, class).len() as int),
        forall|i: int| trim_end(s, class).len() <= i < s.len() ==> class.has(#[trigger] s[i]),
        trim_end(s, class).len() > 0 ==> !class.has(trim_end(s, class).last()),
    decreases s.len(),
{
    if s.len() > 0 && class.has(s.last()) {
        lemma_trim_end(s.drop_last(), class);
        let n = trim_end(s, class).len() as int;
        assert(s.drop_last().take(n) =~= s.take(n));
        assert forall|i: int| n <= i < s.len() implies class.has(#[trigger] s[i]) by {
            if i < s.len() - 1 {
                assert(s[i] == s.drop_last()[i]);
            }
        }
    } else {
        assert(s.take(s.len() as int) =~= s);
    }
}

pub proof fn lemma_trim_end_is(s: Seq<char>, class: CharClass, n: int)
    requires
        0 <= n <= s.len(),
        forall|i: int| n <= i < s.len() ==> class.has(#[trigger] s[i]),
        n > 0 ==> !class.has(s[n - 1]),
    ensures
        trim_end(s, class) == s.take(n),
{
    lemma_trim_end(s, class);
    let k = trim_end(s, class).len() as int;
    if k > n {
        assert(class.has(s[k - 1]));
        assert(trim_end(s, class).last() == s[k - 1]);
    }
    if n > k {
        assert(class.has(s[n - 1]));
    }
}

/// The length of the run of `class` that starts at `from`.
pub fn run_from(chars: &Vec<char>, from: usize, class: CharClass) -> (r: usize)
    requires
        from <= chars@.len(),
    ensures
        r == run_len(chars@.skip(from as int), class),
        from + r <= chars.len(),
{
    let mut n: usize = 0;
    while n < chars.len() - from && class.contains(chars[from + n])
        invariant
            from + n <= chars@.len(),
            forall|i: int| 0 <= i < n ==> class.has(#[trigger] chars@.skip(from as int)[i]),
        decreases chars@.len() - from - n,
    {
        assert(chars@.skip(from as int)[n as int] == chars@[from + n]);
        n += 1;
    }
    proof {
        if from + n < chars@.len() {
            assert(chars@.skip(from as int)[n as int] == chars@[from + n]);
        }
        lemma_run_len_is(chars@.skip(from as int), class, n as int);
    }
    n
}

/// `s` without the leading run of the class.
pub fn trim_start_of(s: &str, class: CharClass) -> (r: String)
    ensures
        r@ == trim_start(s@, class),
{
    let chars = chars_of(s);
    assert(chars@.skip(0) =~= s@);
    let n: usize = run_from(&chars, 0, class);
    assert(chars@.subrange(n as int, chars@.len() as int) =~= s@.skip(n as int));
    string_of(&chars, n, chars.len())
}

/// `s` without the trailing run of the class.
pub fn trim_end_of(s: &str, class: CharClass) -> (r: String)
    ensures
        r@ == trim_end(s@, class),
{
    let chars = chars_of(s);
    let mut n: usize = chars.len();
    while n > 0 && class.contains(chars[n - 1])
        invariant
            n <= chars@.len(),
            forall|i: int| n <= i < chars@.len() ==> class.has(#[trigger] chars@[i]),
        decreases n,
    {
        n -= 1;
    }
    proof {
        lemma_trim_end_is(s@, class, n as int);
        assert(chars@.subrange(0, n as int) =~= s@.take(n as int));
    }
    string_of(&chars, 0, n)
}

/// `s` without the leading and the trailing run of the class.
pub fn trim_of(s: &str, class: CharClass) -> (r: String)
    ensures
        r@ == trim(s@, class),
{
    trim_end_of(&trim_start_of(s, class), class)
}

/// `s` without surrounding white space.
pub fn trim_white(s: &str) -> (r: String)
    ensures
        r@ == trimmed(s@),
{
    trim_of(s, CharClass::White)
}

// ---------------------------------------------------------------------------
// Searching
// ---------------------------------------------------------------------------

/// Whether `pat` stands in `s` at position `i`.
pub open spec fn occurs_at(s: Seq<char>, pat: Seq<char>, i: int) -> bool {
    &&& 0 <= i
    &&& i + pat.len() <= s.len()
    &&& s.subrange(i, i + pat.len()) == pat
}

/// The first position at which `pat` stands in `s`.
pub open spec fn find(s: Seq<char>, pat: Seq<char>) -> Option<int>
    decreases s.len(),
{
    if occurs_at(s, pat, 0) {
        Some(0)
    } else if s.len() == 0 {
        None
    } else {
        match find(s.skip(1), pat) {
            Some(i) => Some(i + 1),
            None => None,
        }
    }
}

/// The last position at which `pat` stands in `s`.
pub open spec fn rfind(s: Seq<char>, pat: Seq<char>) -> Option<int>
    decreases s.len(),
{
    if occurs_at(s, pat, s.len() - pat.len()) {
        Some(s.len() - pat.len())
    } else if s.len() == 0 {
        None
    } else {
        rfind(s.drop_last(), pat)
    }
}

/// Whether `pat` stands anywhere in `s`.
pub open spec fn holds_text(s: Seq<char>, pat: Seq<char>) -> bool {
    find(s, pat) is Some
}

/// Whether `s` begins with `pat`.
pub open spec fn begins(s: Seq<char>, pat: Seq<char>) -> bool {
    occurs_at(s, pat, 0)
}

/// Whether `s` ends with `pat`.
pub open spec fn ends(s: Seq<char>, pat: Seq<char>) -> bool {
    occurs_at(s, pat, s.len() - pat.len())
}

proof fn lemma_occurs_shift(s: Seq<char>, pat: Seq<char>, k: int, i: int)
    requires
        0 <= k <= s.len(),
        0 <= i,
    ensures
        occurs_at(s.skip(k), pat, i) == occurs_at(s, pat, i + k),
{
    if i + k + pat.len() <= s.len() {
        assert(s.skip(k).subrange(i, i + pat.len()) =~= s.subrange(i + k, i + k + pat.len()));
    }
}

/// What `find` gives is an occurrence, and none stands before it.
pub proof fn lemma_find(s: Seq<char>, pat: Seq<char>)
    ensures
        match find(s, pat) {
            Some(i) => occurs_at(s, pat, i) && forall|j: int|
                0 <= j < i ==> !#[trigger] occurs_at(s, pat, j),
            None => forall|j: int| !#[trigger] occurs_at(s, pat, j),
        },
    decreases s.len(),
{
    if occurs_at(s, pat, 0) {
    } else if s.len() == 0 {
    } else {
        let t = s.skip(1);
        lemma_find(t, pat);
        assert forall|j: int| 1 <= j implies #[trigger] occurs_at(s, pat, j) == occurs_at(
            t,
            pat,
            j - 1,
        ) by {
            lemma_occurs_shift(s, pat, 1, j - 1);
        }
        match find(t, pat) {
            Some(i) => {
                assert(occurs_at(s, pat, i + 1));
                assert forall|j: int| 0 <= j < i + 1 implies !#[trigger] occurs_at(s, pat, j) by {
                    if j >= 1 {
                        assert(!occurs_at(t, pat, j - 1));
                    }
                }
            },
            None => {
                assert forall|j: int| !#[trigger] occurs_at(s, pat, j) by {
                    if j >= 1 {
                        assert(!occurs_at(t, pat, j - 1));
                    }
                }
            },
        }
    }
}

/// The first occurrence is the only position with these properties.
pub proof fn lemma_find_is(s: Seq<char>, pat: Seq<char>, i: int)
    requires
        occurs_at(s, pat, i),
        forall|j: int| 0 <= j < i ==> !#[trigger] occurs_at(s, pat, j),
    ensures
        find(s, pat) == Some(i),
{
    lemma_find(s, pat);
    let k = find(s, pat).unwrap();
    if k < i {
        assert(!occurs_at(s, pat, k));
    }
    if i < k {
        assert(!occurs_at(s, pat, i));
    }
}

/// What `rfind` gives is an occurrence, and none stands behind it.
pub proof fn lemma_rfind(s: Seq<char>, pat: Seq<char>)
    ensures
        match rfind(s, pat) {
            Some(i) => occurs_at(s, pat, i) && forall|j: int|
                i < j ==> !#[trigger] occurs_at(s, pat, j),
            None => forall|j: int| !#[trigger] occurs_at(s, pat, j),
        },
    decreases s.len(),
{
    let n = s.len() - pat.len();
    if occurs_at(s, pat, n) {
    } else if s.len() == 0 {
    } else {
        let t = s.drop_last();
        lemma_rfind(t, pat);
        assert forall|j: int| j < n implies #[trigger] occurs_at(s, pat, j) == occurs_at(
            t,
            pat,
            j,
        ) by {
            if 0 <= j {
                assert(s.subrange(j, j + pat.len()) =~= t.subrange(j, j + pat.len()));
            }
        }
        assert forall|j: int| n <= j implies !#[trigger] occurs_at(s, pat, j) by {}
        match rfind(t, pat) {
            Some(i) => {
                assert(occurs_at(s, pat, i));
                assert forall|j: int| i < j implies !#[trigger] occurs_at(s, pat, j) by {
                    if j < n {
                        assert(!occurs_at(t, pat, j));
                    }
                }
            },
            None => {
                assert forall|j: int| !#[trigger] occurs_at(s, pat, j) by {
                    if j < n {
                        assert(!occurs_at(t, pat, j));
                    }
                }
            },
        }
    }
}

pub proof fn lemma_rfind_is(s: Seq<char>, pat: Seq<char>, i: int)
    requires
        occurs_at(s, pat, i),
        forall|j: int| i < j ==> !#[trigger] occurs_at(s, pat, j),
    ensures
        rfind(s, pat) == Some(i),
{
    lemma_rfind(s, pat);
    let k = rfind(s, pat).unwrap();
    if i < k {
        assert(!occurs_at(s, pat, k));
    }
    if k < i {
        assert(!occurs_at(s, pat, i));
    }
}

/// Whether `pat` stands at position `i`.
pub fn at(chars: &Vec<char>, pat: &Vec<char>, i: usize) -> (r: bool)
    requires
        i <= chars@.len(),
    ensures
        r == occurs_at(chars@, pat@, i as int),
{
    if pat.len() > chars.len() - i {
        return false;
    }
    let mut k: usize = 0;
    while k < pat.len()
        invariant
            k <= pat@.len(),
            i + pat@.len() <= chars.len(),
            forall|j: int| 0 <= j < k ==> chars@[i + j] == #[trigger] pat@[j],
        decreases pat@.len() - k,
    {
        if chars[i + k] != pat[k] {
            proof {
                assert(chars@.subrange(i as int, i + pat@.len())[k as int] == chars@[i + k]);
            }
            return false;
        }
        k += 1;
    }
    assert(chars@.subrange(i as int, i + pat@.len()) =~= pat@);
    true
}

/// The first position from `from` on at which `pat` stands.
pub fn find_from(chars: &Vec<char>, pat: &str, from: usize) -> (r: Option<usize>)
    requires
        from <= chars@.len(),
    ensures
        match r {
            Some(i) => from <= i && i + pat@.len() <= chars.len() && find(
                chars@.skip(from as int),
                pat@,
            ) == Some(i - from),
            None => find(chars@.skip(from as int), pat@) is None,
        },
{
    let needle = chars_of(pat);
    let mut i: usize = from;
    let ghost t = chars@.skip(from as int);
    loop
        invariant
            needle@ == pat@,
            from <= i <= chars@.len(),
            t == chars@.skip(from as int),
            forall|j: int| 0 <= j < i - from ==> !#[trigger] occurs_at(t, pat@, j),
        decreases chars@.len() - i,
    {
        proof {
            lemma_occurs_shift(chars@, pat@, from as int, i - from);
        }
        if at(chars, &needle, i) {
            proof {
                lemma_find_is(t, pat@, i - from);
            }
            return Some(i);
        }
        if i == chars.len() {
            proof {
                lemma_find(t, pat@);
                if let Some(k) = find(t, pat@) {
                    assert(!occurs_at(t, pat@, k));
                }
            }
            return None;
        }
        i += 1;
    }
}

/// The last position before `to` at which `pat` stands whole.
pub fn rfind_before(chars: &Vec<char>, pat: &str, to: usize) -> (r: Option<usize>)
    requires
        to <= chars@.len(),
    ensures
        match r {
            Some(i) => i + pat@.len() <= to && rfind(chars@.take(to as int), pat@) == Some(
                i as int,
            ),
            None => rfind(chars@.take(to as int), pat@) is None,
        },
{
    let needle = chars_of(pat);
    let ghost t = chars@.take(to as int);
    if needle.len() > to {
        proof {
            lemma_rfind(t, pat@);
        }
        return None;
    }
    let mut i: usize = to - needle.len();
    loop
        invariant
            needle@ == pat@,
            t == chars@.take(to as int),
            to <= chars@.len(),
            i + pat@.len() <= to,
            forall|j: int| i < j ==> !#[trigger] occurs_at(t, pat@, j),
        decreases i,
    {
        assert(chars@.subrange(i as int, i + pat@.len()) =~= t.subrange(
            i as int,
            i + pat@.len(),
        ));
        if at(chars, &needle, i) {
            proof {
                lemma_rfind_is(t, pat@, i as int);
            }
            return Some(i);
        }
        if i == 0 {
            proof {
                lemma_rfind(t, pat@);
                if let Some(k) = rfind(t, pat@) {
                    assert(!occurs_at(t, pat@, k));
                }
            }
            return None;
        }
        i -= 1;
    }
}

/// The first position of `pat` in `s`.
pub fn find_in(s: &str, pat: &str) -> (r: Option<usize>)
    ensures
        match r {
            Some(i) => i + pat@.len() <= s@.len() && find(s@, pat@) == Some(i as int),
            None => find(s@, pat@) is None,
        },
        s@.len() <= usize::MAX,
{
    let chars = chars_of(s);
    let total: usize = chars.len();
    assert(s@.len() == total);
    assert(chars@.skip(0) =~= s@);
    find_from(&chars, pat, 0)
}

/// Whether `pat` stands anywhere in `s`.
pub fn has_text(s: &str, pat: &str) -> (r: bool)
    ensures
        r == holds_text(s@, pat@),
{
    find_in(s, pat).is_some()
}

/// Whether `s` begins with `pat`.
pub fn starts(s: &str, pat: &str) -> (r: bool)
    ensures
        r == begins(s@, pat@),
{
    at(&chars_of(s), &chars_of(pat), 0)
}

/// Whether `s` ends with `pat`.
pub fn finishes(s: &str, pat: &str) -> (r: bool)
    ensures
        r == ends(s@, pat@),
{
    let chars = chars_of(s);
    let needle = chars_of(pat);
    if needle.len() > chars.len() {
        return false;
    }
    at(&chars, &needle, chars.len() - needle.len())
}

/// The part of `s` from position `from` up to `to`.
pub fn slice(s: &str, from: usize, to: usize) -> (r: String)
    requires
        from <= to <= s@.len(),
    ensures
        r@ == s@.subrange(from as int, to as int),
{
    string_of(&chars_of(s), from, to)
}

/// What follows the first `from` characters.
pub fn after(s: &str, from: usize) -> (r: String)
    requires
        from <= s@.len(),
    ensures
        r@ == s@.skip(from as int),
{
    let chars = chars_of(s);
    assert(chars@.subrange(from as int, chars@.len() as int) =~= s@.skip(from as int));
    string_of(&chars, from, chars.len())
}

/// The first `to` characters.
pub fn before(s: &str, to: usize) -> (r: String)
    requires
        to <= s@.len(),
    ensures
        r@ == s@.take(to as int),
{
    let chars = chars_of(s);
    assert(chars@.subrange(0, to as int) =~= s@.take(to as int));
    string_of(&chars, 0, to)
}

/// `s` without the prefix `pat`, where it begins with it.
pub open spec fn without_prefix(s: Seq<char>, pat: Seq<char>) -> Option<Seq<char>> {
    if begins(s, pat) {
        Some(s.skip(pat.len() as int))
    } else {
        None
    }
}

/// `s` without the prefix `pat`, where it begins with it.
pub fn strip_prefix_of(s: &str, pat: &str) -> (r: Option<String>)
    ensures
        match r {
            Some(t) => without_prefix(s@, pat@) == Some(t@),
            None => without_prefix(s@, pat@) is None,
        },
{
    let chars = chars_of(s);
    let needle = chars_of(pat);
    if at(&chars, &needle, 0) {
        Some(after(s, needle.len()))
    } else {
        None
    }
}

// ---------------------------------------------------------------------------
// Splitting and joining
// ---------------------------------------------------------------------------

/// The words of `s`: its maximal runs without white space.
pub open spec fn words(s: Seq<char>) -> Seq<Seq<char>>
    decreases s.len(),
{
    let t = trim_start(s, CharClass::White);
    let n = run_len(t, CharClass::Ink) as int;
    if 0 < n <= t.len() <= s.len() {
        seq![t.take(n)] + words(t.skip(n))
    } else {
        seq![]
    }
}

/// The lines of `s`: ended by a line feed, or by a carriage return and a line
/// feed, neither of which belongs to the line. The last line needs no ending.
pub open spec fn lines(s: Seq<char>) -> Seq<Seq<char>>
    decreases s.len(),
{
    if s.len() == 0 {
        seq![]
    } else {
        match find(s, "\n"@) {
            Some(n) => if 0 <= n < s.len() {
                seq![without_return(s.take(n))] + lines(s.skip(n + 1))
            } else {
                seq![s]
            },
            None => seq![s],
        }
    }
}

/// `line` without one carriage return at its end.
pub open spec fn without_return(line: Seq<char>) -> Seq<char> {
    if line.len() > 0 && line.last() == '\r' {
        line.drop_last()
    } else {
        line
    }
}

/// The pieces of `s` between the occurrences of `sep`.
pub open spec fn pieces(s: Seq<char>, sep: char) -> Seq<Seq<char>>
    decreases s.len(),
{
    let n = run_len(s, CharClass::Not(sep)) as int;
    if 0 <= n < s.len() {
        seq![s.take(n)] + pieces(s.skip(n + 1), sep)
    } else {
        seq![s]
    }
}

/// `parts` one after the other with `sep` between them.
pub open spec fn joined(parts: Seq<Seq<char>>, sep: Seq<char>) -> Seq<char>
    decreases parts.len(),
{
    if parts.len() == 0 {
        seq![]
    } else if parts.len() == 1 {
        parts[0]
    } else {
        joined(parts.drop_last(), sep) + sep + parts.last()
    }
}

/// Joining from the front: without a separator, the first part comes first.
pub proof fn lemma_joined_first(first: Seq<char>, rest: Seq<Seq<char>>)
    ensures
        joined(seq![first] + rest, seq![]) == first + joined(rest, seq![]),
    decreases rest.len(),
{
    let all = seq![first] + rest;
    if rest.len() == 0 {
        assert(all =~= seq![first]);
        assert(first + joined(rest, seq![]) =~= first);
    } else {
        lemma_joined_first(first, rest.drop_last());
        assert(all.drop_last() =~= seq![first] + rest.drop_last());
        let head = joined(rest.drop_last(), seq![]);
        if rest.len() == 1 {
            assert(rest[0] == rest.last());
            assert(first + head + seq![] + rest.last() =~= first + rest[0]);
        } else {
            assert(first + head + seq![] + rest.last() =~= first + (head + seq![] + rest.last()));
        }
    }
}

/// `n` times the character `c`.
pub open spec fn repeated(c: char, n: nat) -> Seq<char> {
    Seq::new(n, |i: int| c)
}

/// At most the first `n` characters of `s`.
pub open spec fn at_most(s: Seq<char>, n: int) -> Seq<char> {
    if s.len() <= n {
        s
    } else {
        s.take(n)
    }
}

/// The words of `s`: its maximal runs without white space.
pub fn split_words(s: &str) -> (r: Vec<String>)
    ensures
        texts(r@) == words(s@),
{
    let chars = chars_of(s);
    let mut out: Vec<String> = Vec::new();
    let mut i: usize = 0;
    assert(chars@.skip(0) =~= s@);
    assert(texts(out@) + words(s@) =~= words(s@));
    loop
        invariant
            i <= chars@.len(),
            chars@ == s@,
            texts(out@) + words(chars@.skip(i as int)) == words(s@),
        decreases chars@.len() - i,
    {
        let ghost rest = chars@.skip(i as int);
        let ghost t = trim_start(rest, CharClass::White);
        let start: usize = i + run_from(&chars, i, CharClass::White);
        assert(t =~= chars@.skip(start as int));
        let n: usize = run_from(&chars, start, CharClass::Ink);
        if n == 0 {
            assert(words(rest) =~= seq![]);
            assert(texts(out@) =~= words(s@));
            return out;
        }
        let ghost before = texts(out@);
        out.push(string_of(&chars, start, start + n));
        proof {
            assert(chars@.subrange(start as int, start + n) =~= t.take(n as int));
            assert(texts(out@) =~= before + seq![t.take(n as int)]);
            assert(t.skip(n as int) =~= chars@.skip(start + n));
            assert(texts(out@) + words(chars@.skip(start + n)) =~= before + words(rest));
        }
        i = start + n;
    }
}

/// The lines of `s`, without their endings.
pub fn split_lines(s: &str) -> (r: Vec<String>)
    ensures
        texts(r@) == lines(s@),
{
    let chars = chars_of(s);
    let mut out: Vec<String> = Vec::new();
    let mut i: usize = 0;
    assert(chars@.skip(0) =~= s@);
    assert(texts(out@) + lines(s@) =~= lines(s@));
    proof {
        reveal_strlit("\n");
    }
    while i < chars.len()
        invariant
            i <= chars@.len(),
            chars@ == s@,
            "\n"@.len() == 1,
            texts(out@) + lines(chars@.skip(i as int)) == lines(s@),
        decreases chars@.len() - i,
    {
        let ghost rest = chars@.skip(i as int);
        let ghost before = texts(out@);
        match find_from(&chars, "\n", i) {
            Some(end) => {
                let stop: usize = if end > i && chars[end - 1] == '\r' {
                    end - 1
                } else {
                    end
                };
                out.push(string_of(&chars, i, stop));
                proof {
                    let n = end - i;
                    assert(rest.take(n) =~= chars@.subrange(i as int, end as int));
                    assert(chars@.subrange(i as int, stop as int) =~= without_return(rest.take(n)));
                    assert(rest.skip(n + 1) =~= chars@.skip(end + 1));
                    assert(texts(out@) =~= before + seq![without_return(rest.take(n))]);
                    assert(texts(out@) + lines(chars@.skip(end + 1)) =~= before + lines(rest));
                }
                i = end + 1;
            },
            None => {
                out.push(string_of(&chars, i, chars.len()));
                proof {
                    assert(chars@.subrange(i as int, chars@.len() as int) =~= rest);
                    assert(lines(rest) =~= seq![rest]);
                    assert(texts(out@) =~= before + seq![rest]);
                }
                return out;
            },
        }
    }
    proof {
        assert(chars@.skip(i as int) =~= seq![]);
        assert(lines(chars@.skip(i as int)) =~= seq![]);
        assert(texts(out@) =~= lines(s@));
    }
    out
}

/// The pieces of `s` between the occurrences of `sep`.
pub fn split_char(s: &str, sep: char) -> (r: Vec<String>)
    ensures
        texts(r@) == pieces(s@, sep),
{
    let chars = chars_of(s);
    let mut out: Vec<String> = Vec::new();
    let mut i: usize = 0;
    assert(chars@.skip(0) =~= s@);
    assert(texts(out@) + pieces(s@, sep) =~= pieces(s@, sep));
    loop
        invariant
            i <= chars@.len(),
            chars@ == s@,
            texts(out@) + pieces(chars@.skip(i as int), sep) == pieces(s@, sep),
        decreases chars@.len() - i,
    {
        let ghost rest = chars@.skip(i as int);
        let ghost before = texts(out@);
        let n: usize = run_from(&chars, i, CharClass::Not(sep));
        out.push(string_of(&chars, i, i + n));
        assert(chars@.subrange(i as int, i + n) =~= rest.take(n as int));
        assert(texts(out@) =~= before + seq![rest.take(n as int)]);
        if i + n == chars.len() {
            assert(rest.take(n as int) =~= rest);
            assert(pieces(rest, sep) =~= seq![rest]);
            return out;
        }
        assert(rest.skip(n + 1) =~= chars@.skip(i + n + 1));
        assert(texts(out@) + pieces(chars@.skip(i + n + 1), sep) =~= before + pieces(rest, sep));
        i = i + n + 1;
    }
}

/// `parts` one after the other with `sep` between them.
pub fn join(parts: &Vec<String>, sep: &str) -> (r: String)
    ensures
        r@ == joined(texts(parts@), sep@),
{
    let mut out = String::new();
    let mut i: usize = 0;
    while i < parts.len()
        invariant
            i <= parts@.len(),
            out@ == joined(texts(parts@).take(i as int), sep@),
        decreases parts@.len() - i,
    {
        let ghost all = texts(parts@);
        proof {
            assert(all.take(i + 1).drop_last() =~= all.take(i as int));
            assert(all.take(i + 1).last() == all[i as int]);
        }
        if i > 0 {
            out.append(sep);
        }
        out.append(parts[i].as_str());
        proof {
            if i == 0 {
                assert(out@ =~= all[0]);
            }
        }
        i += 1;
    }
    assert(texts(parts@).take(parts@.len() as int) =~= texts(parts@));
    out
}

/// `n` times the character `c`.
pub fn repeat(c: char, n: usize) -> (r: String)
    ensures
        r@ == repeated(c, n as nat),
{
    let mut out = String::new();
    let mut i: usize = 0;
    assert(out@ =~= repeated(c, 0));
    while i < n
        invariant
            i <= n,
            out@ == repeated(c, i as nat),
        decreases n - i,
    {
        out.push(c);
        assert(repeated(c, i as nat).push(c) =~= repeated(c, (i + 1) as nat));
        i += 1;
    }
    out
}

/// At most the first `n` characters of `s`.
pub fn first_chars(s: &str, n: usize) -> (r: String)
    ensures
        r@ == at_most(s@, n as int),
{
    let chars = chars_of(s);
    if chars.len() <= n {
        s.to_owned()
    } else {
        before(s, n)
    }
}

/// How many characters `s` has.
pub fn char_count(s: &str) -> (r: usize)
    ensures
        r == s@.len(),
{
    chars_of(s).len()
}

/// Copies of the strings of a list.
pub fn copies(list: &Vec<String>) -> (r: Vec<String>)
    ensures
        r@ == list@,
{
    let mut out: Vec<String> = Vec::new();
    let mut i: usize = 0;
    while i < list.len()
        invariant
            i <= list@.len(),
            out@ == list@.take(i as int),
        decreases list@.len() - i,
    {
        out.push(list[i].clone());
        assert(list@.take(i as int).push(list@[i as int]) =~= list@.take(i + 1));
        i += 1;
    }
    assert(list@.take(list@.len() as int) =~= list@);
    out
}

/// A copy of an optional string.
pub fn copy_opt(s: &Option<String>) -> (r: Option<String>)
    ensures
        r == *s,
{
    match s {
        Some(t) => Some(t.clone()),
        None => None,
    }
}

// ---------------------------------------------------------------------------
// Numbers
// ---------------------------------------------------------------------------

/// The decimal digit of a value below ten.
pub open spec fn digit(d: nat) -> char {
    (('0' as nat) + d) as char
}

/// The decimal notation of `n`, without leading zeros.
pub open spec fn decimal(n: nat) -> Seq<char>
    decreases n,
{
    if n < 10 {
        seq![digit(n)]
    } else {
        decimal(n / 10).push(digit(n % 10))
    }
}

/// The decimal notation of a signed number.
pub open spec fn signed_decimal(n: int) -> Seq<char> {
    if n < 0 {
        seq!['-'] + decimal((-n) as nat)
    } else {
        decimal(n as nat)
    }
}

fn digit_char(d: u64) -> (r: char)
    requires
        d < 10,
    ensures
        r == digit(d as nat),
{
    (48u8 + d as u8) as char
}

/// The decimal notation of `n`.
pub fn number(n: u64) -> (r: String)
    ensures
        r@ == decimal(n as nat),
    decreases n,
{
    if n < 10 {
        let mut out = String::new();
        out.push(digit_char(n));
        assert(out@ =~= decimal(n as nat));
        out
    } else {
        let mut out = number(n / 10);
        out.push(digit_char(n % 10));
        out
    }
}

/// The decimal notation of `n`.
pub fn size_number(n: usize) -> (r: String)
    ensures
        r@ == decimal(n as nat),
{
    number(n as u64)
}

/// The decimal notation of a signed number.
pub fn signed_number(n: i32) -> (r: String)
    ensures
        r@ == signed_decimal(n as int),
{
    let wide: i64 = n as i64;
    if wide < 0 {
        let mut out = String::new();
        out.push('-');
        out.append(number((-wide) as u64).as_str());
        assert(out@ =~= signed_decimal(n as int));
        out
    } else {
        number(wide as u64)
    }
}

// ---------------------------------------------------------------------------
// Bytes
// ---------------------------------------------------------------------------

/// How many bytes the UTF-8 encoding of `s` has.
pub open spec fn byte_len(s: Seq<char>) -> nat {
    encode_utf8(s).len()
}

/// How many bytes the UTF-8 encoding of `s` has.
pub fn byte_count(s: &str) -> (r: usize)
    ensures
        r == byte_len(s@),
{
    s.as_bytes().len()
}

// ---------------------------------------------------------------------------
// Laws
// ---------------------------------------------------------------------------

/// The white characters are those of Unicode.
pub proof fn law_white_characters(c: char)
    ensures
        is_white(c) <==> c == '\t' || c == '\n' || c == '\u{b}' || c == '\u{c}' || c == '\r' || c
            == ' ' || c == '\u{85}' || c == '\u{a0}' || c == '\u{1680}' || ('\u{2000}' <= c
            <= '\u{200a}') || c == '\u{2028}' || c == '\u{2029}' || c == '\u{202f}' || c
            == '\u{205f}' || c == '\u{3000}',
        CharClass::White.has(c) <==> is_white(c),
        CharClass::Ink.has(c) <==> !is_white(c),
        CharClass::Digit.has(c) <==> '0' <= c <= '9',
        CharClass::Alpha.has(c) <==> 'a' <= c <= 'z' || 'A' <= c <= 'Z',
        forall|x: char| #[trigger] CharClass::Is(x).has(c) <==> c == x,
        forall|x: char| #[trigger] CharClass::Not(x).has(c) <==> c != x,
{
}

/// Trimming takes the white characters from both ends and nothing else.
pub proof fn law_trimming_takes_the_ends(head: Seq<char>, body: Seq<char>, rest: Seq<char>)
    requires
        forall|i: int| 0 <= i < head.len() ==> is_white(#[trigger] head[i]),
        forall|i: int| 0 <= i < rest.len() ==> is_white(#[trigger] rest[i]),
        body.len() > 0 ==> !is_white(body[0]) && !is_white(body.last()),
    ensures
        trimmed(head + body + rest) == body,
{
    let s = head + body + rest;
    let white = CharClass::White;
    if body.len() > 0 {
        let n = head.len() as int;
        assert forall|i: int| 0 <= i < n implies white.has(#[trigger] s[i]) by {
            assert(s[i] == head[i]);
        }
        assert(s[n] == body[0]);
        lemma_run_len_is(s, white, n);
        let t = s.skip(n);
        assert(t =~= body + rest);
        assert forall|i: int| body.len() <= i < t.len() implies white.has(#[trigger] t[i]) by {
            assert(t[i] == rest[i - body.len()]);
        }
        assert(t[body.len() - 1] == body.last());
        lemma_trim_end_is(t, white, body.len() as int);
        assert(t.take(body.len() as int) =~= body);
    } else {
        assert forall|i: int| 0 <= i < s.len() implies white.has(#[trigger] s[i]) by {
            if i < head.len() {
                assert(s[i] == head[i]);
            } else {
                assert(s[i] == rest[i - head.len()]);
            }
        }
        lemma_run_len_is(s, white, s.len() as int);
        assert(trim_start(s, white) =~= seq![]);
        lemma_trim_end(trim_start(s, white), white);
        assert(trimmed(s) =~= body);
    }
}

/// Trimming what is trimmed changes nothing.
pub proof fn law_trimming_twice_is_trimming_once(s: Seq<char>)
    ensures
        trimmed(trimmed(s)) == trimmed(s),
{
    let t = trimmed(s);
    let white = CharClass::White;
    lemma_run_len(s, white);
    let u = trim_start(s, white);
    lemma_trim_end(u, white);
    if t.len() > 0 {
        assert(t[0] == u[0]);
        lemma_run_len_is(t, white, 0);
        assert(t.skip(0) =~= t);
        lemma_trim_end_is(t, white, t.len() as int);
        assert(t.take(t.len() as int) =~= t);
    } else {
        lemma_run_len(t, white);
        lemma_trim_end(trim_start(t, white), white);
        assert(trimmed(t) =~= t);
    }
}

/// A text is found where it first stands, and a prefix is taken off whole.
pub proof fn law_texts_are_found(head: Seq<char>, pat: Seq<char>, rest: Seq<char>)
    ensures
        holds_text(head + pat + rest, pat),
        find(head + pat + rest, pat) matches Some(i) && 0 <= i <= head.len(),
        begins(pat + rest, pat),
        ends(head + pat, pat),
        without_prefix(pat + rest, pat) == Some(rest),
        find(pat + rest, pat) == Some(0int),
{
    let s = head + pat + rest;
    lemma_find(s, pat);
    assert(s.subrange(head.len() as int, (head.len() + pat.len()) as int) =~= pat);
    assert(occurs_at(s, pat, head.len() as int));
    let t = pat + rest;
    assert(t.subrange(0, pat.len() as int) =~= pat);
    assert(t.skip(pat.len() as int) =~= rest);
    let u = head + pat;
    assert(u.subrange(u.len() - pat.len(), u.len() as int) =~= pat);
    lemma_find_is(t, pat, 0);
}

proof fn lemma_words_behind_blank(c: char, rest: Seq<char>)
    requires
        is_white(c),
    ensures
        words(seq![c] + rest) == words(rest),
{
    let s = seq![c] + rest;
    lemma_run_len(rest, CharClass::White);
    let n = run_len(rest, CharClass::White) as int;
    assert forall|i: int| 0 <= i < n + 1 implies CharClass::White.has(#[trigger] s[i]) by {
        if i > 0 {
            assert(s[i] == rest[i - 1]);
            assert(CharClass::White.has(rest[i - 1]));
        }
    }
    if n < rest.len() {
        assert(s[n + 1] == rest[n]);
    }
    lemma_run_len_is(s, CharClass::White, n + 1);
    let t = trim_start(rest, CharClass::White);
    assert(s.skip(n + 1) =~= t);
}

/// Words are the stretches between white characters, in order.
pub proof fn law_words_stand_between_blanks(word: Seq<char>, c: char, rest: Seq<char>)
    requires
        word.len() > 0,
        forall|i: int| 0 <= i < word.len() ==> !is_white(#[trigger] word[i]),
        is_white(c),
    ensures
        words(seq![]).len() == 0,
        words(word) == seq![word],
        words(word + seq![c] + rest) == seq![word] + words(rest),
        words(seq![c] + rest) == words(rest),
{
    lemma_words_behind_blank(c, rest);
    let none: Seq<char> = seq![];
    lemma_run_len(none, CharClass::White);
    lemma_run_len(none.skip(run_len(none, CharClass::White) as int), CharClass::Ink);
    assert(words(none) =~= seq![]);
    lemma_run_len_is(word, CharClass::White, 0);
    assert(word.skip(0) =~= word);
    lemma_run_len_is(word, CharClass::Ink, word.len() as int);
    assert(word.take(word.len() as int) =~= word);
    assert(word.skip(word.len() as int) =~= none);
    assert(words(word) =~= seq![word]);
    let s = word + seq![c] + rest;
    assert(s[0] == word[0]);
    lemma_run_len_is(s, CharClass::White, 0);
    assert(s.skip(0) =~= s);
    assert forall|i: int| 0 <= i < word.len() implies CharClass::Ink.has(#[trigger] s[i]) by {
        assert(s[i] == word[i]);
    }
    assert(s[word.len() as int] == c);
    lemma_run_len_is(s, CharClass::Ink, word.len() as int);
    assert(s.take(word.len() as int) =~= word);
    assert(s.skip(word.len() as int) =~= seq![c] + rest);
}

/// Lines are the stretches between line ends, in order, each without a carriage return at its
/// end; a line end at the end of the text begins no line.
pub proof fn law_lines_stand_between_line_ends(line: Seq<char>, rest: Seq<char>)
    requires
        forall|i: int| 0 <= i < line.len() ==> #[trigger] line[i] != '\n',
        line.len() > 0 ==> line.last() != '\r',
    ensures
        lines(seq![]).len() == 0,
        line.len() > 0 ==> lines(line) == seq![line],
        lines(line + "\n"@ + rest) == seq![line] + lines(rest),
        lines(line + "\r\n"@ + rest) == seq![line] + lines(rest),
{
    reveal_strlit("\n");
    reveal_strlit("\r\n");
    lemma_find(line, "\n"@);
    if let Some(i) = find(line, "\n"@) {
        assert(line.subrange(i, i + 1)[0] == line[i]);
    }
    lemma_first_line(line, rest);
    let longer = line.push('\r');
    assert forall|i: int| 0 <= i < longer.len() implies #[trigger] longer[i] != '\n' by {
        if i < line.len() {
            assert(longer[i] == line[i]);
        }
    }
    lemma_first_line(longer, rest);
    assert(longer + "\n"@ + rest =~= line + "\r\n"@ + rest);
    assert(longer.drop_last() =~= line);
}

proof fn lemma_first_line(line: Seq<char>, rest: Seq<char>)
    requires
        forall|i: int| 0 <= i < line.len() ==> #[trigger] line[i] != '\n',
    ensures
        lines(line + "\n"@ + rest) == seq![without_return(line)] + lines(rest),
{
    reveal_strlit("\n");
    let s = line + "\n"@ + rest;
    let n = line.len() as int;
    assert(s.subrange(n, n + 1) =~= "\n"@);
    assert forall|j: int| 0 <= j < n implies !#[trigger] occurs_at(s, "\n"@, j) by {
        assert(s.subrange(j, j + 1)[0] == line[j]);
    }
    lemma_find_is(s, "\n"@, n);
    assert(s.take(n) =~= line);
    assert(s.skip(n + 1) =~= rest);
}

/// Pieces are the stretches between separators, in order, and there is always one.
pub proof fn law_pieces_stand_between_separators(piece: Seq<char>, sep: char, rest: Seq<char>)
    requires
        forall|i: int| 0 <= i < piece.len() ==> #[trigger] piece[i] != sep,
    ensures
        pieces(piece, sep) == seq![piece],
        pieces(piece.push(sep) + rest, sep) == seq![piece] + pieces(rest, sep),
{
    let class = CharClass::Not(sep);
    let n = piece.len() as int;
    lemma_run_len_is(piece, class, n);
    let s = piece.push(sep) + rest;
    assert forall|i: int| 0 <= i < n implies class.has(#[trigger] s[i]) by {
        assert(s[i] == piece[i]);
    }
    assert(s[n] == sep);
    lemma_run_len_is(s, class, n);
    assert(s.take(n) =~= piece);
    assert(s.skip(n + 1) =~= rest);
}

/// Parts are joined whole and in order, with the separator between each two.
pub proof fn law_parts_are_joined(parts: Seq<Seq<char>>, last: Seq<char>, sep: Seq<char>)
    ensures
        joined(seq![], sep).len() == 0,
        joined(seq![last], sep) == last,
        parts.len() > 0 ==> joined(parts.push(last), sep) == joined(parts, sep) + sep + last,
{
    assert(parts.push(last).drop_last() =~= parts);
}

/// What is joined with a separator that no part holds is cut into the same parts by it.
pub proof fn law_joining_and_cutting(parts: Seq<Seq<char>>, sep: char)
    requires
        parts.len() > 0,
        forall|i: int, j: int|
            0 <= i < parts.len() && 0 <= j < parts[i].len() ==> #[trigger] parts[i][j] != sep,
    ensures
        pieces(joined(parts, seq![sep]), sep) == parts,
    decreases parts.len(),
{
    if parts.len() == 1 {
        assert forall|i: int| 0 <= i < parts[0].len() implies #[trigger] parts[0][i] != sep by {}
        law_pieces_stand_between_separators(parts[0], sep, seq![]);
        assert(parts =~= seq![parts[0]]);
    } else {
        let rest = parts.skip(1);
        assert forall|i: int, j: int|
            0 <= i < rest.len() && 0 <= j < rest[i].len() implies #[trigger] rest[i][j] != sep by {
            assert(rest[i] == parts[i + 1]);
            assert(parts[i + 1][j] != sep);
        }
        law_joining_and_cutting(rest, sep);
        lemma_joined_from_first(parts, seq![sep]);
        assert forall|i: int| 0 <= i < parts[0].len() implies #[trigger] parts[0][i] != sep by {}
        law_pieces_stand_between_separators(parts[0], sep, joined(rest, seq![sep]));
        assert(parts[0].push(sep) + joined(rest, seq![sep]) =~= parts[0] + seq![sep] + joined(
            rest,
            seq![sep],
        ));
        assert(seq![parts[0]] + rest =~= parts);
    }
}

proof fn lemma_joined_from_first(parts: Seq<Seq<char>>, sep: Seq<char>)
    requires
        parts.len() > 1,
    ensures
        joined(parts, sep) == parts[0] + sep + joined(parts.skip(1), sep),
    decreases parts.len(),
{
    let rest = parts.skip(1);
    if parts.len() == 2 {
        assert(parts.drop_last() =~= seq![parts[0]]);
        assert(rest =~= seq![parts[1]]);
        assert(joined(parts.drop_last(), sep) == parts[0]);
        assert(joined(rest, sep) == parts.last());
    } else {
        lemma_joined_from_first(parts.drop_last(), sep);
        assert(parts.drop_last().skip(1) =~= rest.drop_last());
        assert(rest.last() == parts.last());
        let mid = joined(rest.drop_last(), sep);
        assert(parts[0] + sep + mid + sep + parts.last() =~= parts[0] + sep + (mid + sep
            + parts.last()));
    }
}

/// A number is written in its decimal digits, a negative one behind a minus sign.
pub proof fn law_numbers_are_written_in_digits(n: nat, d: nat)
    requires
        d < 10,
        n > 0,
    ensures
        decimal(d) == seq![('0' as nat + d) as char],
        decimal(n * 10 + d) == decimal(n).push(('0' as nat + d) as char),
        signed_decimal(n as int) == decimal(n),
        signed_decimal(-(n as int)) == seq!['-'] + decimal(n),
{
    assert((n * 10 + d) / 10 == n);
    assert((n * 10 + d) % 10 == d);
}

/// A text is cut to its beginning where it is too long, and a character is repeated as often as
/// is asked.
pub proof fn law_texts_are_cut_and_repeated(s: Seq<char>, c: char, n: nat)
    ensures
        s.len() <= n ==> at_most(s, n as int) == s,
        s.len() > n ==> at_most(s, n as int) == s.take(n as int),
        repeated(c, n).len() == n,
        forall|i: int| 0 <= i < n ==> #[trigger] repeated(c, n)[i] == c,
{
}

/// A text begins, or ends, with another just where their characters agree there.
pub proof fn law_beginnings_and_ends_agree(s: Seq<char>, pat: Seq<char>)
    ensures
        begins(s, pat) <==> pat.len() <= s.len() && forall|i: int|
            0 <= i < pat.len() ==> s[i] == #[trigger] pat[i],
        ends(s, pat) <==> pat.len() <= s.len() && forall|i: int|
            0 <= i < pat.len() ==> s[s.len() - pat.len() + i] == #[trigger] pat[i],
        without_prefix(s, pat) is Some <==> begins(s, pat),
{
    if pat.len() <= s.len() {
        let head = s.subrange(0, pat.len() as int);
        let tail = s.subrange(s.len() - pat.len(), s.len() as int);
        assert forall|i: int| 0 <= i < pat.len() implies head[i] == s[i] && tail[i] == s[s.len()
            - pat.len() + i] by {}
        if forall|i: int| 0 <= i < pat.len() ==> s[i] == #[trigger] pat[i] {
            assert(head =~= pat);
        }
        if forall|i: int| 0 <= i < pat.len() ==> s[s.len() - pat.len() + i] == #[trigger] pat[i] {
            assert(tail =~= pat);
        }
    }
}

/// The first and the last place of a text are the ones before and behind which it does not stand.
pub proof fn law_first_and_last_places_are_found(s: Seq<char>, pat: Seq<char>, i: int, j: int)
    requires
        0 <= j,
        j + pat.len() <= s.len(),
        s.subrange(j, j + pat.len()) == pat,
    ensures
        holds_text(s, pat),
        find(s, pat) == Some(i) ==> 0 <= i <= j && s.subrange(i, i + pat.len()) == pat,
        rfind(s, pat) == Some(i) ==> j <= i && i + pat.len() <= s.len() && s.subrange(
            i,
            i + pat.len(),
        ) == pat,
        rfind(s, pat) is Some,
{
    lemma_find(s, pat);
    lemma_rfind(s, pat);
    assert(occurs_at(s, pat, j));
}

/// A list of strings is seen string by string.
pub proof fn law_lists_are_seen_text_by_text(list: Seq<String>, i: int)
    requires
        0 <= i < list.len(),
    ensures
        texts(list).len() == list.len(),
        texts(list)[i] == list[i]@,
{
}

}
