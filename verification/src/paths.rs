//! File paths as text, in the syntax with `/` between components.
//!
//! Repeated separators, a separator at the end and components that are a single
//! dot carry no meaning, except for a dot at the very start of a relative path.
use crate::text::{
    after, before, char_count, chars_of, lemma_run_len, pieces, rfind, rfind_before, run_from,
    run_len, same, split_char, starts, string_of, texts, CharClass,
};
use vstd::prelude::*;
use vstd::string::*;

verus! {

broadcast use {vstd::seq::group_seq_axioms, vstd::string::group_string_axioms};

// ---------------------------------------------------------------------------
// Absolute paths and joining
// ---------------------------------------------------------------------------

/// Whether a path starts at the root.
pub open spec fn is_absolute_path(p: Seq<char>) -> bool {
    p.len() > 0 && p[0] == '/'
}

/// `p` as seen from `base`: `p` itself where it is absolute, else `base`, a
/// separator unless `base` is empty or ends in one, and `p`.
pub open spec fn joined_path(base: Seq<char>, p: Seq<char>) -> Seq<char> {
    if is_absolute_path(p) {
        p
    } else if base.len() > 0 && base.last() != '/' {
        base + "/"@ + p
    } else {
        base + p
    }
}

/// Whether a path starts at the root.
pub fn is_absolute(p: &str) -> (r: bool)
    ensures
        r == is_absolute_path(p@),
{
    let chars = chars_of(p);
    chars.len() > 0 && chars[0] == '/'
}

/// `p` as seen from `base`.
pub fn join_path(base: &str, p: &str) -> (r: String)
    ensures
        r@ == joined_path(base@, p@),
{
    if is_absolute(p) {
        return p.to_owned();
    }
    let chars = chars_of(base);
    let mut out = base.to_owned();
    if chars.len() > 0 && chars[chars.len() - 1] != '/' {
        out.append("/");
    }
    out.append(p);
    out
}

// ---------------------------------------------------------------------------
// The last component
// ---------------------------------------------------------------------------

/// Whether a relative path starts with a component that is a single dot.
pub open spec fn leads_with_dot(p: Seq<char>) -> bool {
    p.len() > 0 && p[0] == '.' && (p.len() == 1 || p[1] == '/')
}

/// Where the components behind the root or the leading dot begin.
pub open spec fn body_start(p: Seq<char>) -> int {
    if is_absolute_path(p) || leads_with_dot(p) {
        1
    } else {
        0
    }
}

/// Whether a piece between separators is a component.
pub open spec fn is_component(piece: Seq<char>) -> bool {
    piece.len() > 0 && piece != "."@
}

/// How long the last piece of `p` is, of what stands behind `n`.
pub open spec fn tail_len(p: Seq<char>, n: int) -> nat
    decreases p.len(),
{
    if p.len() > n && p.len() > 0 && p.last() != '/' {
        1 + tail_len(p.drop_last(), n)
    } else {
        0
    }
}

/// The last piece of `p`, of what stands behind `n`.
pub open spec fn tail(p: Seq<char>, n: int) -> Seq<char> {
    p.skip(p.len() - tail_len(p, n))
}

/// `p` without its last piece and the separator before it.
pub open spec fn without_tail(p: Seq<char>, n: int) -> Seq<char> {
    let k = p.len() - tail_len(p, n);
    if k > n {
        p.take(k - 1)
    } else {
        p.take(k)
    }
}

pub proof fn lemma_tail_len(p: Seq<char>, n: int)
    requires
        0 <= n,
    ensures
        tail_len(p, n) <= p.len(),
        p.len() >= n ==> tail_len(p, n) <= p.len() - n,
        p.len() > n ==> without_tail(p, n).len() < p.len() && without_tail(p, n).len() >= n,
    decreases p.len(),
{
    if p.len() > n && p.last() != '/' {
        lemma_tail_len(p.drop_last(), n);
    }
}

/// `p` without what carries no meaning at its end.
pub open spec fn settled(p: Seq<char>, n: int) -> Seq<char>
    recommends
        n >= 0,
    decreases p.len(),
{
    if n >= 0 && p.len() > n && !is_component(tail(p, n)) {
        proof {
            lemma_tail_len(p, n);
        }
        settled(without_tail(p, n), n)
    } else {
        p
    }
}

/// The path without its last component. The root and the empty path have none.
pub open spec fn parent(p: Seq<char>) -> Option<Seq<char>> {
    let n = body_start(p);
    let q = settled(p, n);
    if q.len() > n {
        Some(settled(without_tail(q, n), n))
    } else if leads_with_dot(p) {
        Some(seq![])
    } else {
        None
    }
}

/// The last component, unless it leads to a parent directory.
pub open spec fn file_name(p: Seq<char>) -> Option<Seq<char>> {
    let n = body_start(p);
    let q = settled(p, n);
    if q.len() > n && tail(q, n) != ".."@ {
        Some(tail(q, n))
    } else {
        None
    }
}

/// A file name without its extension: what stands before the last dot, unless
/// that is the first character.
pub open spec fn stem(name: Seq<char>) -> Seq<char> {
    match rfind(name, "."@) {
        Some(i) => if i > 0 {
            name.take(i)
        } else {
            name
        },
        None => name,
    }
}

/// The extension of a file name.
pub open spec fn extension(name: Seq<char>) -> Option<Seq<char>> {
    match rfind(name, "."@) {
        Some(i) => if i > 0 {
            Some(name.skip(i + 1))
        } else {
            None
        },
        None => None,
    }
}

fn body_start_of(chars: &Vec<char>) -> (r: usize)
    ensures
        r == body_start(chars@),
        r <= chars@.len(),
{
    if chars.len() > 0 && (chars[0] == '/' || (chars[0] == '.' && (chars.len() == 1 || chars[1]
        == '/'))) {
        1
    } else {
        0
    }
}

fn tail_len_of(p: &Vec<char>, len: usize, n: usize) -> (r: usize)
    requires
        n <= len <= p@.len(),
    ensures
        r == tail_len(p@.take(len as int), n as int),
        r <= len - n,
{
    let mut k: usize = 0;
    let ghost q = p@.take(len as int);
    assert(q.take(q.len() as int) =~= q);
    while len - k > n && p[len - k - 1] != '/'
        invariant
            n <= len <= p@.len(),
            k <= len - n,
            q == p@.take(len as int),
            tail_len(q, n as int) == k + tail_len(q.take(len - k), n as int),
        decreases len - k,
    {
        assert(q.take(len - k).last() == p@[len - k - 1]);
        assert(q.take(len - k).drop_last() =~= q.take(len - k - 1));
        k += 1;
    }
    proof {
        if len - k > n {
            assert(q.take(len - k).last() == p@[len - k - 1]);
        }
    }
    k
}

/// The length to which `settled` shortens the first `len` characters.
fn settled_len(p: &Vec<char>, len: usize, n: usize) -> (r: usize)
    requires
        n <= len <= p@.len(),
    ensures
        n <= r <= len,
        p@.take(r as int) == settled(p@.take(len as int), n as int),
{
    let mut l: usize = len;
    let ghost q = p@.take(len as int);
    while l > n
        invariant
            n <= l <= len <= p@.len(),
            q == p@.take(len as int),
            settled(p@.take(l as int), n as int) == settled(q, n as int),
        decreases l,
    {
        let k: usize = tail_len_of(p, l, n);
        let ghost now = p@.take(l as int);
        let piece = string_of(p, l - k, l);
        assert(piece@ =~= tail(now, n as int));
        if k > 0 && !same(&piece, ".") {
            return l;
        }
        let cut: usize = if l - k > n {
            l - k - 1
        } else {
            l - k
        };
        proof {
            lemma_tail_len(now, n as int);
            assert(p@.take(cut as int) =~= without_tail(now, n as int));
        }
        l = cut;
    }
    l
}

/// The path without its last component.
pub fn parent_of(p: &str) -> (r: Option<String>)
    ensures
        match r {
            Some(s) => parent(p@) == Some(s@),
            None => parent(p@) is None,
        },
{
    let chars = chars_of(p);
    let n: usize = body_start_of(&chars);
    assert(chars@.take(chars@.len() as int) =~= p@);
    let len: usize = settled_len(&chars, chars.len(), n);
    let ghost q = chars@.take(len as int);
    if len > n {
        let k: usize = tail_len_of(&chars, len, n);
        let cut: usize = if len - k > n {
            len - k - 1
        } else {
            len - k
        };
        assert(chars@.take(cut as int) =~= without_tail(q, n as int));
        let up: usize = settled_len(&chars, cut, n);
        Some(before(p, up))
    } else if n == 1 && chars[0] == '.' {
        let none = String::new();
        assert(none@ =~= seq![]);
        Some(none)
    } else {
        None
    }
}

/// The last component, unless it leads to a parent directory.
pub fn file_name_of(p: &str) -> (r: Option<String>)
    ensures
        match r {
            Some(s) => file_name(p@) == Some(s@),
            None => file_name(p@) is None,
        },
{
    let chars = chars_of(p);
    let n: usize = body_start_of(&chars);
    assert(chars@.take(chars@.len() as int) =~= p@);
    let len: usize = settled_len(&chars, chars.len(), n);
    if len > n {
        let k: usize = tail_len_of(&chars, len, n);
        let piece = string_of(&chars, len - k, len);
        assert(piece@ =~= tail(chars@.take(len as int), n as int));
        if same(&piece, "..") {
            None
        } else {
            Some(piece)
        }
    } else {
        None
    }
}

/// A file name without its extension.
pub fn stem_of(name: &str) -> (r: String)
    ensures
        r@ == stem(name@),
{
    let chars = chars_of(name);
    assert(chars@.take(chars@.len() as int) =~= name@);
    match rfind_before(&chars, ".", chars.len()) {
        Some(i) => if i > 0 {
            before(name, i)
        } else {
            name.to_owned()
        },
        None => name.to_owned(),
    }
}

/// The extension of a file name.
pub fn extension_of(name: &str) -> (r: Option<String>)
    ensures
        match r {
            Some(s) => extension(name@) == Some(s@),
            None => extension(name@) is None,
        },
{
    proof {
        reveal_strlit(".");
    }
    let chars = chars_of(name);
    assert(chars@.take(chars@.len() as int) =~= name@);
    match rfind_before(&chars, ".", chars.len()) {
        Some(i) => if i > 0 {
            Some(after(name, i + 1))
        } else {
            None
        },
        None => None,
    }
}

// ---------------------------------------------------------------------------
// All components
// ---------------------------------------------------------------------------

/// The components among a list of pieces.
pub open spec fn kept(list: Seq<Seq<char>>) -> Seq<Seq<char>>
    decreases list.len(),
{
    if list.len() == 0 {
        seq![]
    } else if is_component(list.last()) {
        kept(list.drop_last()).push(list.last())
    } else {
        kept(list.drop_last())
    }
}

/// What a path starts with: the root, a leading dot, or nothing.
pub open spec fn start_component(p: Seq<char>) -> Seq<Seq<char>> {
    if is_absolute_path(p) {
        seq!["/"@]
    } else if leads_with_dot(p) {
        seq!["."@]
    } else {
        seq![]
    }
}

/// The components of a path, in order.
pub open spec fn components(p: Seq<char>) -> Seq<Seq<char>> {
    start_component(p) + kept(pieces(p.skip(body_start(p)), '/'))
}

/// Whether the components of `base` are the first components of `p`.
pub open spec fn path_begins(p: Seq<char>, base: Seq<char>) -> bool {
    components(base).is_prefix_of(components(p))
}

/// The components of a path, in order.
pub fn components_of(p: &str) -> (r: Vec<String>)
    ensures
        texts(r@) == components(p@),
{
    let chars = chars_of(p);
    let n: usize = body_start_of(&chars);
    let list = split_char(&after(p, n), '/');
    let mut out: Vec<String> = Vec::new();
    if n == 1 {
        if chars[0] == '/' {
            out.push("/".to_owned());
        } else {
            out.push(".".to_owned());
        }
    }
    let ghost head = texts(out@);
    assert(head =~= start_component(p@));
    let ghost all = texts(list@);
    let mut i: usize = 0;
    assert(head + kept(all.take(0)) =~= head);
    while i < list.len()
        invariant
            i <= list@.len(),
            all == texts(list@),
            texts(out@) == head + kept(all.take(i as int)),
        decreases list@.len() - i,
    {
        let ghost had = texts(out@);
        proof {
            assert(all.take(i + 1).drop_last() =~= all.take(i as int));
            assert(all.take(i + 1).last() == all[i as int]);
        }
        if char_count(&list[i]) > 0 && !same(&list[i], ".") {
            out.push(list[i].clone());
            assert(texts(out@) =~= had.push(all[i as int]));
            assert(had.push(all[i as int]) =~= head + kept(all.take(i + 1)));
        }
        i += 1;
    }
    assert(all.take(list@.len() as int) =~= all);
    out
}

/// Whether the components of `base` are the first components of `p`.
pub fn path_starts_with(p: &str, base: &str) -> (r: bool)
    ensures
        r == path_begins(p@, base@),
{
    let list = components_of(p);
    let first = components_of(base);
    let ghost ps = components(p@);
    let ghost bs = components(base@);
    if first.len() > list.len() {
        return false;
    }
    let mut i: usize = 0;
    while i < first.len()
        invariant
            i <= first@.len() <= list@.len(),
            texts(list@) == ps,
            texts(first@) == bs,
            bs == components(base@),
            ps == components(p@),
            forall|j: int| 0 <= j < i ==> ps[j] == #[trigger] bs[j],
        decreases first@.len() - i,
    {
        if !same(&list[i], &first[i]) {
            assert(ps[i as int] != bs[i as int]);
            assert(ps.subrange(0, bs.len() as int)[i as int] == ps[i as int]);
            return false;
        }
        assert(ps[i as int] == bs[i as int]);
        i += 1;
    }
    assert(bs =~= ps.subrange(0, bs.len() as int));
    true
}

/// What is left of `body` behind its first `k` components, without what carries
/// no meaning at its start.
pub open spec fn behind(body: Seq<char>, k: nat) -> Seq<char>
    decreases body.len(),
{
    let n = run_len(body, CharClass::Not('/')) as int;
    let first = body.take(n);
    if body.len() == 0 || (k == 0 && is_component(first)) {
        body
    } else {
        proof {
            lemma_run_len(body, CharClass::Not('/'));
        }
        let rest = if n < body.len() {
            body.skip(n + 1)
        } else {
            seq![]
        };
        behind(
            rest,
            if is_component(first) {
                (k - 1) as nat
            } else {
                k
            },
        )
    }
}

/// `p` relative to `base`, where it lies below it: the text behind the
/// components of `base`, without what carries no meaning at either end.
pub open spec fn relative(p: Seq<char>, base: Seq<char>) -> Option<Seq<char>> {
    if path_begins(p, base) {
        if components(base).len() == 0 {
            Some(settled(p, body_start(p)))
        } else {
            let own = components(base).len() - start_component(base).len();
            Some(settled(behind(p.skip(body_start(p)), own as nat), 0))
        }
    } else {
        None
    }
}

fn behind_of(body: &str, k: usize) -> (r: String)
    ensures
        r@ == behind(body@, k as nat),
    decreases body@.len(),
{
    let chars = chars_of(body);
    assert(chars@.skip(0) =~= body@);
    let n: usize = run_from(&chars, 0, CharClass::Not('/'));
    let first = before(body, n);
    let counts = n > 0 && !same(&first, ".");
    proof {
        assert(counts == is_component(first@));
    }
    if chars.len() == 0 || (k == 0 && counts) {
        return body.to_owned();
    }
    let rest = if n < chars.len() {
        after(body, n + 1)
    } else {
        let none = String::new();
        assert(none@ =~= seq![]);
        none
    };
    behind_of(
        &rest,
        if counts {
            k - 1
        } else {
            k
        },
    )
}

fn settle(p: &str, n: usize) -> (r: String)
    requires
        n <= p@.len(),
    ensures
        r@ == settled(p@, n as int),
{
    let chars = chars_of(p);
    assert(chars@.take(chars@.len() as int) =~= p@);
    let len: usize = settled_len(&chars, chars.len(), n);
    before(p, len)
}

/// `p` relative to `base`, where it lies below it.
pub fn relative_to(p: &str, base: &str) -> (r: Option<String>)
    ensures
        match r {
            Some(s) => relative(p@, base@) == Some(s@),
            None => relative(p@, base@) is None,
        },
{
    if !path_starts_with(p, base) {
        return None;
    }
    let count: usize = components_of(base).len();
    let n: usize = body_start_of(&chars_of(p));
    if count == 0 {
        return Some(settle(p, n));
    }
    let start: usize = body_start_of(&chars_of(base));
    let rest = behind_of(&after(p, n), count - start);
    Some(settle(&rest, 0))
}

/// Whether two paths have the same components.
pub fn same_path(a: &str, b: &str) -> (r: bool)
    ensures
        r == (components(a@) == components(b@)),
{
    let forth = path_starts_with(a, b);
    let back = path_starts_with(b, a);
    proof {
        let x = components(a@);
        let y = components(b@);
        if forth && back {
            assert(x =~= y);
        }
        if x == y {
            assert(x =~= x.subrange(0, x.len() as int));
        }
    }
    forth && back
}

// ---------------------------------------------------------------------------
// Laws
// ---------------------------------------------------------------------------

/// An absolute path stays as it is, and a relative one goes below the base, with one slash
/// between them.
pub proof fn law_paths_are_joined(base: Seq<char>, p: Seq<char>)
    ensures
        p.len() > 0 && p[0] == '/' ==> joined_path(base, p) == p,
        (p.len() == 0 || p[0] != '/') && base.len() > 0 && base.last() != '/' ==> joined_path(
            base,
            p,
        ) == base + "/"@ + p,
        (p.len() == 0 || p[0] != '/') && (base.len() == 0 || base.last() == '/') ==> joined_path(
            base,
            p,
        ) == base + p,
{
}

proof fn lemma_pieces_of_both(a: Seq<char>, b: Seq<char>)
    ensures
        pieces(a + "/"@ + b, '/') == pieces(a, '/') + pieces(b, '/'),
    decreases a.len(),
{
    reveal_strlit("/");
    lemma_run_len(a, CharClass::Not('/'));
    let n = run_len(a, CharClass::Not('/')) as int;
    let s = a + "/"@ + b;
    let first = a.take(n);
    assert forall|i: int| 0 <= i < first.len() implies #[trigger] first[i] != '/' by {
        assert(CharClass::Not('/').has(a[i]));
    }
    if n < a.len() {
        let rest = a.skip(n + 1);
        lemma_pieces_of_both(rest, b);
        crate::text::law_pieces_stand_between_separators(first, '/', rest);
        crate::text::law_pieces_stand_between_separators(first, '/', rest + "/"@ + b);
        assert(first.push('/') + rest =~= a);
        assert(first.push('/') + (rest + "/"@ + b) =~= s);
        assert(seq![first] + (pieces(rest, '/') + pieces(b, '/')) =~= seq![first] + pieces(
            rest,
            '/',
        ) + pieces(b, '/'));
    } else {
        assert(first =~= a);
        crate::text::law_pieces_stand_between_separators(a, '/', b);
        assert(a.push('/') + b =~= s);
    }
}

proof fn lemma_kept_of_both(a: Seq<Seq<char>>, b: Seq<Seq<char>>)
    ensures
        kept(a + b) == kept(a) + kept(b),
    decreases b.len(),
{
    if b.len() == 0 {
        assert(a + b =~= a);
        assert(kept(a) + kept(b) =~= kept(a));
    } else {
        assert((a + b).drop_last() =~= a + b.drop_last());
        assert((a + b).last() == b.last());
        lemma_kept_of_both(a, b.drop_last());
        if is_component(b.last()) {
            assert((kept(a) + kept(b.drop_last())).push(b.last()) =~= kept(a) + kept(
                b.drop_last(),
            ).push(b.last()));
        }
    }
}

proof fn lemma_below(base: Seq<char>, p: Seq<char>)
    requires
        base.len() > 0,
        base.last() != '/',
    ensures
        body_start(base + "/"@ + p) == body_start(base),
        start_component(base + "/"@ + p) == start_component(base),
        components(base + "/"@ + p) == components(base) + kept(pieces(p, '/')),
{
    reveal_strlit("/");
    let s = base + "/"@ + p;
    assert(s[0] == base[0]);
    if base.len() > 1 {
        assert(s[1] == base[1]);
    } else {
        assert(s[1] == '/');
    }
    let n = body_start(base);
    let body = base.skip(n);
    assert(s.skip(n) =~= body + "/"@ + p);
    lemma_pieces_of_both(body, p);
    lemma_kept_of_both(pieces(body, '/'), pieces(p, '/'));
    assert(start_component(base) + (kept(pieces(body, '/')) + kept(pieces(p, '/')))
        =~= components(base) + kept(pieces(p, '/')));
}

/// A relative path that is joined to a base lies below it: the names of the path come behind
/// those of the base, and empty ones and single dots count for nothing.
pub proof fn law_joined_paths_lie_below(base: Seq<char>, p: Seq<char>)
    requires
        base.len() > 0,
        base.last() != '/',
        !is_absolute_path(p),
    ensures
        components(joined_path(base, p)) == components(base) + kept(pieces(p, '/')),
        path_begins(joined_path(base, p), base),
{
    lemma_below(base, p);
    let all = components(joined_path(base, p));
    assert(components(base) =~= all.take(components(base).len() as int));
}

/// A path lies below itself, and below all that what it lies below lies below.
pub proof fn law_lying_below_is_an_order(a: Seq<char>, b: Seq<char>, c: Seq<char>)
    ensures
        path_begins(a, a),
        path_begins(a, b) && path_begins(b, c) ==> path_begins(a, c),
        path_begins(a, b) && path_begins(b, a) ==> components(a) == components(b),
        path_begins(a, b) <==> components(b).len() <= components(a).len() && forall|i: int|
            0 <= i < components(b).len() ==> components(a)[i] == #[trigger] components(b)[i],
{
    assert(components(a) =~= components(a).take(components(a).len() as int));
    if components(b).len() <= components(a).len() && (forall|i: int|
        0 <= i < components(b).len() ==> components(a)[i] == #[trigger] components(b)[i]) {
        assert(components(b) =~= components(a).take(components(b).len() as int));
    }
    if path_begins(a, b) && path_begins(b, c) {
        assert(components(c) =~= components(a).take(components(c).len() as int));
    }
    if path_begins(a, b) && path_begins(b, a) {
        assert(components(a) =~= components(b));
    }
}

/// A path is made of its names, in order; a slash at its head counts as one, and so does a
/// single dot there, but nowhere else.
pub proof fn law_paths_are_made_of_names(list: Seq<Seq<char>>, name: Seq<char>)
    ensures
        kept(seq![]).len() == 0,
        name.len() > 0 && name != "."@ ==> kept(list.push(name)) == kept(list).push(name),
        name.len() == 0 || name == "."@ ==> kept(list.push(name)) == kept(list),
        forall|p: Seq<char>|
            p.len() > 0 && p[0] == '/' ==> #[trigger] components(p) == seq!["/"@] + kept(
                pieces(p.skip(1), '/'),
            ),
        forall|p: Seq<char>|
            p.len() > 0 && p[0] != '/' && p[0] != '.' ==> #[trigger] components(p) == kept(
                pieces(p, '/'),
            ),
{
    assert(list.push(name).drop_last() =~= list);
    assert forall|p: Seq<char>| p.len() > 0 && p[0] != '/' && p[0] != '.' implies #[trigger] components(
        p,
    ) == kept(pieces(p, '/')) by {
        assert(p.skip(0) =~= p);
        assert(start_component(p) + kept(pieces(p, '/')) =~= kept(pieces(p, '/')));
    }
}

proof fn lemma_tail_is(head: Seq<char>, name: Seq<char>, n: int)
    requires
        0 <= n <= head.len(),
        forall|i: int| 0 <= i < name.len() ==> #[trigger] name[i] != '/',
        head.len() > n ==> head.last() == '/',
    ensures
        tail_len(head + name, n) == name.len(),
        tail(head + name, n) == name,
    decreases name.len(),
{
    let p = head + name;
    if name.len() > 0 {
        assert(p.last() == name[name.len() - 1]);
        assert(p.drop_last() =~= head + name.drop_last());
        assert forall|i: int| 0 <= i < name.drop_last().len() implies #[trigger] name.drop_last()[i]
            != '/' by {
            assert(name.drop_last()[i] == name[i]);
        }
        lemma_tail_is(head, name.drop_last(), n);
    } else {
        assert(p =~= head);
    }
    assert(p.skip(p.len() - name.len()) =~= name);
}

/// The name of a file is the last name of its path, and its parent the path before that; a path
/// of one name has the empty path as its parent, and one that ends in two dots has no name.
pub proof fn law_files_are_named_by_the_end(dir: Seq<char>, held: Seq<char>, name: Seq<char>)
    requires
        name.len() > 0,
        name != "."@,
        name[0] != '.',
        forall|i: int| 0 <= i < name.len() ==> #[trigger] name[i] != '/',
        dir.len() > 0,
        dir.last() == '/',
        dir[0] != '.',
        held.len() > 0,
        held != "."@,
        forall|i: int| 0 <= i < held.len() ==> #[trigger] held[i] != '/',
    ensures
        file_name(dir + held + "/"@ + name) == Some(name),
        parent(dir + held + "/"@ + name) == Some(dir + held),
        file_name(name) == Some(name),
        parent(name) == Some(Seq::<char>::empty()),
        file_name(dir + held + "/"@ + ".."@) is None,
{
    reveal_strlit("/");
    reveal_strlit(".");
    reveal_strlit("..");
    let up = dir + held;
    let head = up + "/"@;
    let p = head + name;
    let n = body_start(p);
    assert(p[0] == dir[0]);
    assert(head.last() == '/');
    assert(p =~= dir + held + "/"@ + name);
    lemma_tail_is(head, name, n);
    lemma_tail_is(dir, held, n);
    if name.len() == 2 {
        assert(name[0] != ".."@[0]);
    }
    assert(settled(p, n) == p);
    assert(without_tail(p, n) =~= up);
    assert(settled(up, n) == up);
    let none: Seq<char> = seq![];
    lemma_tail_is(none, name, 0);
    assert(none + name =~= name);
    assert(body_start(name) == 0);
    assert(settled(name, 0) == name);
    assert(without_tail(name, 0) =~= none);
    let q = head + ".."@;
    assert(q[0] == dir[0]);
    lemma_tail_is(head, ".."@, body_start(q));
    assert(".."@.len() == 2 && "."@.len() == 1);
    assert(q =~= dir + held + "/"@ + ".."@);
    assert(settled(q, body_start(q)) == q);
}

/// The ending of a name is what stands behind its last dot, unless that is its first
/// character.
pub proof fn law_names_are_cut_at_the_last_dot(a: Seq<char>, b: Seq<char>)
    requires
        forall|i: int| 0 <= i < b.len() ==> #[trigger] b[i] != '.',
    ensures
        a.len() > 0 ==> stem(a + "."@ + b) == a && extension(a + "."@ + b) == Some(b),
        stem(b) == b,
        extension(b) is None,
        stem("."@ + b) == "."@ + b,
        extension("."@ + b) is None,
{
    reveal_strlit(".");
    lemma_last_dot(a, b);
    let none: Seq<char> = seq![];
    lemma_last_dot(none, b);
    assert(none + "."@ + b =~= "."@ + b);
    let s = a + "."@ + b;
    let n = a.len() as int;
    assert(s.take(n) =~= a);
    assert(s.skip(n + 1) =~= b);
    crate::text::lemma_rfind(b, "."@);
    if let Some(i) = rfind(b, "."@) {
        assert(b.subrange(i, i + 1)[0] == b[i]);
    }
}

proof fn lemma_last_dot(a: Seq<char>, b: Seq<char>)
    requires
        forall|i: int| 0 <= i < b.len() ==> #[trigger] b[i] != '.',
    ensures
        rfind(a + "."@ + b, "."@) == Some(a.len() as int),
{
    reveal_strlit(".");
    let s = a + "."@ + b;
    let n = a.len() as int;
    assert(s.subrange(n, n + 1) =~= "."@);
    assert forall|j: int| n < j implies !#[trigger] crate::text::occurs_at(s, "."@, j) by {
        if crate::text::occurs_at(s, "."@, j) {
            assert(s.subrange(j, j + 1)[0] == s[j]);
            assert(s[j] == b[j - n - 1]);
        }
    }
    crate::text::lemma_rfind_is(s, "."@, n);
}

proof fn lemma_behind(a: Seq<char>, p: Seq<char>)
    requires
        p.len() > 0,
        is_component(p.take(run_len(p, CharClass::Not('/')) as int)),
    ensures
        behind(a + "/"@ + p, kept(pieces(a, '/')).len()) == p,
    decreases a.len(),
{
    reveal_strlit("/");
    lemma_run_len(a, CharClass::Not('/'));
    let n = run_len(a, CharClass::Not('/')) as int;
    let s = a + "/"@ + p;
    let first = a.take(n);
    assert forall|i: int| 0 <= i < first.len() implies #[trigger] first[i] != '/' by {
        assert(CharClass::Not('/').has(a[i]));
    }
    assert forall|i: int| 0 <= i < n implies CharClass::Not('/').has(#[trigger] s[i]) by {
        assert(s[i] == a[i]);
        assert(CharClass::Not('/').has(a[i]));
    }
    assert(s[n] == '/');
    crate::text::lemma_run_len_is(s, CharClass::Not('/'), n);
    assert(s.take(n) =~= first);
    if n < a.len() {
        let rest = a.skip(n + 1);
        lemma_behind(rest, p);
        crate::text::law_pieces_stand_between_separators(first, '/', rest);
        assert(first.push('/') + rest =~= a);
        lemma_kept_of_both(seq![first], pieces(rest, '/'));
        lemma_kept_one(first);
        assert(s.skip(n + 1) =~= rest + "/"@ + p);
    } else {
        assert(first =~= a);
        crate::text::law_pieces_stand_between_separators(a, '/', seq![]);
        lemma_kept_one(a);
        assert(s.skip(n + 1) =~= p);
        assert(behind(p, 0) == p);
    }
}

proof fn lemma_kept_one(name: Seq<char>)
    ensures
        is_component(name) ==> kept(seq![name]) == seq![name],
        !is_component(name) ==> kept(seq![name]) == Seq::<Seq<char>>::empty(),
{
    assert(seq![name].drop_last() =~= seq![]);
    assert(kept(seq![]) =~= seq![]);
    assert(kept(seq![name]) =~= (if is_component(name) {
        seq![name]
    } else {
        seq![]
    }));
}

/// A name that is joined to a base is seen from there as itself.
pub proof fn law_names_are_seen_from_their_base(base: Seq<char>, name: Seq<char>)
    requires
        base.len() > 0,
        base.last() != '/',
        name.len() > 0,
        name != "."@,
        forall|i: int| 0 <= i < name.len() ==> #[trigger] name[i] != '/',
        components(base).len() > 0,
    ensures
        relative(joined_path(base, name), base) == Some(name),
{
    reveal_strlit("/");
    let p = base + "/"@ + name;
    assert(!is_absolute_path(name)) by {
        assert(name[0] != '/');
    }
    law_joined_paths_lie_below(base, name);
    lemma_below(base, name);
    let n = body_start(base);
    let body = base.skip(n);
    assert(p.skip(n) =~= body + "/"@ + name);
    crate::text::lemma_run_len_is(name, CharClass::Not('/'), name.len() as int);
    assert(name.take(name.len() as int) =~= name);
    lemma_behind(body, name);
    let none: Seq<char> = seq![];
    lemma_tail_is(none, name, 0);
    assert(none + name =~= name);
    assert(settled(name, 0) == name);
}

/// A path that does not lie below a base is not seen from it.
pub proof fn law_other_paths_are_not_seen(p: Seq<char>, base: Seq<char>)
    ensures
        relative(p, base) is Some <==> path_begins(p, base),
{
}

/// A slash at the end of a path, with or without a dot behind it, changes nothing about what is
/// named.
pub proof fn law_trailing_slashes_change_nothing(p: Seq<char>)
    requires
        p.len() > 0,
    ensures
        file_name(p + "/"@) == file_name(p),
        parent(p + "/"@) == parent(p),
        file_name(p + "/."@) == file_name(p),
        parent(p + "/."@) == parent(p),
{
    reveal_strlit("/");
    reveal_strlit("/.");
    reveal_strlit(".");
    let q = p + "/"@;
    let n = body_start(p);
    assert(q[0] == p[0]);
    assert(body_start(q) == n);
    let none: Seq<char> = seq![];
    lemma_tail_is(q, none, n);
    assert(q + none =~= q);
    assert(without_tail(q, n) =~= p);
    assert(settled(q, n) == settled(p, n));
    let r = p + "/."@;
    assert(r =~= q + "."@);
    assert(r[0] == p[0]);
    assert(body_start(r) == n);
    lemma_tail_is(q, "."@, n);
    assert(without_tail(r, n) =~= p);
    assert(settled(r, n) == settled(p, n));
}

/// The root is in nothing and has no name; a path of one dot lies in the empty path.
pub proof fn law_roots_have_no_name()
    ensures
        file_name("/"@) is None,
        parent("/"@) is None,
        file_name("."@) is None,
        parent("."@) == Some(Seq::<char>::empty()),
        file_name(seq![]) is None,
        parent(seq![]) is None,
{
    reveal_strlit("/");
    reveal_strlit(".");
}

/// A leading dot is a part of its own; dots elsewhere are left out.
pub proof fn law_leading_dots_are_kept(p: Seq<char>)
    ensures
        components("./"@ + p) == seq!["."@] + kept(pieces("/"@ + p, '/')),
        components("."@) == seq!["."@] + kept(pieces(seq![], '/')),
        p.len() > 1 && p[0] == '.' && p[1] != '/' ==> components(p) == kept(pieces(p, '/')),
        p.len() == 0 ==> components(p) == kept(pieces(p, '/')),
{
    reveal_strlit("./");
    reveal_strlit("/");
    reveal_strlit(".");
    assert(("./"@ + p).skip(1) =~= "/"@ + p);
    assert("."@.skip(1) =~= seq![]);
    assert(p.skip(0) =~= p);
    let none: Seq<Seq<char>> = seq![];
    assert(none + kept(pieces(p, '/')) =~= kept(pieces(p, '/')));
}

/// A path below a base is seen from it as what was joined to the base.
pub proof fn law_paths_are_seen_from_their_base(base: Seq<char>, head: Seq<char>, name: Seq<char>)
    requires
        base.len() > 0,
        base.last() != '/',
        components(base).len() > 0,
        head.len() > 0,
        head[0] != '/',
        head.last() == '/',
        is_component(head.take(run_len(head, CharClass::Not('/')) as int)),
        name.len() > 0,
        name != "."@,
        forall|i: int| 0 <= i < name.len() ==> #[trigger] name[i] != '/',
    ensures
        relative(joined_path(base, head + name), base) == Some(head + name),
{
    reveal_strlit("/");
    let rest = head + name;
    let p = base + "/"@ + rest;
    assert(rest[0] == head[0]);
    law_joined_paths_lie_below(base, rest);
    lemma_below(base, rest);
    let n = body_start(base);
    let body = base.skip(n);
    assert(p.skip(n) =~= body + "/"@ + rest);
    let k = run_len(head, CharClass::Not('/')) as int;
    lemma_run_len(head, CharClass::Not('/'));
    assert(k < head.len()) by {
        if k >= head.len() {
            assert(head[head.len() - 1] != '/');
        }
    }
    assert(rest[k] == head[k]);
    crate::text::lemma_run_len_is(rest, CharClass::Not('/'), k);
    assert(rest.take(k) =~= head.take(k));
    lemma_behind(body, rest);
    lemma_tail_is(head, name, 0);
    assert(settled(rest, 0) == rest);
}

}
