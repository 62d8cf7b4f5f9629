//! Sorting: texts in the order of their characters, records with the latest first.
use crate::text::{chars_of, texts};
use vstd::prelude::*;
use vstd::seq_lib::to_multiset_insert;
use vstd::string::*;

verus! {

broadcast use {vstd::seq::group_seq_axioms, vstd::string::group_string_axioms};

// ---------------------------------------------------------------------------
// Texts
// ---------------------------------------------------------------------------

/// Whether `a` stands before `b` or is equal to it, in the order of their characters.
pub open spec fn text_le(a: Seq<char>, b: Seq<char>) -> bool
    decreases a.len(),
{
    if a.len() == 0 {
        true
    } else if b.len() == 0 {
        false
    } else if a[0] != b[0] {
        a[0] < b[0]
    } else {
        text_le(a.skip(1), b.skip(1))
    }
}

/// Whether a list of texts is in order.
pub open spec fn in_order(list: Seq<Seq<char>>) -> bool {
    forall|i: int, j: int| 0 <= i <= j < list.len() ==> text_le(#[trigger] list[i], #[trigger] list[j])
}

pub proof fn lemma_text_le_total(a: Seq<char>, b: Seq<char>)
    ensures
        text_le(a, b) || text_le(b, a),
        text_le(a, a),
    decreases a.len(),
{
    if a.len() > 0 {
        lemma_text_le_total(a.skip(1), b.skip(1));
    }
}

pub proof fn lemma_text_le_trans(a: Seq<char>, b: Seq<char>, c: Seq<char>)
    requires
        text_le(a, b),
        text_le(b, c),
    ensures
        text_le(a, c),
    decreases a.len(),
{
    if a.len() > 0 && b.len() > 0 && c.len() > 0 && a[0] == b[0] && b[0] == c[0] {
        lemma_text_le_trans(a.skip(1), b.skip(1), c.skip(1));
    }
}

/// Whether `a` stands before `b` or is equal to it.
pub fn le_text(a: &str, b: &str) -> (r: bool)
    ensures
        r == text_le(a@, b@),
{
    let x = chars_of(a);
    let y = chars_of(b);
    let mut i: usize = 0;
    assert(x@.skip(0) =~= a@);
    assert(y@.skip(0) =~= b@);
    while i < x.len() && i < y.len()
        invariant
            i <= x@.len(),
            i <= y@.len(),
            text_le(a@, b@) == text_le(x@.skip(i as int), y@.skip(i as int)),
        decreases x@.len() - i,
    {
        assert(x@.skip(i as int)[0] == x@[i as int]);
        assert(y@.skip(i as int)[0] == y@[i as int]);
        if x[i] != y[i] {
            return x[i] < y[i];
        }
        assert(x@.skip(i as int).skip(1) =~= x@.skip(i + 1));
        assert(y@.skip(i as int).skip(1) =~= y@.skip(i + 1));
        i += 1;
    }
    i == x.len()
}

/// The texts of a list in order, each as often as before.
pub fn sort_texts(list: Vec<String>) -> (r: Vec<String>)
    ensures
        in_order(texts(r@)),
        texts(r@).to_multiset() == texts(list@).to_multiset(),
{
    let mut out: Vec<String> = Vec::new();
    let mut k: usize = 0;
    let ghost all = texts(list@);
    assert(texts(out@) =~= all.take(0));
    while k < list.len()
        invariant
            k <= list@.len(),
            all == texts(list@),
            in_order(texts(out@)),
            texts(out@).to_multiset() == all.take(k as int).to_multiset(),
        decreases list@.len() - k,
    {
        let item = list[k].clone();
        let ghost x = item@;
        let ghost had = texts(out@);
        let mut i: usize = 0;
        while i < out.len() && le_text(&out[i], &item)
            invariant
                i <= out@.len(),
                x == item@,
                had == texts(out@),
                forall|j: int| 0 <= j < i ==> text_le(#[trigger] had[j], x),
            decreases out@.len() - i,
        {
            assert(had[i as int] == out@[i as int]@);
            i += 1;
        }
        proof {
            if i < had.len() {
                assert(had[i as int] == out@[i as int]@);
                lemma_text_le_total(had[i as int], x);
            }
        }
        out.insert(i, item);
        proof {
            assert(texts(out@) =~= had.insert(i as int, x));
            lemma_insert_in_order(had, i as int, x);
            to_multiset_insert(had, i as int, x);
            assert(all.take(k + 1) =~= all.take(k as int).insert(k as int, x));
            to_multiset_insert(all.take(k as int), k as int, x);
        }
        k += 1;
    }
    assert(all.take(list@.len() as int) =~= all);
    out
}

proof fn lemma_insert_in_order(list: Seq<Seq<char>>, i: int, x: Seq<char>)
    requires
        in_order(list),
        0 <= i <= list.len(),
        forall|j: int| 0 <= j < i ==> text_le(#[trigger] list[j], x),
        i < list.len() ==> text_le(x, list[i]),
    ensures
        in_order(list.insert(i, x)),
{
    let new = list.insert(i, x);
    lemma_text_le_total(x, x);
    assert forall|a: int, b: int| 0 <= a <= b < new.len() implies text_le(
        #[trigger] new[a],
        #[trigger] new[b],
    ) by {
        let olda = if a < i { a } else { a - 1 };
        let oldb = if b < i { b } else { b - 1 };
        if a != i && b != i {
            assert(text_le(list[olda], list[oldb]));
        } else if a == i && b > i {
            assert(text_le(list[i], list[oldb]));
            lemma_text_le_trans(x, list[i], list[oldb]);
        } else if a < i && b == i {
            assert(text_le(list[a], x));
        }
    }
}

// ---------------------------------------------------------------------------
// Records
// ---------------------------------------------------------------------------

/// A record that carries the time of its last change.
pub trait Dated: Sized {
    spec fn stamp(&self) -> u64;

    fn updated(&self) -> (r: u64)
        ensures
            r == self.stamp(),
    ;
}

/// Whether a list has its latest records first.
pub open spec fn latest_first<T: Dated>(list: Seq<T>) -> bool {
    forall|i: int, j: int|
        0 <= i <= j < list.len() ==> (#[trigger] list[i]).stamp() >= (#[trigger] list[j]).stamp()
}

/// What tells the records of one time.
pub open spec fn at_time<T: Dated>(stamp: u64) -> spec_fn(T) -> bool {
    |x: T| x.stamp() == stamp
}

/// The records of one time.
pub open spec fn of_time<T: Dated>(list: Seq<T>, stamp: u64) -> Seq<T> {
    list.filter(at_time(stamp))
}

/// The records with the latest first. Records of one time keep their order.
pub fn newest_first<T: Dated>(list: Vec<T>) -> (r: Vec<T>)
    ensures
        latest_first(r@),
        forall|k: u64| #[trigger] of_time(r@, k) == of_time(list@, k),
        r@.to_multiset() == list@.to_multiset(),
{
    let mut rest = list;
    let ghost all = list@;
    let mut out: Vec<T> = Vec::new();
    assert(out@ =~= all.skip(all.len() as int));
    while rest.len() > 0
        invariant
            rest@.len() <= all.len(),
            rest@ == all.take(rest@.len() as int),
            latest_first(out@),
            forall|k: u64| #[trigger] of_time(out@, k) == of_time(all.skip(rest@.len() as int), k),
            out@.to_multiset() == all.skip(rest@.len() as int).to_multiset(),
        decreases rest@.len(),
    {
        let ghost n = rest@.len() as int;
        let item = rest.pop().unwrap();
        let ghost had = out@;
        assert(item == all[n - 1]);
        assert(rest@ =~= all.take(n - 1));
        let at: u64 = item.updated();
        let mut i: usize = 0;
        while i < out.len() && out[i].updated() > at
            invariant
                i <= out@.len(),
                forall|j: int| 0 <= j < i ==> (#[trigger] out@[j]).stamp() > at,
            decreases out@.len() - i,
        {
            i += 1;
        }
        out.insert(i, item);
        proof {
            assert(out@ =~= had.insert(i as int, item));
            assert(all.skip(n - 1) =~= all.skip(n).insert(0, item));
            to_multiset_insert(had, i as int, item);
            to_multiset_insert(all.skip(n), 0, item);
            assert forall|k: u64| #[trigger] of_time(out@, k) == of_time(all.skip(n - 1), k) by {
                assert(of_time(had, k) == of_time(all.skip(n), k));
                lemma_insert_of_time(had, i as int, item, k);
                lemma_insert_of_time(all.skip(n), 0, item, k);
            }
        }
    }
    proof {
        assert(all.skip(0) =~= all);
    }
    out
}

proof fn lemma_filter_none<T>(list: Seq<T>, p: spec_fn(T) -> bool)
    requires
        forall|i: int| 0 <= i < list.len() ==> !p(#[trigger] list[i]),
    ensures
        list.filter(p) == Seq::<T>::empty(),
    decreases list.len(),
{
    reveal(Seq::filter);
    if list.len() > 0 {
        assert(list.last() == list[list.len() - 1]);
        lemma_filter_none(list.drop_last(), p);
    }
}

/// Inserting an item behind later ones puts it before the others of its time.
proof fn lemma_insert_of_time<T: Dated>(list: Seq<T>, i: int, x: T, k: u64)
    requires
        0 <= i <= list.len(),
        forall|j: int| 0 <= j < i ==> (#[trigger] list[j]).stamp() > x.stamp(),
    ensures
        of_time(list.insert(i, x), k) == (if x.stamp() == k {
            seq![x] + of_time(list, k)
        } else {
            of_time(list, k)
        }),
{
    let p = at_time::<T>(k);
    let a = list.take(i);
    let b = list.skip(i);
    assert(seq![x].filter(p) =~= if x.stamp() == k { seq![x] } else { seq![] }) by {
        reveal_with_fuel(Seq::filter, 2);
        assert(seq![x].drop_last() =~= Seq::<T>::empty());
    }
    assert(list =~= a + b);
    assert(list.insert(i, x) =~= a + seq![x] + b);
    Seq::filter_distributes_over_add(a, b, p);
    Seq::filter_distributes_over_add(a, seq![x], p);
    Seq::filter_distributes_over_add(a + seq![x], b, p);
    if x.stamp() == k {
        lemma_filter_none(a, p);
        assert(a.filter(p) + seq![x].filter(p) + b.filter(p) =~= seq![x] + b.filter(p));
        assert(a.filter(p) + b.filter(p) =~= b.filter(p));
    } else {
        assert(a.filter(p) + seq![x].filter(p) + b.filter(p) =~= a.filter(p) + b.filter(p));
    }
}

/// Texts are ordered by the first character in which they differ, and one that goes on behind
/// another comes after it.
pub proof fn law_texts_are_ordered_by_their_first_difference(
    head: Seq<char>,
    a: char,
    b: char,
    x: Seq<char>,
    y: Seq<char>,
)
    ensures
        a < b ==> text_le(head.push(a) + x, head.push(b) + y) && !text_le(
            head.push(b) + y,
            head.push(a) + x,
        ),
        text_le(head, head + x),
        x.len() > 0 ==> !text_le(head + x, head),
    decreases head.len(),
{
    if head.len() == 0 {
        assert((head.push(a) + x)[0] == a);
        assert((head.push(b) + y)[0] == b);
    } else {
        let rest = head.skip(1);
        law_texts_are_ordered_by_their_first_difference(rest, a, b, x, y);
        assert((head.push(a) + x).skip(1) =~= rest.push(a) + x);
        assert((head.push(b) + y).skip(1) =~= rest.push(b) + y);
        assert((head.push(a) + x)[0] == head[0]);
        assert((head.push(b) + y)[0] == head[0]);
        assert((head + x).skip(1) =~= rest + x);
        assert((head + x)[0] == head[0]);
    }
}

/// In an ordered list no text stands behind a larger one, and in a dated list nothing stands
/// behind what is older.
pub proof fn law_ordered_lists_rise<T: Dated>(list: Seq<Seq<char>>, dated: Seq<T>, i: int, j: int)
    ensures
        in_order(list) && 0 <= i < j < list.len() ==> text_le(list[i], list[j]),
        0 <= i < j < list.len() && !text_le(list[i], list[j]) ==> !in_order(list),
        latest_first(dated) && 0 <= i < j < dated.len() ==> dated[i].stamp() >= dated[j].stamp(),
        0 <= i < j < dated.len() && dated[i].stamp() < dated[j].stamp() ==> !latest_first(dated),
{
}

/// What has one stamp stays in its order: it is found one by one as the list is walked.
pub proof fn law_equal_stamps_stay_in_order<T: Dated>(list: Seq<T>, last: T, stamp: u64)
    ensures
        of_time::<T>(seq![], stamp).len() == 0,
        last.stamp() == stamp ==> of_time(list.push(last), stamp) == of_time(list, stamp).push(last),
        last.stamp() != stamp ==> of_time(list.push(last), stamp) == of_time(list, stamp),
{
    reveal(Seq::filter);
    assert(list.push(last).drop_last() =~= list);
}

}
