//! Ordering the albums of a page: newest first, by the year they carry.

use vstd::prelude::*;
use vstd::std_specs::iter::IteratorSpec;
use crate::text::chars_of;

verus! {

/// An item with the year it is dated by, as text.
#[derive(Debug)]
pub struct Dated<T> {
    pub year: String,
    pub item: T,
}

/// Whether `a` comes before `b` where texts are compared character by
/// character and a text comes after each of its proper beginnings.
pub open spec fn text_before(a: Seq<char>, b: Seq<char>) -> bool
    decreases a.len(),
{
    if b.len() == 0 {
        false
    } else if a.len() == 0 {
        true
    } else if a[0] != b[0] {
        (a[0] as u32) < (b[0] as u32)
    } else {
        text_before(a.skip(1), b.skip(1))
    }
}

/// No text comes before itself, and of two texts at most one comes before
/// the other.
pub proof fn lemma_text_before_one_way(a: Seq<char>, b: Seq<char>)
    ensures
        !(text_before(a, b) && text_before(b, a)),
    decreases a.len(),
{
    if a.len() > 0 && b.len() > 0 && a[0] == b[0] {
        lemma_text_before_one_way(a.skip(1), b.skip(1));
    }
}

/// What comes before a text comes before all that the text comes before.
pub proof fn lemma_text_before_chains(a: Seq<char>, b: Seq<char>, c: Seq<char>)
    requires
        text_before(a, b),
        text_before(b, c),
    ensures
        text_before(a, c),
    decreases a.len(),
{
    if a.len() > 0 && a[0] == b[0] && b[0] == c[0] {
        lemma_text_before_chains(a.skip(1), b.skip(1), c.skip(1));
    }
}

/// Whether `first` comes before `second` as texts.
pub fn comes_before(first: &str, second: &str) -> (before: bool)
    ensures
        before == text_before(first@, second@),
{
    let a = chars_of(first);
    let b = chars_of(second);
    let mut i: usize = 0;
    assert(a@.skip(0) =~= a@);
    assert(b@.skip(0) =~= b@);
    while i < a.len() && i < b.len() && a[i] == b[i]
        invariant
            i <= a.len(),
            i <= b.len(),
            text_before(a@, b@) == text_before(a@.skip(i as int), b@.skip(i as int)),
        decreases a.len() - i,
    {
        assert(a@.skip(i as int).skip(1) =~= a@.skip(i as int + 1));
        assert(b@.skip(i as int).skip(1) =~= b@.skip(i as int + 1));
        i += 1;
    }
    if i >= b.len() {
        false
    } else if i >= a.len() {
        true
    } else {
        (a[i] as u32) < (b[i] as u32)
    }
}

/// The first position at or after `from` of an item that is older than
/// `year`: the end of the sequence if there is none.
pub open spec fn first_older<T>(sorted: Seq<Dated<T>>, year: Seq<char>, from: int) -> int
    decreases sorted.len() - from,
{
    if 0 <= from < sorted.len() && !text_before(sorted[from].year@, year) {
        first_older(sorted, year, from + 1)
    } else {
        from
    }
}

/// `sorted` with `item` put in before the first item that is older than it:
/// behind the items of its own year.
pub open spec fn placed<T>(sorted: Seq<Dated<T>>, item: Dated<T>) -> Seq<Dated<T>> {
    sorted.insert(first_older(sorted, item.year@, 0), item)
}

/// The items ordered by year, newest first; items of the same year keep
/// the order they came in.
pub open spec fn newest_first<T>(items: Seq<Dated<T>>) -> Seq<Dated<T>>
    decreases items.len(),
{
    if items.len() == 0 {
        Seq::empty()
    } else {
        placed(newest_first(items.drop_last()), items.last())
    }
}

/// Where a search for the first older item ends.
pub proof fn lemma_first_older<T>(sorted: Seq<Dated<T>>, year: Seq<char>, from: int)
    requires
        0 <= from <= sorted.len(),
    ensures
        from <= first_older(sorted, year, from) <= sorted.len(),
        forall|i: int|
            from <= i < first_older(sorted, year, from) ==> !text_before(
                (#[trigger] sorted[i]).year@,
                year,
            ),
        first_older(sorted, year, from) < sorted.len() ==> text_before(
            sorted[first_older(sorted, year, from)].year@,
            year,
        ),
    decreases sorted.len() - from,
{
    if from < sorted.len() && !text_before(sorted[from].year@, year) {
        lemma_first_older(sorted, year, from + 1);
    }
}

/// Whether no item is followed by a newer one.
pub open spec fn is_newest_first<T>(items: Seq<Dated<T>>) -> bool {
    forall|i: int, j: int|
        0 <= i < j < items.len() ==> !text_before(
            (#[trigger] items[i]).year@,
            (#[trigger] items[j]).year@,
        )
}

/// Ordering loses and adds nothing, and leaves no item in front of a newer
/// one.
pub proof fn lemma_newest_first<T>(items: Seq<Dated<T>>)
    ensures
        newest_first(items).len() == items.len(),
        newest_first(items).to_multiset() == items.to_multiset(),
        is_newest_first(newest_first(items)),
    decreases items.len(),
{
    broadcast use vstd::seq_lib::group_to_multiset_ensures;

    if items.len() == 0 {
        assert(items =~= Seq::empty());
    } else {
        let before = items.drop_last();
        let item = items.last();
        lemma_newest_first(before);
        let sorted = newest_first(before);
        let p = first_older(sorted, item.year@, 0);
        lemma_first_older(sorted, item.year@, 0);
        let out = sorted.insert(p, item);
        assert(out == newest_first(items));
        assert(out.to_multiset() =~= items.to_multiset()) by {
            vstd::seq_lib::to_multiset_insert(sorted, p, item);
            assert(before.push(item) =~= items);
        }
        assert forall|i: int, j: int| 0 <= i < j < out.len() implies !text_before(
            (#[trigger] out[i]).year@,
            (#[trigger] out[j]).year@,
        ) by {
            if j == p {
                assert(out[i] == sorted[i]);
            } else if i == p {
                assert(out[j] == sorted[j - 1]);
                if j - 1 > p {
                    assert(!text_before(sorted[p].year@, sorted[j - 1].year@));
                }
                if text_before(item.year@, sorted[j - 1].year@) {
                    lemma_text_before_chains(sorted[p].year@, item.year@, sorted[j - 1].year@);
                    lemma_text_before_one_way(sorted[p].year@, item.year@);
                }
            } else {
                let si = if i < p {
                    i
                } else {
                    i - 1
                };
                let sj = if j < p {
                    j
                } else {
                    j - 1
                };
                assert(out[i] == sorted[si]);
                assert(out[j] == sorted[sj]);
            }
        }
    }
}

/// Orders the items of a page by year, newest first. Items of the same
/// year keep the order they came in.
pub fn sort_newest_first<T>(items: Vec<Dated<T>>) -> (out: Vec<Dated<T>>)
    ensures
        out@ == newest_first(items@),
{
    let ghost all = items@;
    let mut out: Vec<Dated<T>> = Vec::new();
    for item in it: items.into_iter()
        invariant
            it.seq() == all,
            out@ == newest_first(all.take(it.index() as int)),
    {
        proof {
            assert(all.take(it.index() + 1).drop_last() =~= all.take(it.index() as int));
        }
        let mut p: usize = 0;
        while p < out.len() && !comes_before(out[p].year.as_str(), item.year.as_str())
            invariant
                p <= out.len(),
                first_older(out@, item.year@, 0) == first_older(out@, item.year@, p as int),
            decreases out.len() - p,
        {
            p += 1;
        }
        out.insert(p, item);
    }
    assert(all.take(all.len() as int) =~= all);
    out
}

} // verus!
