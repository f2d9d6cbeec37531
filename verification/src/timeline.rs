//! Putting quotes in time order.
//!
//! A provider may hand its quotes over in any order. Before anything is
//! derived from them they are sorted by timestamp, and quotes that share a
//! timestamp keep the order in which they came.

use vstd::prelude::*;
use crate::quote::Quote;

verus! {

/// No quote stands before an earlier one.
pub open spec fn time_ordered<P>(s: Seq<Quote<P>>) -> bool {
    forall|i: int, j: int| 0 <= i <= j < s.len() ==> s[i].timestamp <= s[j].timestamp
}

/// Whether a quote was taken at `t`.
pub open spec fn at_time<P>(t: u64) -> spec_fn(Quote<P>) -> bool {
    |q: Quote<P>| q.timestamp == t
}

/// The quotes of `s` taken at `t`, in the order in which they stand in `s`.
pub open spec fn taken_at<P>(s: Seq<Quote<P>>, t: u64) -> Seq<Quote<P>> {
    s.filter(at_time(t))
}

/// `sorted` holds the quotes of `s` in time order, those of one timestamp in
/// the order they have in `s`.
pub open spec fn is_time_sort_of<P>(sorted: Seq<Quote<P>>, s: Seq<Quote<P>>) -> bool {
    &&& time_ordered(sorted)
    &&& forall|t: u64| #[trigger] taken_at(sorted, t) == taken_at(s, t)
}

/// `s` with `q` put behind the last quote that is not later than `q`.
pub open spec fn placed<P>(s: Seq<Quote<P>>, q: Quote<P>) -> Seq<Quote<P>>
    decreases s.len(),
{
    if s.len() == 0 || s.last().timestamp <= q.timestamp {
        s.push(q)
    } else {
        placed(s.drop_last(), q).push(s.last())
    }
}

/// The quotes of `s` in time order: each one placed, in turn, among those
/// that came before it.
pub open spec fn time_sorted<P>(s: Seq<Quote<P>>) -> Seq<Quote<P>>
    decreases s.len(),
{
    if s.len() == 0 {
        s
    } else {
        placed(time_sorted(s.drop_last()), s.last())
    }
}

proof fn lemma_taken_at_push<P>(s: Seq<Quote<P>>, q: Quote<P>, t: u64)
    ensures
        taken_at(s.push(q), t) == if q.timestamp == t {
            taken_at(s, t).push(q)
        } else {
            taken_at(s, t)
        },
{
    s.lemma_filter_push(q, at_time(t));
}

proof fn lemma_taken_at_empty<P>(s: Seq<Quote<P>>, t: u64)
    requires
        s.len() == 0,
    ensures
        taken_at(s, t).len() == 0,
{
    s.lemma_filter_len(at_time(t));
}

/// A quote taken at `t` stands in `s` wherever `taken_at(s, t)` is not empty.
proof fn lemma_taken_at_witness<P>(s: Seq<Quote<P>>, t: u64) -> (i: int)
    requires
        taken_at(s, t).len() > 0,
    ensures
        0 <= i < s.len(),
        s[i].timestamp == t,
{
    let found = taken_at(s, t)[0];
    s.lemma_filter_pred(at_time(t), 0);
    assert(taken_at(s, t).contains(found));
    s.lemma_filter_contains_rev(at_time(t), found);
    choose|i: int| 0 <= i < s.len() && s[i] == found
}

proof fn lemma_placed_ordered<P>(s: Seq<Quote<P>>, q: Quote<P>)
    requires
        time_ordered(s),
    ensures
        time_ordered(placed(s, q)),
        placed(s, q).len() == s.len() + 1,
        placed(s, q).last() == q || (s.len() > 0 && placed(s, q).last() == s.last()),
    decreases s.len(),
{
    if s.len() == 0 || s.last().timestamp <= q.timestamp {
    } else {
        let front = s.drop_last();
        lemma_placed_ordered(front, q);
        let head = placed(front, q);
        assert(head.last().timestamp <= s.last().timestamp);
        assert forall|i: int, j: int| 0 <= i <= j < head.push(s.last()).len() implies head.push(
            s.last(),
        )[i].timestamp <= head.push(s.last())[j].timestamp by {
            if j < head.len() {
            } else {
                if i < head.len() {
                    assert(head[i].timestamp <= head.last().timestamp);
                }
            }
        }
    }
}

proof fn lemma_placed_taken_at<P>(s: Seq<Quote<P>>, q: Quote<P>, t: u64)
    ensures
        taken_at(placed(s, q), t) == taken_at(s.push(q), t),
    decreases s.len(),
{
    if s.len() == 0 || s.last().timestamp <= q.timestamp {
    } else {
        let front = s.drop_last();
        lemma_placed_taken_at(front, q, t);
        lemma_taken_at_push(placed(front, q), s.last(), t);
        lemma_taken_at_push(front, q, t);
        lemma_taken_at_push(front, s.last(), t);
        lemma_taken_at_push(s, q, t);
        assert(front.push(s.last()) == s);
    }
}

/// Sorting by time yields the quotes in time order and keeps the order of
/// those that share a timestamp.
pub proof fn lemma_time_sorted_sorts<P>(s: Seq<Quote<P>>)
    ensures
        is_time_sort_of(time_sorted(s), s),
        time_sorted(s).len() == s.len(),
    decreases s.len(),
{
    if s.len() == 0 {
    } else {
        let front = s.drop_last();
        lemma_time_sorted_sorts(front);
        lemma_placed_ordered(time_sorted(front), s.last());
        assert(front.push(s.last()) == s);
        assert forall|t: u64| #[trigger] taken_at(time_sorted(s), t) == taken_at(s, t) by {
            lemma_placed_taken_at(time_sorted(front), s.last(), t);
            lemma_taken_at_push(time_sorted(front), s.last(), t);
            lemma_taken_at_push(front, s.last(), t);
            assert(taken_at(time_sorted(front), t) == taken_at(front, t));
        }
    }
}

/// There is one way only to put quotes in time order while keeping the order
/// of those that share a timestamp.
pub proof fn lemma_time_sort_unique<P>(a: Seq<Quote<P>>, b: Seq<Quote<P>>)
    requires
        time_ordered(a),
        time_ordered(b),
        forall|t: u64| #[trigger] taken_at(a, t) == taken_at(b, t),
    ensures
        a == b,
    decreases a.len(),
{
    if a.len() == 0 {
        if b.len() > 0 {
            let t = b.last().timestamp;
            lemma_taken_at_push(b.drop_last(), b.last(), t);
            assert(b.drop_last().push(b.last()) == b);
            lemma_taken_at_empty(a, t);
            assert(taken_at(a, t) == taken_at(b, t));
        }
        assert(a =~= b);
    } else {
        let ta = a.last().timestamp;
        lemma_taken_at_push(a.drop_last(), a.last(), ta);
        assert(a.drop_last().push(a.last()) == a);
        assert(taken_at(a, ta) == taken_at(b, ta));
        if b.len() == 0 {
            lemma_taken_at_empty(b, ta);
        }
        let tb = b.last().timestamp;
        lemma_taken_at_push(b.drop_last(), b.last(), tb);
        assert(b.drop_last().push(b.last()) == b);
        assert(taken_at(a, tb) == taken_at(b, tb));
        let ia = lemma_taken_at_witness(a, tb);
        let ib = lemma_taken_at_witness(b, ta);
        assert(a[ia].timestamp <= a.last().timestamp);
        assert(b[ib].timestamp <= b.last().timestamp);
        assert(ta == tb);
        let a_front = a.drop_last();
        let b_front = b.drop_last();
        assert forall|t: u64| #[trigger] taken_at(a_front, t) == taken_at(b_front, t) by {
            lemma_taken_at_push(a_front, a.last(), t);
            lemma_taken_at_push(b_front, b.last(), t);
            assert(taken_at(a, t) == taken_at(b, t));
            if t == ta {
                let x = taken_at(a_front, t).push(a.last());
                let y = taken_at(b_front, t).push(b.last());
                assert(x == y);
                assert(x.drop_last() == taken_at(a_front, t));
                assert(y.drop_last() == taken_at(b_front, t));
            }
        }
        let x = taken_at(a_front, ta).push(a.last());
        let y = taken_at(b_front, ta).push(b.last());
        assert(x == y);
        assert(x.last() == a.last());
        assert(y.last() == b.last());
        lemma_time_sort_unique(a_front, b_front);
        assert(a =~= b);
    }
}

/// Whatever is a time sort of `s` is `time_sorted(s)`.
pub proof fn lemma_time_sorted_is_the_sort<P>(sorted: Seq<Quote<P>>, s: Seq<Quote<P>>)
    requires
        is_time_sort_of(sorted, s),
    ensures
        sorted == time_sorted(s),
{
    lemma_time_sorted_sorts(s);
    assert forall|t: u64| #[trigger] taken_at(sorted, t) == taken_at(time_sorted(s), t) by {
        assert(taken_at(sorted, t) == taken_at(s, t));
        assert(taken_at(time_sorted(s), t) == taken_at(s, t));
    }
    lemma_time_sort_unique(sorted, time_sorted(s));
}

/// Quotes that are in time order already are left as they stand.
pub proof fn lemma_time_sorted_keeps_ordered<P>(s: Seq<Quote<P>>)
    requires
        time_ordered(s),
    ensures
        time_sorted(s) == s,
{
    lemma_time_sorted_is_the_sort(s, s);
}

/// Sorting twice gives what sorting once gives.
pub proof fn lemma_time_sorted_idempotent<P>(s: Seq<Quote<P>>)
    ensures
        time_sorted(time_sorted(s)) == time_sorted(s),
{
    lemma_time_sorted_sorts(s);
    lemma_time_sorted_keeps_ordered(time_sorted(s));
}

proof fn lemma_placed_multiset<P>(s: Seq<Quote<P>>, q: Quote<P>)
    ensures
        placed(s, q).to_multiset() == s.to_multiset().insert(q),
    decreases s.len(),
{
    broadcast use vstd::seq_lib::to_multiset_build;

    if s.len() == 0 || s.last().timestamp <= q.timestamp {
    } else {
        let front = s.drop_last();
        lemma_placed_multiset(front, q);
        assert(front.push(s.last()) == s);
        assert(placed(s, q).to_multiset() =~= front.to_multiset().insert(q).insert(s.last()));
        assert(s.to_multiset().insert(q) =~= front.to_multiset().insert(s.last()).insert(q));
    }
}

/// Sorting neither drops a quote nor makes one up.
pub proof fn lemma_time_sorted_permutes<P>(s: Seq<Quote<P>>)
    ensures
        time_sorted(s).to_multiset() == s.to_multiset(),
    decreases s.len(),
{
    broadcast use vstd::seq_lib::to_multiset_build;

    if s.len() == 0 {
    } else {
        let front = s.drop_last();
        lemma_time_sorted_permutes(front);
        lemma_placed_multiset(time_sorted(front), s.last());
        assert(front.push(s.last()) == s);
    }
}

/// Sorts quotes by timestamp. Quotes that share a timestamp keep their order.
///
/// Each quote is moved back from the end until it stands behind one that is
/// not later, so quotes that arrive in order, as they mostly do, cost one
/// comparison each.
pub fn sort_by_time<P: Copy>(quotes: &Vec<Quote<P>>) -> (sorted: Vec<Quote<P>>)
    ensures
        sorted@ == time_sorted(quotes@),
        is_time_sort_of(sorted@, quotes@),
{
    let mut sorted: Vec<Quote<P>> = Vec::new();
    let mut k: usize = 0;
    while k < quotes.len()
        invariant
            k <= quotes@.len(),
            sorted@ == time_sorted(quotes@.take(k as int)),
        decreases quotes@.len() - k,
    {
        let q: Quote<P> = quotes[k];
        let mut i: usize = sorted.len();
        proof {
            assert(sorted@.take(i as int) == sorted@);
            assert(placed(sorted@, q) + sorted@.skip(i as int) =~= placed(sorted@, q));
        }
        while i > 0 && sorted[i - 1].timestamp > q.timestamp
            invariant
                i <= sorted@.len(),
                placed(sorted@, q) == placed(sorted@.take(i as int), q) + sorted@.skip(i as int),
            decreases i,
        {
            proof {
                let front = sorted@.take(i as int);
                assert(front.drop_last() == sorted@.take(i - 1));
                assert(placed(front, q) == placed(sorted@.take(i - 1), q).push(sorted@[i - 1]));
                assert(placed(sorted@.take(i - 1), q).push(sorted@[i - 1]) + sorted@.skip(i as int)
                    =~= placed(sorted@.take(i - 1), q) + sorted@.skip(i - 1));
            }
            i = i - 1;
        }
        proof {
            let front = sorted@.take(i as int);
            assert(placed(front, q) == front.push(q));
            assert(front.push(q) + sorted@.skip(i as int) =~= sorted@.insert(i as int, q));
            assert(quotes@.take(k + 1).drop_last() == quotes@.take(k as int));
        }
        sorted.insert(i, q);
        k = k + 1;
    }
    proof {
        assert(quotes@.take(k as int) == quotes@);
        lemma_time_sorted_sorts(quotes@);
    }
    sorted
}

} // verus!
