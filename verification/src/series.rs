//! Views into a price series: its sliding windows and its two ends.

use vstd::prelude::*;

verus! {

/// How many contiguous windows of length `n` a series of length `len` has.
pub open spec fn window_count(n: nat, len: nat) -> nat {
    if n <= len {
        (len - n + 1) as nat
    } else {
        0
    }
}

/// The contiguous windows of length `n` of `series`, in order of their start.
pub open spec fn sliding_windows<T>(n: nat, series: Seq<T>) -> Seq<Seq<T>> {
    Seq::new(window_count(n, series.len()), |i: int| series.subrange(i, i + n))
}

/// The windows over which an `n`-point moving average of `series` is taken.
///
/// There is no value for an empty series or a window of fewer than two
/// points. A window longer than the series yields no windows at all, which is
/// still a value.
pub fn windows<'a, T>(n: usize, series: &'a [T]) -> (found: Option<Vec<&'a [T]>>)
    ensures
        found is None <==> (series@.len() == 0 || n <= 1),
        found matches Some(w) ==> {
            &&& w@.len() == sliding_windows(n as nat, series@).len()
            &&& forall|i: int| 0 <= i < w@.len() ==> (#[trigger] w@[i])@ == sliding_windows(n as nat, series@)[i]
        },
{
    let len: usize = series.len();
    if len == 0 || n <= 1 {
        return None;
    }
    let mut out: Vec<&'a [T]> = Vec::new();
    if n > len {
        return Some(out);
    }
    let last_start: usize = len - n;
    let mut start: usize = 0;
    while start <= last_start
        invariant
            len == series@.len(),
            1 < n <= len,
            last_start == len - n,
            start <= last_start + 1,
            out@.len() == start,
            forall|i: int| 0 <= i < start ==> (#[trigger] out@[i])@ == series@.subrange(i, i + n),
        decreases last_start + 1 - start,
    {
        let window: &'a [T] = vstd::slice::slice_subrange(series, start, start + n);
        out.push(window);
        start = start + 1;
    }
    Some(out)
}

/// The first and the last element of a series; nothing for an empty one.
pub fn endpoints<T>(series: &[T]) -> (ends: Option<(&T, &T)>)
    ensures
        ends is None <==> series@.len() == 0,
        ends matches Some((first, last)) ==> *first == series@.first() && *last == series@.last(),
{
    let len: usize = series.len();
    if len == 0 {
        None
    } else {
        Some((&series[0], &series[len - 1]))
    }
}

} // verus!
