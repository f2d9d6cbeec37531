//! The processor: what the statistics of one result are taken from.
//!
//! A result without quotes is passed over in silence. Of any other the
//! quotes are put in time order, and the closing prices, the last of them and
//! its date are handed on.

use vstd::prelude::*;
use crate::downloader::result_of;
use crate::quote::{Quote, QuoteRequestView, QuoteResult, QuoteResultView};
use crate::timeline::{lemma_time_sorted_permutes, lemma_time_sorted_sorts, sort_by_time, time_sorted};

verus! {

/// The number of closing prices in one window of the moving average.
pub const SMA_WINDOW: usize = 30;

/// What the processor hands on for a result that holds quotes.
#[derive(Debug, PartialEq)]
pub struct Digest<P> {
    pub symbol: String,
    /// The timestamp of the latest quote.
    pub last_date: u64,
    /// The closing price of the latest quote.
    pub last_price: P,
    /// The closing prices in time order.
    pub closes: Vec<P>,
}

/// What a [`Digest`] holds.
pub struct DigestView<P> {
    pub symbol: Seq<char>,
    pub last_date: u64,
    pub last_price: P,
    pub closes: Seq<P>,
}

impl<P> View for Digest<P> {
    type V = DigestView<P>;

    open spec fn view(&self) -> DigestView<P> {
        DigestView {
            symbol: self.symbol@,
            last_date: self.last_date,
            last_price: self.last_price,
            closes: self.closes@,
        }
    }
}

/// What an optional digest holds.
pub open spec fn digest_view<P>(digest: Option<Digest<P>>) -> Option<DigestView<P>> {
    match digest {
        Some(d) => Some(d@),
        None => None,
    }
}

/// The closing price of each quote.
pub open spec fn closes_of<P>(quotes: Seq<Quote<P>>) -> Seq<P> {
    quotes.map_values(|q: Quote<P>| q.close)
}

/// What a result comes to: nothing where it holds no quote, else what its
/// quotes give once they are in time order.
pub open spec fn digest_of<P>(result: QuoteResultView<P>) -> Option<DigestView<P>> {
    if result.quotes.len() == 0 {
        None
    } else {
        let sorted = time_sorted(result.quotes);
        Some(
            DigestView {
                symbol: result.symbol,
                last_date: sorted.last().timestamp,
                last_price: sorted.last().close,
                closes: closes_of(sorted),
            },
        )
    }
}

/// A fetch that failed shows nothing: the result that the downloader makes
/// of it is one that the processor passes over.
pub proof fn lemma_failure_is_passed_over<P>(request: QuoteRequestView, error: Seq<char>)
    ensures
        digest_of(result_of::<P>(request, Err(error))) is None,
{
}

/// A fetch that gave quotes shows under the symbol that was asked for, and
/// one that gave none shows nothing.
pub proof fn lemma_fetched_quotes_are_shown<P>(request: QuoteRequestView, quotes: Seq<Quote<P>>)
    ensures
        digest_of(result_of(request, Ok(quotes))) is Some <==> quotes.len() > 0,
        quotes.len() > 0 ==> digest_of(result_of(request, Ok(quotes)))->0.symbol == request.symbol,
{
}

/// The closing prices that the processor hands on are those of the quotes,
/// each once, and the last of them is the price of the latest quote.
pub proof fn lemma_digest_keeps_closes<P>(result: QuoteResultView<P>)
    requires
        result.quotes.len() > 0,
    ensures
        digest_of(result)->0.closes.len() == result.quotes.len(),
        digest_of(result)->0.closes.to_multiset() == closes_of(result.quotes).to_multiset(),
        digest_of(result)->0.closes.last() == digest_of(result)->0.last_price,
        forall|i: int|
            0 <= i < result.quotes.len() ==> result.quotes[i].timestamp <= digest_of(
                result,
            )->0.last_date,
{
    let sorted = time_sorted(result.quotes);
    lemma_time_sorted_sorts(result.quotes);
    lemma_time_sorted_permutes(result.quotes);
    lemma_closes_of_multiset(sorted, result.quotes);
    assert forall|i: int| 0 <= i < result.quotes.len() implies result.quotes[i].timestamp
        <= sorted.last().timestamp by {
        let q = result.quotes[i];
        assert(result.quotes.to_multiset().count(q) > 0) by {
            broadcast use vstd::seq_lib::to_multiset_contains;
            assert(result.quotes.contains(q));
        }
        assert(sorted.contains(q)) by {
            broadcast use vstd::seq_lib::to_multiset_contains;
        }
        let j = choose|j: int| 0 <= j < sorted.len() && sorted[j] == q;
        assert(sorted[j].timestamp <= sorted[sorted.len() - 1].timestamp);
    }
}

/// Quotes that are the same but for their order have the same closing
/// prices but for their order.
proof fn lemma_closes_of_multiset<P>(a: Seq<Quote<P>>, b: Seq<Quote<P>>)
    requires
        a.to_multiset() == b.to_multiset(),
    ensures
        closes_of(a).to_multiset() == closes_of(b).to_multiset(),
    decreases a.len(),
{
    broadcast use vstd::seq_lib::to_multiset_build;
    broadcast use vstd::seq_lib::to_multiset_len;
    broadcast use vstd::seq_lib::to_multiset_contains;
    broadcast use vstd::seq_lib::to_multiset_remove;

    if a.len() == 0 {
        assert(a.to_multiset().len() == a.len());
        assert(b.to_multiset().len() == b.len());
        assert(closes_of(a) =~= closes_of(b));
    } else {
        let q = a.last();
        assert(a.contains(q));
        assert(b.to_multiset().count(q) > 0);
        assert(b.contains(q));
        let j = choose|j: int| 0 <= j < b.len() && b[j] == q;
        assert(0 <= j < b.len());
        let a_rest = a.drop_last();
        let b_rest = b.remove(j);
        assert(a_rest == a.remove(a.len() - 1));
        assert(a_rest.to_multiset() =~= b_rest.to_multiset());
        lemma_closes_of_multiset(a_rest, b_rest);
        assert(closes_of(a) =~= closes_of(a_rest).push(q.close));
        assert(closes_of(b) =~= closes_of(b_rest).insert(j, q.close));
        vstd::seq_lib::to_multiset_insert(closes_of(b_rest), j, q.close);
    }
}

/// Handles one result. There is nothing to show for a result without
/// quotes; for any other the quotes are sorted by time first.
pub fn digest<P: Copy>(result: &QuoteResult<P>) -> (digest: Option<Digest<P>>)
    ensures
        digest_view(digest) == digest_of(result@),
        digest is None <==> result@.quotes.len() == 0,
{
    if result.quotes.len() == 0 {
        return None;
    }
    let sorted = sort_by_time(&result.quotes);
    proof {
        lemma_time_sorted_sorts(result@.quotes);
    }
    let mut closes: Vec<P> = Vec::new();
    let mut i: usize = 0;
    while i < sorted.len()
        invariant
            i <= sorted@.len(),
            closes@ == closes_of(sorted@.take(i as int)),
        decreases sorted@.len() - i,
    {
        closes.push(sorted[i].close);
        proof {
            assert(sorted@.take(i + 1) == sorted@.take(i as int).push(sorted@[i as int]));
            assert(closes@ =~= closes_of(sorted@.take(i + 1)));
        }
        i = i + 1;
    }
    assert(sorted@.take(i as int) == sorted@);
    let last: Quote<P> = sorted[sorted.len() - 1];
    Some(
        Digest {
            symbol: result.symbol.clone(),
            last_date: last.timestamp,
            last_price: last.close,
            closes,
        },
    )
}

} // verus!
