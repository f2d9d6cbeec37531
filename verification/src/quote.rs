//! The values that travel through the pipeline.

use vstd::prelude::*;

verus! {

/// One price observation: the closing price `close` at `timestamp`, counted in
/// seconds since the Unix epoch.
#[derive(Debug, PartialEq)]
pub struct Quote<P> {
    pub timestamp: u64,
    pub close: P,
}

impl<P: Copy> Copy for Quote<P> {

}

impl<P: Copy> Clone for Quote<P> {
    fn clone(&self) -> (copy: Self)
        ensures
            copy == *self,
    {
        *self
    }
}

/// A request for the quotes of `symbol` between `from` and `to`, both counted
/// in seconds since the Unix epoch.
#[derive(Debug, PartialEq)]
pub struct QuoteRequest {
    pub symbol: String,
    pub from: i64,
    pub to: i64,
}

/// What a [`QuoteRequest`] states.
pub struct QuoteRequestView {
    pub symbol: Seq<char>,
    pub from: int,
    pub to: int,
}

impl View for QuoteRequest {
    type V = QuoteRequestView;

    open spec fn view(&self) -> QuoteRequestView {
        QuoteRequestView { symbol: self.symbol@, from: self.from as int, to: self.to as int }
    }
}

impl Clone for QuoteRequest {
    fn clone(&self) -> (copy: Self)
        ensures
            copy@ == self@,
    {
        QuoteRequest { symbol: self.symbol.clone(), from: self.from, to: self.to }
    }
}

/// The quotes fetched for `symbol`, in the order the provider gave them. An
/// empty sequence stands for a fetch that failed or found nothing.
#[derive(Debug, PartialEq)]
pub struct QuoteResult<P> {
    pub symbol: String,
    pub quotes: Vec<Quote<P>>,
}

/// What a [`QuoteResult`] holds.
pub struct QuoteResultView<P> {
    pub symbol: Seq<char>,
    pub quotes: Seq<Quote<P>>,
}

impl<P> View for QuoteResult<P> {
    type V = QuoteResultView<P>;

    open spec fn view(&self) -> QuoteResultView<P> {
        QuoteResultView { symbol: self.symbol@, quotes: self.quotes@ }
    }
}

impl<P: Copy> Clone for QuoteResult<P> {
    fn clone(&self) -> (copy: Self)
        ensures
            copy@ == self@,
    {
        let mut quotes: Vec<Quote<P>> = Vec::new();
        let mut i: usize = 0;
        while i < self.quotes.len()
            invariant
                i <= self.quotes@.len(),
                quotes@ == self.quotes@.take(i as int),
            decreases self.quotes@.len() - i,
        {
            quotes.push(self.quotes[i]);
            i = i + 1;
        }
        assert(quotes@ == self.quotes@);
        QuoteResult { symbol: self.symbol.clone(), quotes }
    }
}

} // verus!
