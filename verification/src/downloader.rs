//! The downloader: exactly one result for every request, whatever became of
//! the fetch.
//!
//! The fetch itself is the caller's business. It is made for the symbol and
//! the period of the request, at [`FETCH_INTERVAL`], and its outcome is
//! handed in: the quotes, or the text of what went wrong. A failure never
//! goes further than this: it becomes a result without quotes, and a warning
//! for the operator.

use vstd::prelude::*;
use vstd::string::*;
use crate::bus::{delivered, Bus, BusError, BusView};
use crate::quote::{Quote, QuoteRequest, QuoteRequestView, QuoteResult, QuoteResultView};

verus! {

/// The spacing of the quotes that are asked for.
pub const FETCH_INTERVAL: &'static str = "1h";

/// What a fetch gave, as contracts speak of it: the quotes, or the text of
/// the failure.
pub open spec fn outcome_view<P>(outcome: Result<Vec<Quote<P>>, String>) -> Result<
    Seq<Quote<P>>,
    Seq<char>,
> {
    match outcome {
        Ok(quotes) => Ok(quotes@),
        Err(error) => Err(error@),
    }
}

/// The result that answers `request`: the quotes that were fetched, or none
/// where the fetch failed.
pub open spec fn result_of<P>(
    request: QuoteRequestView,
    outcome: Result<Seq<Quote<P>>, Seq<char>>,
) -> QuoteResultView<P> {
    QuoteResultView {
        symbol: request.symbol,
        quotes: match outcome {
            Ok(quotes) => quotes,
            Err(_) => Seq::empty(),
        },
    }
}

/// The warning about a fetch for `symbol` that failed with `error`.
pub open spec fn warning_text(symbol: Seq<char>, error: Seq<char>) -> Seq<char> {
    "No quotes found for symbol '"@ + symbol + "': "@ + error
}

/// The warning that the outcome of a fetch calls for: one for a failure, none
/// otherwise.
pub open spec fn warning_of<P>(
    request: QuoteRequestView,
    outcome: Result<Seq<Quote<P>>, Seq<char>>,
) -> Option<Seq<char>> {
    match outcome {
        Ok(_) => None,
        Err(error) => Some(warning_text(request.symbol, error)),
    }
}

/// The text of an optional warning.
pub open spec fn warning_view(warning: Option<String>) -> Option<Seq<char>> {
    match warning {
        Some(text) => Some(text@),
        None => None,
    }
}

/// What the downloader makes of one fetch.
pub struct Fetched<P> {
    /// The result to publish.
    pub result: QuoteResult<P>,
    /// The line for the operator, where the fetch failed.
    pub warning: Option<String>,
}

/// Turns the outcome of the fetch for `request` into the result to publish
/// and, for a failure, the warning to show.
pub fn conclude<P>(request: &QuoteRequest, outcome: Result<Vec<Quote<P>>, String>) -> (fetched:
    Fetched<P>)
    ensures
        fetched.result@ == result_of(request@, outcome_view(outcome)),
        warning_view(fetched.warning) == warning_of(request@, outcome_view(outcome)),
{
    match outcome {
        Ok(quotes) => Fetched {
            result: QuoteResult { symbol: request.symbol.clone(), quotes },
            warning: None,
        },
        Err(error) => {
            let mut text = String::from_str("No quotes found for symbol '");
            text.append(request.symbol.as_str());
            text.append("': ");
            text.append(error.as_str());
            Fetched {
                result: QuoteResult { symbol: request.symbol.clone(), quotes: Vec::new() },
                warning: Some(text),
            }
        },
    }
}

/// What became of one handled request.
pub struct Handled {
    /// The line for the operator, where the fetch failed.
    pub warning: Option<String>,
    /// Whether the bus took the result.
    pub delivery: Result<(), BusError>,
}

/// The bus after the result for `request` has been published on it. A bus
/// that was shut down stays as it is.
pub open spec fn handled_bus<P>(
    bus: BusView<P>,
    request: QuoteRequestView,
    outcome: Result<Seq<Quote<P>>, Seq<char>>,
) -> BusView<P> {
    if bus.open {
        BusView { results: delivered(bus.results, seq![result_of(request, outcome)]), ..bus }
    } else {
        bus
    }
}

/// Handles one request whose fetch has ended: publishes its result, once,
/// whether the fetch succeeded or not.
pub fn handle<P: Copy>(
    bus: &mut Bus<P>,
    request: &QuoteRequest,
    outcome: Result<Vec<Quote<P>>, String>,
) -> (handled: Handled)
    ensures
        final(bus)@ == handled_bus(old(bus)@, request@, outcome_view(outcome)),
        warning_view(handled.warning) == warning_of(request@, outcome_view(outcome)),
        old(bus)@.open ==> handled.delivery == Ok::<(), BusError>(()),
        !old(bus)@.open ==> handled.delivery == Err::<(), BusError>(BusError::Closed),
{
    let fetched = conclude(request, outcome);
    let delivery = bus.publish_result(&fetched.result);
    Handled { warning: fetched.warning, delivery }
}

} // verus!
