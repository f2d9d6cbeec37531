//! The scheduler: on every tick, one quote request for each symbol.
//!
//! The scheduler runs until the bus refuses a request. From then on it is
//! stopped for good, and a tick does nothing.

use vstd::prelude::*;
use crate::bus::{delivered, Bus, BusView};
use crate::quote::{QuoteRequest, QuoteRequestView};

verus! {

/// The seconds between two ticks.
pub const TICK_SECONDS: u64 = 10;

/// Whether the scheduler still publishes.
#[derive(Clone, Copy, Debug, PartialEq, Eq)]
pub enum SchedulerState {
    Running,
    /// The bus has refused a request. Nothing leads out of this state.
    Stopped,
}

/// Publishes the quote requests of each tick for a set of symbols that is
/// fixed once and for all, as is the start of the period asked for.
pub struct Scheduler {
    symbols: Vec<String>,
    from: i64,
    state: SchedulerState,
}

/// What a [`Scheduler`] holds.
pub struct SchedulerView {
    pub symbols: Seq<Seq<char>>,
    pub from: int,
    pub state: SchedulerState,
}

/// The text of each symbol.
pub open spec fn symbol_texts(symbols: Seq<String>) -> Seq<Seq<char>> {
    symbols.map_values(|s: String| s@)
}

/// The requests of one tick: one for each symbol, in the order of the
/// symbols, from the fixed start up to the time of the tick.
pub open spec fn tick_requests(symbols: Seq<Seq<char>>, from: int, now: int) -> Seq<
    QuoteRequestView,
> {
    Seq::new(symbols.len(), |i: int| QuoteRequestView { symbol: symbols[i], from, to: now })
}

/// The scheduler and the bus after a tick at `now`.
///
/// A stopped scheduler leaves everything as it is. A running one hands its
/// requests to an open bus; a bus that was shut down refuses the first of
/// them, which stops the scheduler before anything is published.
pub open spec fn ticked<P>(scheduler: SchedulerView, bus: BusView<P>, now: int) -> (
    SchedulerView,
    BusView<P>,
) {
    if scheduler.state is Stopped {
        (scheduler, bus)
    } else if bus.open {
        (
            scheduler,
            BusView {
                requests: delivered(
                    bus.requests,
                    tick_requests(scheduler.symbols, scheduler.from, now),
                ),
                ..bus
            },
        )
    } else if scheduler.symbols.len() == 0 {
        (scheduler, bus)
    } else {
        (SchedulerView { state: SchedulerState::Stopped, ..scheduler }, bus)
    }
}

/// How many requests a tick at `now` publishes.
pub open spec fn ticked_count<P>(scheduler: SchedulerView, bus: BusView<P>) -> nat {
    if scheduler.state is Running && bus.open {
        scheduler.symbols.len()
    } else {
        0
    }
}

/// A stopped scheduler stays stopped and publishes nothing, whatever the bus
/// and the time.
pub proof fn lemma_stopped_is_final<P>(scheduler: SchedulerView, bus: BusView<P>, now: int)
    requires
        scheduler.state is Stopped,
    ensures
        ticked(scheduler, bus, now) == (scheduler, bus),
        ticked_count(scheduler, bus) == 0,
{
}

/// Once the bus has refused a tick, no later tick publishes anything, not
/// even to another bus.
pub proof fn lemma_refusal_halts<P>(
    scheduler: SchedulerView,
    bus: BusView<P>,
    now: int,
    later_bus: BusView<P>,
    later: int,
)
    requires
        scheduler.state is Running,
        !bus.open,
        scheduler.symbols.len() > 0,
    ensures
        ticked(scheduler, bus, now).1 == bus,
        ticked(ticked(scheduler, bus, now).0, later_bus, later) == (
            ticked(scheduler, bus, now).0,
            later_bus,
        ),
{
}

impl View for Scheduler {
    type V = SchedulerView;

    closed spec fn view(&self) -> SchedulerView {
        SchedulerView {
            symbols: symbol_texts(self.symbols@),
            from: self.from as int,
            state: self.state,
        }
    }
}

impl Scheduler {
    /// A running scheduler for `symbols`, which asks for quotes from `from`
    /// on, counted in seconds since the Unix epoch.
    pub fn new(symbols: Vec<String>, from: i64) -> (scheduler: Self)
        ensures
            scheduler@ == (SchedulerView {
                symbols: symbol_texts(symbols@),
                from: from as int,
                state: SchedulerState::Running,
            }),
    {
        Scheduler { symbols, from, state: SchedulerState::Running }
    }

    /// Whether the scheduler still publishes.
    pub fn state(&self) -> (state: SchedulerState)
        ensures
            state == self@.state,
    {
        self.state
    }

    /// Whether the scheduler still publishes.
    pub fn is_running(&self) -> (running: bool)
        ensures
            running == (self@.state is Running),
    {
        match self.state {
            SchedulerState::Running => true,
            SchedulerState::Stopped => false,
        }
    }

    /// One tick at `now`, counted in seconds since the Unix epoch: publishes
    /// a request for each symbol, in the order of the symbols, and returns
    /// how many it published. The first refusal of the bus stops the
    /// scheduler and leaves the remaining symbols out.
    pub fn tick<P: Copy>(&mut self, bus: &mut Bus<P>, now: i64) -> (sent: usize)
        ensures
            (final(self)@, final(bus)@) == ticked(old(self)@, old(bus)@, now as int),
            sent == ticked_count(old(self)@, old(bus)@),
    {
        if !self.is_running() {
            return 0;
        }
        let ghost symbols = symbol_texts(self.symbols@);
        let ghost all = tick_requests(symbols, self.from as int, now as int);
        let mut i: usize = 0;
        proof {
            assert(bus@.requests =~~= delivered(old(bus)@.requests, all.take(0)));
        }
        while i < self.symbols.len()
            invariant
                i <= self.symbols@.len(),
                *self == *old(self),
                self.state is Running,
                symbols == symbol_texts(self.symbols@),
                all == tick_requests(symbols, self.from as int, now as int),
                i > 0 ==> old(bus)@.open,
                bus@ == (BusView {
                    requests: delivered(old(bus)@.requests, all.take(i as int)),
                    ..old(bus)@
                }),
            decreases self.symbols@.len() - i,
        {
            let request = QuoteRequest {
                symbol: self.symbols[i].clone(),
                from: self.from,
                to: now,
            };
            assert(request@ == all[i as int]);
            match bus.publish_request(&request) {
                Ok(()) => {},
                Err(_) => {
                    proof {
                        assert(delivered(old(bus)@.requests, all.take(0)) =~~= old(bus)@.requests);
                    }
                    self.state = SchedulerState::Stopped;
                    return i;
                },
            }
            proof {
                assert(all.take(i + 1) =~= all.take(i as int).push(all[i as int]));
                assert(delivered(
                    delivered(old(bus)@.requests, all.take(i as int)),
                    seq![all[i as int]],
                ) =~~= delivered(old(bus)@.requests, all.take(i + 1)));
            }
            i = i + 1;
        }
        proof {
            assert(all.take(i as int) =~= all);
            if !old(bus)@.open {
                assert(delivered(old(bus)@.requests, all) =~~= old(bus)@.requests);
            }
        }
        i
    }
}

} // verus!
