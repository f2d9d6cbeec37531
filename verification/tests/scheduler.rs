use stock_tracker::bus::Bus;
use stock_tracker::quote::QuoteRequest;
use stock_tracker::scheduler::{Scheduler, SchedulerState, TICK_SECONDS};

fn symbols(names: &[&str]) -> Vec<String> {
    names.iter().map(|s| s.to_string()).collect()
}

fn drain(bus: &mut Bus<f64>, subscriber: usize) -> Vec<QuoteRequest> {
    let mut out = Vec::new();
    while let Some(r) = bus.next_request(subscriber) {
        out.push(r);
    }
    out
}

#[test]
fn ticks_are_ten_seconds_apart() {
    assert_eq!(TICK_SECONDS, 10);
}

#[test]
fn new_scheduler_runs() {
    let scheduler = Scheduler::new(symbols(&["AAPL"]), 0);
    assert!(scheduler.is_running());
    assert_eq!(scheduler.state(), SchedulerState::Running);
}

#[test]
fn tick_publishes_one_request_per_symbol_in_order() {
    let mut bus: Bus<f64> = Bus::new();
    let inbox = bus.subscribe_requests();
    let mut scheduler = Scheduler::new(symbols(&["AAPL", "MSFT", "UBER", "GOOG"]), 1_000);
    assert_eq!(scheduler.tick(&mut bus, 2_000), 4);
    assert!(scheduler.is_running());
    let expected: Vec<QuoteRequest> = ["AAPL", "MSFT", "UBER", "GOOG"]
        .iter()
        .map(|s| QuoteRequest { symbol: s.to_string(), from: 1_000, to: 2_000 })
        .collect();
    assert_eq!(drain(&mut bus, inbox), expected);
}

#[test]
fn every_tick_keeps_the_start_and_moves_the_end() {
    let mut bus: Bus<f64> = Bus::new();
    let inbox = bus.subscribe_requests();
    let mut scheduler = Scheduler::new(symbols(&["AAPL"]), -5);
    assert_eq!(scheduler.tick(&mut bus, 10), 1);
    assert_eq!(scheduler.tick(&mut bus, 20), 1);
    assert_eq!(
        drain(&mut bus, inbox),
        vec![
            QuoteRequest { symbol: "AAPL".to_string(), from: -5, to: 10 },
            QuoteRequest { symbol: "AAPL".to_string(), from: -5, to: 20 },
        ]
    );
}

#[test]
fn symbols_are_case_sensitive() {
    let mut bus: Bus<f64> = Bus::new();
    let inbox = bus.subscribe_requests();
    let mut scheduler = Scheduler::new(symbols(&["aapl", "AAPL"]), 0);
    assert_eq!(scheduler.tick(&mut bus, 1), 2);
    let sent = drain(&mut bus, inbox);
    assert_eq!(sent[0].symbol, "aapl");
    assert_eq!(sent[1].symbol, "AAPL");
}

#[test]
fn refusal_stops_the_scheduler() {
    let mut bus: Bus<f64> = Bus::new();
    let inbox = bus.subscribe_requests();
    let mut scheduler = Scheduler::new(symbols(&["AAPL", "MSFT"]), 0);
    assert_eq!(scheduler.tick(&mut bus, 10), 2);
    assert_eq!(drain(&mut bus, inbox).len(), 2);
    bus.shut_down();
    assert_eq!(scheduler.tick(&mut bus, 20), 0);
    assert!(!scheduler.is_running());
    assert_eq!(scheduler.state(), SchedulerState::Stopped);
    assert_eq!(drain(&mut bus, inbox), Vec::new());
}

#[test]
fn stopped_scheduler_publishes_nothing_more() {
    let mut closed: Bus<f64> = Bus::new();
    closed.shut_down();
    let mut scheduler = Scheduler::new(symbols(&["AAPL", "MSFT"]), 0);
    assert_eq!(scheduler.tick(&mut closed, 10), 0);
    assert_eq!(scheduler.state(), SchedulerState::Stopped);
    let mut open: Bus<f64> = Bus::new();
    let inbox = open.subscribe_requests();
    assert_eq!(scheduler.tick(&mut open, 20), 0);
    assert_eq!(scheduler.tick(&mut open, 30), 0);
    assert_eq!(scheduler.state(), SchedulerState::Stopped);
    assert_eq!(drain(&mut open, inbox), Vec::new());
}

#[test]
fn scheduler_without_symbols_never_stops() {
    let mut closed: Bus<f64> = Bus::new();
    closed.shut_down();
    let mut scheduler = Scheduler::new(Vec::new(), 0);
    assert_eq!(scheduler.tick(&mut closed, 10), 0);
    assert!(scheduler.is_running());
}
