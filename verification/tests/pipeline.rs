use stock_tracker::bus::Bus;
use stock_tracker::calendar::date_text;
use stock_tracker::downloader::handle;
use stock_tracker::processor::{digest, Digest, SMA_WINDOW};
use stock_tracker::quote::{Quote, QuoteRequest};
use stock_tracker::row::{render, Row};
use stock_tracker::scheduler::Scheduler;
use stock_tracker::series::{endpoints, windows};

fn lowest(series: &[f64]) -> Option<f64> {
    if series.is_empty() {
        None
    } else {
        Some(series.iter().fold(f64::MAX, |acc, q| acc.min(*q)))
    }
}

fn highest(series: &[f64]) -> Option<f64> {
    if series.is_empty() {
        None
    } else {
        Some(series.iter().fold(f64::MIN, |acc, q| acc.max(*q)))
    }
}

fn relative_change(series: &[f64]) -> f64 {
    match endpoints(series) {
        Some((first, last)) => (last - first) / if *first == 0.0 { 1.0 } else { *first },
        None => 0.0,
    }
}

fn latest_average(series: &[f64]) -> f64 {
    windows(SMA_WINDOW, series)
        .and_then(|found| found.last().map(|w| w.iter().sum::<f64>() / w.len() as f64))
        .unwrap_or(0.0)
}

fn row_of(digest: &Digest<f64>) -> Row {
    Row {
        date: date_text(digest.last_date).unwrap(),
        symbol: digest.symbol.clone(),
        price: format!("{:.2}", digest.last_price),
        change: format!("{:.2}", relative_change(&digest.closes) * 100.0),
        min: format!("{:.2}", lowest(&digest.closes).unwrap_or(0.0)),
        max: format!("{:.2}", highest(&digest.closes).unwrap_or(0.0)),
        average: format!("{:.2}", latest_average(&digest.closes)),
    }
}

fn stub_fetch(request: &QuoteRequest) -> Result<Vec<Quote<f64>>, String> {
    match request.symbol.as_str() {
        "AAPL" => Ok(vec![
            Quote { timestamp: 1000, close: 100.0 },
            Quote { timestamp: 2000, close: 110.0 },
        ]),
        "MSFT" => Ok(vec![
            Quote { timestamp: 2000, close: 50.0 },
            Quote { timestamp: 1000, close: 40.0 },
        ]),
        other => Err(format!("no such symbol {}", other)),
    }
}

fn run_tick(
    scheduler: &mut Scheduler,
    bus: &mut Bus<f64>,
    downloader: usize,
    processor: usize,
    now: i64,
) -> (Vec<String>, Vec<String>) {
    let mut lines = Vec::new();
    let mut warnings = Vec::new();
    scheduler.tick(bus, now);
    while let Some(request) = bus.next_request(downloader) {
        let handled = handle(bus, &request, stub_fetch(&request));
        if let Some(warning) = handled.warning {
            warnings.push(warning);
        }
    }
    while let Some(result) = bus.next_result(processor) {
        if let Some(found) = digest(&result) {
            lines.push(render(&row_of(&found)));
        }
    }
    (lines, warnings)
}

fn symbols(names: &[&str]) -> Vec<String> {
    names.iter().map(|s| s.to_string()).collect()
}

#[test]
fn one_symbol_one_tick_one_line() {
    let mut bus: Bus<f64> = Bus::new();
    let downloader = bus.subscribe_requests();
    let processor = bus.subscribe_results();
    let mut scheduler = Scheduler::new(symbols(&["AAPL"]), 0);
    let (lines, warnings) = run_tick(&mut scheduler, &mut bus, downloader, processor, 3000);
    assert_eq!(lines, vec!["1970-01-01T00:33:20+00:00,AAPL,$110.00,10.00%,$100.00,$110.00,$0.00"]);
    assert_eq!(warnings, Vec::<String>::new());
    assert!(lines[0].contains("AAPL"));
    assert!(lines[0].contains("$110.00"));
    assert!(lines[0].contains("10.00%"));
    assert!(lines[0].contains("$100.00"));
}

#[test]
fn failed_fetch_leaves_the_other_symbols_alone() {
    let mut bus: Bus<f64> = Bus::new();
    let downloader = bus.subscribe_requests();
    let processor = bus.subscribe_results();
    let mut scheduler = Scheduler::new(symbols(&["AAPL", "NOPE", "MSFT"]), 0);
    let (lines, warnings) = run_tick(&mut scheduler, &mut bus, downloader, processor, 3000);
    assert_eq!(
        lines,
        vec![
            "1970-01-01T00:33:20+00:00,AAPL,$110.00,10.00%,$100.00,$110.00,$0.00",
            "1970-01-01T00:33:20+00:00,MSFT,$50.00,25.00%,$40.00,$50.00,$0.00",
        ]
    );
    assert_eq!(warnings, vec!["No quotes found for symbol 'NOPE': no such symbol NOPE"]);
    assert!(scheduler.is_running());
}

#[test]
fn no_line_after_the_bus_has_failed() {
    let mut bus: Bus<f64> = Bus::new();
    let downloader = bus.subscribe_requests();
    let processor = bus.subscribe_results();
    let mut scheduler = Scheduler::new(symbols(&["AAPL", "MSFT"]), 0);
    let (first, _) = run_tick(&mut scheduler, &mut bus, downloader, processor, 3000);
    assert_eq!(first.len(), 2);
    bus.shut_down();
    let (second, warnings) = run_tick(&mut scheduler, &mut bus, downloader, processor, 3010);
    assert_eq!(second, Vec::<String>::new());
    assert_eq!(warnings, Vec::<String>::new());
    assert!(!scheduler.is_running());
    let (third, _) = run_tick(&mut scheduler, &mut bus, downloader, processor, 3020);
    assert_eq!(third, Vec::<String>::new());
}

#[test]
fn thirty_closes_give_a_moving_average() {
    let quotes: Vec<Quote<f64>> =
        (0..31u64).rev().map(|i| Quote { timestamp: i * 3600, close: i as f64 }).collect();
    let mut bus: Bus<f64> = Bus::new();
    let processor = bus.subscribe_results();
    let request = QuoteRequest { symbol: "UBER".to_string(), from: 0, to: 200_000 };
    assert_eq!(handle(&mut bus, &request, Ok(quotes)).delivery, Ok(()));
    let found = digest(&bus.next_result(processor).unwrap()).unwrap();
    assert_eq!(found.last_date, 108_000);
    assert_eq!(found.last_price, 30.0);
    assert_eq!(
        render(&row_of(&found)),
        "1970-01-02T06:00:00+00:00,UBER,$30.00,3000.00%,$0.00,$30.00,$15.50"
    );
}
