use stock_tracker::calendar::{date_text, parse_start, StartError};

#[test]
fn start_with_zulu_offset() {
    assert_eq!(parse_start("2020-07-02T19:30:00Z"), Ok(1_593_718_200));
}

#[test]
fn start_with_space_and_numeric_offset() {
    assert_eq!(parse_start("2012-12-12 12:12:12+01:00"), Ok(1_355_310_732));
}

#[test]
fn start_at_the_epoch() {
    assert_eq!(parse_start("1970-01-01T00:00:00+00:00"), Ok(0));
}

#[test]
fn start_before_the_epoch() {
    assert_eq!(parse_start("1969-12-31T23:59:59Z"), Ok(-1));
}

#[test]
fn start_without_offset_is_malformed() {
    assert_eq!(parse_start("2020-07-02T19:30:00"), Err(StartError::Malformed));
}

#[test]
fn start_that_is_no_date_is_malformed() {
    assert_eq!(parse_start(""), Err(StartError::Malformed));
    assert_eq!(parse_start("yesterday"), Err(StartError::Malformed));
    assert_eq!(parse_start("2020-13-40T00:00:00Z"), Err(StartError::Malformed));
}

#[test]
fn date_of_a_quote() {
    assert_eq!(date_text(1000), Some("1970-01-01T00:16:40+00:00".to_string()));
    assert_eq!(date_text(1_593_718_200), Some("2020-07-02T19:30:00+00:00".to_string()));
}

#[test]
fn date_at_the_epoch() {
    assert_eq!(date_text(0), Some("1970-01-01T00:00:00+00:00".to_string()));
}

#[test]
fn date_out_of_range_has_no_text() {
    assert_eq!(date_text(u64::MAX), None);
    assert_eq!(date_text(i64::MAX as u64), None);
    assert_eq!(date_text(i64::MAX as u64 + 1), None);
}

#[test]
fn written_date_reads_back() {
    let text = date_text(1_355_310_732).unwrap();
    assert_eq!(parse_start(&text), Ok(1_355_310_732));
}
