use stock_tracker::symbols::{split_symbols, DEFAULT_SYMBOLS};

#[test]
fn default_list_has_four_symbols() {
    assert_eq!(DEFAULT_SYMBOLS, "AAPL,MSFT,UBER,GOOG");
    assert_eq!(split_symbols(DEFAULT_SYMBOLS), vec!["AAPL", "MSFT", "UBER", "GOOG"]);
}

#[test]
fn list_without_comma_is_one_symbol() {
    assert_eq!(split_symbols("AAPL"), vec!["AAPL"]);
}

#[test]
fn empty_list_is_one_empty_symbol() {
    assert_eq!(split_symbols(""), vec![""]);
}

#[test]
fn empty_pieces_are_kept() {
    assert_eq!(split_symbols(",AAPL,,MSFT,"), vec!["", "AAPL", "", "MSFT", ""]);
    assert_eq!(split_symbols(","), vec!["", ""]);
}

#[test]
fn nothing_is_trimmed() {
    assert_eq!(split_symbols(" AAPL , msft"), vec![" AAPL ", " msft"]);
}

#[test]
fn symbols_beyond_ascii_are_split_by_character() {
    assert_eq!(split_symbols("ÄÖ,€x,日本"), vec!["ÄÖ", "€x", "日本"]);
}

#[test]
fn split_agrees_with_the_standard_split() {
    for list in ["a,b", "", ",", "a,,b,", "no comma", ",x"] {
        let expected: Vec<String> = list.split(',').map(|s| s.to_string()).collect();
        assert_eq!(split_symbols(list), expected);
    }
}

#[test]
fn joining_the_pieces_gives_the_list_back() {
    for list in ["AAPL,MSFT", "", ",,", "a,b,"] {
        assert_eq!(split_symbols(list).join(","), list);
    }
}
