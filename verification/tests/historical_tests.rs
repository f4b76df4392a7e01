//! Historical data types: request encoding and bar parsing.

use ibkr::contract::Contract;
use ibkr::historical::{BarData, BarSize, DateFormat, Duration, HistoricalDataRequest, WhatToShow};
use ibkr::wire::FieldIterator;

#[test]
fn test_bar_size_str() {
    assert_eq!(BarSize::Min5.as_str(), "5 mins");
    assert_eq!(BarSize::Hour1.as_str(), "1 hour");
    assert_eq!(BarSize::Day1.as_str(), "1 day");
}

#[test]
fn test_duration_str() {
    assert_eq!(Duration::Days(1).as_string(), "1 D");
    assert_eq!(Duration::Weeks(2).as_string(), "2 W");
    assert_eq!(Duration::Seconds(300).as_string(), "300 S");
}

#[test]
fn test_request_encode() {
    let contract = Contract::stock("AAPL", "SMART", "USD");
    let request = HistoricalDataRequest::new(1, contract)
        .duration(Duration::Days(5))
        .bar_size(BarSize::Hour1);

    let encoded = request.encode();

    // Should start with message ID
    assert!(encoded.starts_with("20\0"));
    // Should contain contract
    assert!(encoded.contains("AAPL\0"));
    // Should contain bar size
    assert!(encoded.contains("1 hour\0"));
    // Should contain duration
    assert!(encoded.contains("5 D\0"));
}

#[test]
fn request_encodes_exactly() {
    let contract = Contract::stock("MSFT", "SMART", "USD");
    let request = HistoricalDataRequest::new(1001, contract)
        .duration(Duration::Weeks(1))
        .bar_size(BarSize::Day1)
        .what_to_show(WhatToShow::Trades)
        .use_rth(true);
    assert_eq!(
        request.encode(),
        "20\x001001\x000\0MSFT\0STK\0\0\0\0\0SMART\0\0USD\0\0\0\
         0\0\x001 day\x001 W\x001\0TRADES\x001\x000\0\0"
    );
}

#[test]
fn request_builders_set_fields() {
    let request = HistoricalDataRequest::new(7, Contract::stock("IBM", "NYSE", "USD"))
        .end_date_time("20240105 16:00:00 US/Eastern")
        .duration(Duration::Months(3))
        .bar_size(BarSize::Min15)
        .what_to_show(WhatToShow::Midpoint)
        .use_rth(false)
        .format_date(DateFormat::Unix)
        .keep_up_to_date(true);
    assert_eq!(request.req_id, 7);
    assert_eq!(request.end_date_time, "20240105 16:00:00 US/Eastern");
    assert_eq!(request.duration, Duration::Months(3));
    assert_eq!(request.bar_size, BarSize::Min15);
    assert_eq!(request.what_to_show, WhatToShow::Midpoint);
    assert!(!request.use_rth);
    assert_eq!(request.format_date, DateFormat::Unix);
    assert!(request.keep_up_to_date);
    let encoded = request.encode();
    assert!(encoded.contains("20240105 16:00:00 US/Eastern\0"));
    assert!(encoded.contains("MIDPOINT\0"));
    assert!(encoded.contains("2\0")); // unix date format code
}

#[test]
fn duration_text_covers_every_unit() {
    assert_eq!(Duration::Seconds(0).as_string(), "0 S");
    assert_eq!(Duration::Days(365).as_string(), "365 D");
    assert_eq!(Duration::Weeks(52).as_string(), "52 W");
    assert_eq!(Duration::Months(12).as_string(), "12 M");
    assert_eq!(Duration::Years(10).as_string(), "10 Y");
}

#[test]
fn date_format_codes() {
    assert_eq!(DateFormat::Text.as_i32(), 1);
    assert_eq!(DateFormat::Unix.as_i32(), 2);
}

#[test]
fn what_to_show_text() {
    assert_eq!(WhatToShow::Trades.as_str(), "TRADES");
    assert_eq!(WhatToShow::BidAsk.as_str(), "BID_ASK");
    assert_eq!(WhatToShow::OptionImpliedVolatility.as_str(), "OPTION_IMPLIED_VOLATILITY");
}

#[test]
fn bar_parses_from_fields() {
    let buf = b"20240101\x00185.5\x00187.2\x00184.1\x00186.9\x001000000\x00186.0\x0042\x00";
    let mut fields = FieldIterator::new(buf);
    let bar = BarData::parse(&mut fields).unwrap();
    assert_eq!(bar.date, "20240101");
    assert_eq!(bar.open, "185.5");
    assert_eq!(bar.high, "187.2");
    assert_eq!(bar.low, "184.1");
    assert_eq!(bar.close, "186.9");
    assert_eq!(bar.volume, "1000000");
    assert_eq!(bar.wap, "186.0");
    assert_eq!(bar.bar_count, 42);
    assert!(BarData::parse(&mut fields).is_none());
}

#[test]
fn truncated_bar_degrades_to_defaults() {
    let buf = b"20240101\x00185.5\x00";
    let mut fields = FieldIterator::new(buf);
    let bar = BarData::parse(&mut fields).unwrap();
    assert_eq!(bar.date, "20240101");
    assert_eq!(bar.open, "185.5");
    assert_eq!(bar.high, "");
    assert_eq!(bar.bar_count, 0);
}
