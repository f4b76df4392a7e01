//! Contract construction and encoding.

use ibkr::contract::{Contract, OptionRight, SecurityType};

#[test]
fn test_stock_contract() {
    let c = Contract::stock("AAPL", "SMART", "USD");
    assert_eq!(c.symbol, "AAPL");
    assert_eq!(c.sec_type, SecurityType::Stock);
    assert_eq!(c.exchange, "SMART");
    assert_eq!(c.currency, "USD");
}

#[test]
fn test_contract_encode() {
    let c = Contract::stock("AAPL", "SMART", "USD");
    let encoded = c.encode();

    // Should contain null-separated fields
    assert!(encoded.contains("0\0")); // con_id
    assert!(encoded.contains("AAPL\0")); // symbol
    assert!(encoded.contains("STK\0")); // sec_type
    assert!(encoded.contains("SMART\0")); // exchange
    assert!(encoded.contains("USD\0")); // currency
}

#[test]
fn stock_contract_encodes_exactly() {
    let c = Contract::stock("AAPL", "SMART", "USD");
    assert_eq!(
        c.encode(),
        "0\0AAPL\0STK\0\0\0\0\0SMART\0\0USD\0\0\0"
    );
}

#[test]
fn zero_strike_encodes_as_absent_sentinel() {
    let mut c = Contract::stock("AAPL", "SMART", "USD");
    c.sec_type = SecurityType::Option;
    c.strike = "0".to_string();
    c.right = OptionRight::Call;
    // The zero strike becomes the empty token, never literal zero text.
    assert_eq!(
        c.encode(),
        "0\0AAPL\0OPT\0\0\0C\0\0SMART\0\0USD\0\0\0"
    );
    c.strike = "150.5".to_string();
    assert_eq!(
        c.encode(),
        "0\0AAPL\0OPT\0\0150.5\0C\0\0SMART\0\0USD\0\0\0"
    );
}

#[test]
fn forex_contract_defaults() {
    let c = Contract::forex("EUR.USD");
    assert_eq!(c.symbol, "EUR.USD");
    assert_eq!(c.sec_type, SecurityType::Cash);
    assert_eq!(c.exchange, "IDEALPRO");
    assert_eq!(c.currency, "USD");
}

#[test]
fn security_type_text() {
    assert_eq!(SecurityType::Stock.as_str(), "STK");
    assert_eq!(SecurityType::Option.as_str(), "OPT");
    assert_eq!(SecurityType::Future.as_str(), "FUT");
    assert_eq!(SecurityType::Index.as_str(), "IND");
    assert_eq!(SecurityType::Forex.as_str(), "FOREX");
    assert_eq!(SecurityType::Cash.as_str(), "CASH");
    assert_eq!(SecurityType::Cfd.as_str(), "CFD");
    assert_eq!(SecurityType::Bag.as_str(), "BAG");
}

#[test]
fn option_right_text() {
    assert_eq!(OptionRight::Unspecified.as_str(), "");
    assert_eq!(OptionRight::Call.as_str(), "C");
    assert_eq!(OptionRight::Put.as_str(), "P");
}

#[test]
fn default_contract_is_empty() {
    let c = Contract::default();
    assert_eq!(c.con_id, 0);
    assert!(c.symbol.is_empty());
    assert_eq!(c.sec_type, SecurityType::Stock);
    assert_eq!(c.right, OptionRight::Unspecified);
    assert!(!c.include_expired);
}
