//! Contract descriptions of tradeable instruments.
//!
//! A contract is pure data; its only behaviour is encoding itself as the
//! ordered field sequence every request embeds.  A strike price travels as
//! decimal text, with the empty token as the absent-value sentinel: a zero
//! strike is encoded as the empty token, never as literal zero text.

use vstd::prelude::*;
use vstd::string::StrSliceExecFns;

use crate::text::{i32_text, spec_i32_text};
use crate::wire::{make_message, spec_message, str_views};

verus! {

/// Security type identifiers.
#[derive(Debug, Clone, Copy, PartialEq, Eq, Structural)]
pub enum SecurityType {
    /// Stock or ETF
    Stock,
    /// Option
    Option,
    /// Future
    Future,
    /// Index
    Index,
    /// Forex pair
    Forex,
    /// Cash (for forex)
    Cash,
    /// Contract for difference
    Cfd,
    /// Combo/spread
    Bag,
}

/// The wire text of a security type.
pub open spec fn sec_type_text(t: SecurityType) -> Seq<char> {
    match t {
        SecurityType::Stock => "STK"@,
        SecurityType::Option => "OPT"@,
        SecurityType::Future => "FUT"@,
        SecurityType::Index => "IND"@,
        SecurityType::Forex => "FOREX"@,
        SecurityType::Cash => "CASH"@,
        SecurityType::Cfd => "CFD"@,
        SecurityType::Bag => "BAG"@,
    }
}

impl SecurityType {
    pub fn as_str(&self) -> (r: &'static str)
        ensures
            r@ == sec_type_text(*self),
    {
        match self {
            Self::Stock => "STK",
            Self::Option => "OPT",
            Self::Future => "FUT",
            Self::Index => "IND",
            Self::Forex => "FOREX",
            Self::Cash => "CASH",
            Self::Cfd => "CFD",
            Self::Bag => "BAG",
        }
    }
}

impl Default for SecurityType {
    fn default() -> (r: Self)
        ensures
            r == SecurityType::Stock,
    {
        SecurityType::Stock
    }
}

/// Option right: call, put, or none for instruments without one.
#[derive(Debug, Clone, Copy, PartialEq, Eq, Structural)]
pub enum OptionRight {
    /// No right: the instrument is not an option.
    Unspecified,
    Call,
    Put,
}

/// The wire text of an option right; the empty token when unspecified.
pub open spec fn right_text(t: OptionRight) -> Seq<char> {
    match t {
        OptionRight::Unspecified => Seq::empty(),
        OptionRight::Call => "C"@,
        OptionRight::Put => "P"@,
    }
}

impl OptionRight {
    pub fn as_str(&self) -> (r: &'static str)
        ensures
            r@ == right_text(*self),
    {
        proof {
            reveal_strlit("");
        }
        match self {
            Self::Unspecified => "",
            Self::Call => "C",
            Self::Put => "P",
        }
    }
}

impl Default for OptionRight {
    fn default() -> (r: Self)
        ensures
            r == OptionRight::Unspecified,
    {
        OptionRight::Unspecified
    }
}

/// Contract specification for a tradeable instrument.
///
/// All price-like values are carried as their decimal wire text; the empty
/// string stands for an absent value.
#[derive(Debug, Clone)]
pub struct Contract {
    /// Gateway contract identifier (0 if unspecified)
    pub con_id: i32,
    /// Ticker symbol
    pub symbol: String,
    /// Security type
    pub sec_type: SecurityType,
    /// Expiration date for derivatives (YYYYMMDD or YYYYMM)
    pub last_trade_date: String,
    /// Strike price for options, as decimal text; empty when absent
    pub strike: String,
    /// Option right (call/put)
    pub right: OptionRight,
    /// Contract multiplier for derivatives
    pub multiplier: String,
    /// Exchange (e.g., "SMART", "NYSE", "NASDAQ")
    pub exchange: String,
    /// Primary exchange for SMART routing
    pub primary_exchange: String,
    /// Currency (e.g., "USD")
    pub currency: String,
    /// Local exchange symbol
    pub local_symbol: String,
    /// Trading class
    pub trading_class: String,
    /// Include expired contracts in searches
    pub include_expired: bool,
}

/// The strike field a contract sends: a zero or absent strike becomes the
/// empty absent-value token.
pub open spec fn strike_text(c: &Contract) -> Seq<char> {
    if c.strike@ == seq!['0'] {
        Seq::empty()
    } else {
        c.strike@
    }
}

/// The ordered field sequence of a contract, as embedded in request payloads.
pub open spec fn spec_contract_fields(c: &Contract) -> Seq<Seq<char>> {
    seq![
        spec_i32_text(c.con_id as int),
        c.symbol@,
        sec_type_text(c.sec_type),
        c.last_trade_date@,
        strike_text(c),
        right_text(c.right),
        c.multiplier@,
        c.exchange@,
        c.primary_exchange@,
        c.currency@,
        c.local_symbol@,
        c.trading_class@,
    ]
}

/// Whether a string is exactly the text "0".
fn is_zero_text(s: &str) -> (r: bool)
    ensures
        r == (s@ == seq!['0']),
{
    if s.unicode_len() == 1 {
        let c = s.get_char(0);
        if c == '0' {
            proof {
                assert(s@ =~= seq!['0']);
            }
            true
        } else {
            false
        }
    } else {
        false
    }
}

impl Contract {
    /// A stock contract on the given exchange, in the given currency.
    pub fn stock(symbol: &str, exchange: &str, currency: &str) -> (r: Self)
        ensures
            r.con_id == 0,
            r.symbol@ == symbol@,
            r.sec_type == SecurityType::Stock,
            r.last_trade_date@ == Seq::<char>::empty(),
            r.strike@ == Seq::<char>::empty(),
            r.right == OptionRight::Unspecified,
            r.multiplier@ == Seq::<char>::empty(),
            r.exchange@ == exchange@,
            r.primary_exchange@ == Seq::<char>::empty(),
            r.currency@ == currency@,
            r.local_symbol@ == Seq::<char>::empty(),
            r.trading_class@ == Seq::<char>::empty(),
            r.include_expired == false,
    {
        Contract {
            con_id: 0,
            symbol: symbol.to_owned(),
            sec_type: SecurityType::Stock,
            last_trade_date: String::new(),
            strike: String::new(),
            right: OptionRight::Unspecified,
            multiplier: String::new(),
            exchange: exchange.to_owned(),
            primary_exchange: String::new(),
            currency: currency.to_owned(),
            local_symbol: String::new(),
            trading_class: String::new(),
            include_expired: false,
        }
    }

    /// A forex contract, routed to the IDEALPRO exchange in USD.
    pub fn forex(pair: &str) -> (r: Self)
        ensures
            r.con_id == 0,
            r.symbol@ == pair@,
            r.sec_type == SecurityType::Cash,
            r.last_trade_date@ == Seq::<char>::empty(),
            r.strike@ == Seq::<char>::empty(),
            r.right == OptionRight::Unspecified,
            r.multiplier@ == Seq::<char>::empty(),
            r.exchange@ == "IDEALPRO"@,
            r.primary_exchange@ == Seq::<char>::empty(),
            r.currency@ == "USD"@,
            r.local_symbol@ == Seq::<char>::empty(),
            r.trading_class@ == Seq::<char>::empty(),
            r.include_expired == false,
    {
        Contract {
            con_id: 0,
            symbol: pair.to_owned(),
            sec_type: SecurityType::Cash,
            last_trade_date: String::new(),
            strike: String::new(),
            right: OptionRight::Unspecified,
            multiplier: String::new(),
            exchange: "IDEALPRO".to_owned(),
            primary_exchange: String::new(),
            currency: "USD".to_owned(),
            local_symbol: String::new(),
            trading_class: String::new(),
            include_expired: false,
        }
    }

    /// The contract's ordered fields, ready to embed in a request payload.
    pub fn encode_fields(&self) -> (r: Vec<String>)
        ensures
            str_views(r@) == spec_contract_fields(self),
    {
        let mut f: Vec<String> = Vec::new();
        f.push(i32_text(self.con_id));
        f.push(self.symbol.clone());
        f.push(self.sec_type.as_str().to_owned());
        f.push(self.last_trade_date.clone());
        if is_zero_text(self.strike.as_str()) {
            f.push(String::new());
        } else {
            f.push(self.strike.clone());
        }
        f.push(self.right.as_str().to_owned());
        f.push(self.multiplier.clone());
        f.push(self.exchange.clone());
        f.push(self.primary_exchange.clone());
        f.push(self.currency.clone());
        f.push(self.local_symbol.clone());
        f.push(self.trading_class.clone());
        proof {
            assert(str_views(f@) =~= spec_contract_fields(self));
        }
        f
    }

    /// Encode the contract as its NUL-terminated field run.
    pub fn encode(&self) -> (r: String)
        ensures
            r@ == spec_message(spec_contract_fields(self)),
    {
        let f = self.encode_fields();
        make_message(f.as_slice())
    }
}

impl Default for Contract {
    /// An empty contract: every text field empty, every flag off.
    fn default() -> (r: Self)
        ensures
            r.con_id == 0,
            r.symbol@ == Seq::<char>::empty(),
            r.sec_type == SecurityType::Stock,
            r.last_trade_date@ == Seq::<char>::empty(),
            r.strike@ == Seq::<char>::empty(),
            r.right == OptionRight::Unspecified,
            r.multiplier@ == Seq::<char>::empty(),
            r.exchange@ == Seq::<char>::empty(),
            r.primary_exchange@ == Seq::<char>::empty(),
            r.currency@ == Seq::<char>::empty(),
            r.local_symbol@ == Seq::<char>::empty(),
            r.trading_class@ == Seq::<char>::empty(),
            r.include_expired == false,
    {
        Contract {
            con_id: 0,
            symbol: String::new(),
            sec_type: SecurityType::Stock,
            last_trade_date: String::new(),
            strike: String::new(),
            right: OptionRight::Unspecified,
            multiplier: String::new(),
            exchange: String::new(),
            primary_exchange: String::new(),
            currency: String::new(),
            local_symbol: String::new(),
            trading_class: String::new(),
            include_expired: false,
        }
    }
}

} // verus!
