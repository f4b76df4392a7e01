//! Historical market data: request parameters and bar data.
//!
//! Prices inside a bar are carried as their decimal wire text, exactly as the
//! gateway sent them; an absent price field is the empty string and a missing
//! bar count reads as 0.

use vstd::prelude::*;
use vstd::string::StringExecFns;

use crate::contract::{spec_contract_fields, Contract};
use crate::message::{outgoing_tag, OutgoingMessageId};
use crate::text::{
    bool_text, i32_text, spec_bool_text, spec_i32_text, spec_parse_i32, spec_token_text,
    spec_u32_text, u32_text,
};
use crate::wire::{make_message, spec_message, str_views, FieldIterator};

verus! {

/// Bar size for historical data requests.
#[derive(Debug, Clone, Copy, PartialEq, Eq, Structural)]
pub enum BarSize {
    Sec1,
    Sec5,
    Sec15,
    Sec30,
    Min1,
    Min2,
    Min3,
    Min5,
    Min15,
    Min30,
    Hour1,
    Day1,
}

/// The wire text of a bar size.
pub open spec fn bar_size_text(b: BarSize) -> Seq<char> {
    match b {
        BarSize::Sec1 => "1 sec"@,
        BarSize::Sec5 => "5 secs"@,
        BarSize::Sec15 => "15 secs"@,
        BarSize::Sec30 => "30 secs"@,
        BarSize::Min1 => "1 min"@,
        BarSize::Min2 => "2 mins"@,
        BarSize::Min3 => "3 mins"@,
        BarSize::Min5 => "5 mins"@,
        BarSize::Min15 => "15 mins"@,
        BarSize::Min30 => "30 mins"@,
        BarSize::Hour1 => "1 hour"@,
        BarSize::Day1 => "1 day"@,
    }
}

impl BarSize {
    pub fn as_str(&self) -> (r: &'static str)
        ensures
            r@ == bar_size_text(*self),
    {
        match self {
            Self::Sec1 => "1 sec",
            Self::Sec5 => "5 secs",
            Self::Sec15 => "15 secs",
            Self::Sec30 => "30 secs",
            Self::Min1 => "1 min",
            Self::Min2 => "2 mins",
            Self::Min3 => "3 mins",
            Self::Min5 => "5 mins",
            Self::Min15 => "15 mins",
            Self::Min30 => "30 mins",
            Self::Hour1 => "1 hour",
            Self::Day1 => "1 day",
        }
    }
}

/// What type of data to show for historical bars.
#[derive(Debug, Clone, Copy, PartialEq, Eq, Structural)]
pub enum WhatToShow {
    Trades,
    Midpoint,
    Bid,
    Ask,
    BidAsk,
    HistoricalVolatility,
    OptionImpliedVolatility,
}

/// The wire text of a data type selector.
pub open spec fn what_to_show_text(w: WhatToShow) -> Seq<char> {
    match w {
        WhatToShow::Trades => "TRADES"@,
        WhatToShow::Midpoint => "MIDPOINT"@,
        WhatToShow::Bid => "BID"@,
        WhatToShow::Ask => "ASK"@,
        WhatToShow::BidAsk => "BID_ASK"@,
        WhatToShow::HistoricalVolatility => "HISTORICAL_VOLATILITY"@,
        WhatToShow::OptionImpliedVolatility => "OPTION_IMPLIED_VOLATILITY"@,
    }
}

impl WhatToShow {
    pub fn as_str(&self) -> (r: &'static str)
        ensures
            r@ == what_to_show_text(*self),
    {
        match self {
            Self::Trades => "TRADES",
            Self::Midpoint => "MIDPOINT",
            Self::Bid => "BID",
            Self::Ask => "ASK",
            Self::BidAsk => "BID_ASK",
            Self::HistoricalVolatility => "HISTORICAL_VOLATILITY",
            Self::OptionImpliedVolatility => "OPTION_IMPLIED_VOLATILITY",
        }
    }
}

/// Duration of a historical data request.
#[derive(Debug, Clone, Copy, PartialEq, Eq, Structural)]
pub enum Duration {
    Seconds(u32),
    Days(u32),
    Weeks(u32),
    Months(u32),
    Years(u32),
}

/// The wire text of a duration: the count, a space, and the unit letter.
pub open spec fn duration_text(d: Duration) -> Seq<char> {
    match d {
        Duration::Seconds(n) => spec_u32_text(n as nat) + " S"@,
        Duration::Days(n) => spec_u32_text(n as nat) + " D"@,
        Duration::Weeks(n) => spec_u32_text(n as nat) + " W"@,
        Duration::Months(n) => spec_u32_text(n as nat) + " M"@,
        Duration::Years(n) => spec_u32_text(n as nat) + " Y"@,
    }
}

impl Duration {
    pub fn as_string(&self) -> (r: String)
        ensures
            r@ == duration_text(*self),
    {
        match self {
            Self::Seconds(n) => {
                let mut s = u32_text(*n);
                s.append(" S");
                s
            },
            Self::Days(n) => {
                let mut s = u32_text(*n);
                s.append(" D");
                s
            },
            Self::Weeks(n) => {
                let mut s = u32_text(*n);
                s.append(" W");
                s
            },
            Self::Months(n) => {
                let mut s = u32_text(*n);
                s.append(" M");
                s
            },
            Self::Years(n) => {
                let mut s = u32_text(*n);
                s.append(" Y");
                s
            },
        }
    }
}

/// Date format for returned bars.
#[derive(Debug, Clone, Copy, PartialEq, Eq, Structural)]
pub enum DateFormat {
    /// Human-readable format: "yyyymmdd hh:mm:ss"
    Text,
    /// Unix timestamp (seconds since 1970-01-01 GMT)
    Unix,
}

/// The numeric wire code of a date format.
pub open spec fn date_format_code(d: DateFormat) -> i32 {
    match d {
        DateFormat::Text => 1,
        DateFormat::Unix => 2,
    }
}

impl DateFormat {
    pub fn as_i32(self) -> (r: i32)
        ensures
            r == date_format_code(self),
    {
        match self {
            DateFormat::Text => 1,
            DateFormat::Unix => 2,
        }
    }
}

/// A single historical bar; every price is its decimal wire text.
#[derive(Debug, Clone, PartialEq)]
pub struct BarData {
    /// Bar timestamp
    pub date: String,
    /// Opening price
    pub open: String,
    /// High price
    pub high: String,
    /// Low price
    pub low: String,
    /// Closing price
    pub close: String,
    /// Volume
    pub volume: String,
    /// Weighted average price
    pub wap: String,
    /// Number of trades in the bar
    pub bar_count: i32,
}

/// The text of a field, or the empty string past the end of the message.
pub open spec fn token_or_empty(toks: Seq<Seq<u8>>, i: int) -> Seq<char> {
    if 0 <= i < toks.len() {
        spec_token_text(toks[i])
    } else {
        Seq::empty()
    }
}

/// The number a field denotes, or 0 past the end of the message.
pub open spec fn int_or_zero(toks: Seq<Seq<u8>>, i: int) -> i32 {
    if 0 <= i < toks.len() {
        spec_parse_i32(toks[i])
    } else {
        0
    }
}

impl BarData {
    /// Parse one bar from the next eight fields: date, open, high, low, close,
    /// volume, weighted average price, bar count.  `None` only when the fields
    /// are already exhausted; individual missing fields degrade to defaults.
    pub fn parse(fields: &mut FieldIterator) -> (r: Option<Self>)
        requires
            old(fields).wf(),
        ensures
            final(fields).wf(),
            final(fields).tokens() == old(fields).tokens(),
            old(fields).pos() >= old(fields).tokens().len() ==> r is None && final(fields).pos()
                == old(fields).pos(),
            old(fields).pos() < old(fields).tokens().len() ==> {
                let toks = old(fields).tokens();
                let p = old(fields).pos();
                &&& r is Some
                &&& final(fields).pos() == if p + 8 <= toks.len() {
                    p + 8
                } else {
                    toks.len() as int
                }
                &&& (r->0).date@ == spec_token_text(toks[p])
                &&& (r->0).open@ == token_or_empty(toks, p + 1)
                &&& (r->0).high@ == token_or_empty(toks, p + 2)
                &&& (r->0).low@ == token_or_empty(toks, p + 3)
                &&& (r->0).close@ == token_or_empty(toks, p + 4)
                &&& (r->0).volume@ == token_or_empty(toks, p + 5)
                &&& (r->0).wap@ == token_or_empty(toks, p + 6)
                &&& (r->0).bar_count == int_or_zero(toks, p + 7)
            },
    {
        let date = match fields.next_string() {
            Some(s) => s,
            None => {
                return None;
            },
        };
        let open = match fields.next_string() {
            Some(s) => s,
            None => String::new(),
        };
        let high = match fields.next_string() {
            Some(s) => s,
            None => String::new(),
        };
        let low = match fields.next_string() {
            Some(s) => s,
            None => String::new(),
        };
        let close = match fields.next_string() {
            Some(s) => s,
            None => String::new(),
        };
        let volume = match fields.next_string() {
            Some(s) => s,
            None => String::new(),
        };
        let wap = match fields.next_string() {
            Some(s) => s,
            None => String::new(),
        };
        let bar_count = fields.next_i32();
        Some(BarData { date, open, high, low, close, volume, wap, bar_count })
    }
}

/// Historical data request parameters.
#[derive(Debug, Clone)]
pub struct HistoricalDataRequest {
    /// Request ID for correlation
    pub req_id: i32,
    /// Contract to request data for
    pub contract: Contract,
    /// End date/time (empty for current time), "yyyymmdd HH:mm:ss [timezone]"
    pub end_date_time: String,
    /// Duration of data to request
    pub duration: Duration,
    /// Bar size
    pub bar_size: BarSize,
    /// What data to show
    pub what_to_show: WhatToShow,
    /// Use regular trading hours only
    pub use_rth: bool,
    /// Date format for returned bars
    pub format_date: DateFormat,
    /// Keep up to date with new bars
    pub keep_up_to_date: bool,
}

/// The ordered field sequence of a historical data request: the message tag,
/// the request id, the contract's fields, and the request parameters.
pub open spec fn spec_request_fields(r: &HistoricalDataRequest) -> Seq<Seq<char>> {
    seq![
        spec_u32_text(outgoing_tag(OutgoingMessageId::ReqHistoricalData) as nat),
        spec_i32_text(r.req_id as int),
    ] + spec_contract_fields(&r.contract) + seq![
        spec_bool_text(r.contract.include_expired),
        r.end_date_time@,
        bar_size_text(r.bar_size),
        duration_text(r.duration),
        spec_bool_text(r.use_rth),
        what_to_show_text(r.what_to_show),
        spec_i32_text(date_format_code(r.format_date) as int),
        spec_bool_text(r.keep_up_to_date),
        Seq::<char>::empty(),
    ]
}

impl HistoricalDataRequest {
    /// A request for one day of hourly trade bars, regular hours only.
    pub fn new(req_id: i32, contract: Contract) -> (r: Self)
        ensures
            r.req_id == req_id,
            r.contract == contract,
            r.end_date_time@ == Seq::<char>::empty(),
            r.duration == Duration::Days(1),
            r.bar_size == BarSize::Hour1,
            r.what_to_show == WhatToShow::Trades,
            r.use_rth == true,
            r.format_date == DateFormat::Text,
            r.keep_up_to_date == false,
    {
        HistoricalDataRequest {
            req_id,
            contract,
            end_date_time: String::new(),
            duration: Duration::Days(1),
            bar_size: BarSize::Hour1,
            what_to_show: WhatToShow::Trades,
            use_rth: true,
            format_date: DateFormat::Text,
            keep_up_to_date: false,
        }
    }

    /// Set the end date/time.
    pub fn end_date_time(self, end: &str) -> (r: Self)
        ensures
            r.end_date_time@ == end@,
            (r == HistoricalDataRequest { end_date_time: r.end_date_time, ..self }),
    {
        HistoricalDataRequest { end_date_time: end.to_owned(), ..self }
    }

    /// Set the duration.
    pub fn duration(self, duration: Duration) -> (r: Self)
        ensures
            (r == HistoricalDataRequest { duration, ..self }),
    {
        HistoricalDataRequest { duration, ..self }
    }

    /// Set the bar size.
    pub fn bar_size(self, size: BarSize) -> (r: Self)
        ensures
            (r == HistoricalDataRequest { bar_size: size, ..self }),
    {
        HistoricalDataRequest { bar_size: size, ..self }
    }

    /// Set what data to show.
    pub fn what_to_show(self, what: WhatToShow) -> (r: Self)
        ensures
            (r == HistoricalDataRequest { what_to_show: what, ..self }),
    {
        HistoricalDataRequest { what_to_show: what, ..self }
    }

    /// Set whether to use regular trading hours only.
    pub fn use_rth(self, rth: bool) -> (r: Self)
        ensures
            (r == HistoricalDataRequest { use_rth: rth, ..self }),
    {
        HistoricalDataRequest { use_rth: rth, ..self }
    }

    /// Set the date format.
    pub fn format_date(self, format: DateFormat) -> (r: Self)
        ensures
            (r == HistoricalDataRequest { format_date: format, ..self }),
    {
        HistoricalDataRequest { format_date: format, ..self }
    }

    /// Set whether to keep up to date.
    pub fn keep_up_to_date(self, keep: bool) -> (r: Self)
        ensures
            (r == HistoricalDataRequest { keep_up_to_date: keep, ..self }),
    {
        HistoricalDataRequest { keep_up_to_date: keep, ..self }
    }

    /// Encode the request as a message payload.
    pub fn encode(&self) -> (r: String)
        ensures
            r@ == spec_message(spec_request_fields(self)),
    {
        let mut f: Vec<String> = Vec::new();
        f.push(u32_text(OutgoingMessageId::ReqHistoricalData.as_u32()));
        f.push(i32_text(self.req_id));
        let mut cf = self.contract.encode_fields();
        f.append(&mut cf);
        f.push(bool_text(self.contract.include_expired));
        f.push(self.end_date_time.clone());
        f.push(self.bar_size.as_str().to_owned());
        f.push(self.duration.as_string());
        f.push(bool_text(self.use_rth));
        f.push(self.what_to_show.as_str().to_owned());
        f.push(i32_text(self.format_date.as_i32()));
        f.push(bool_text(self.keep_up_to_date));
        f.push(String::new());
        proof {
            assert(str_views(f@) =~= spec_request_fields(self));
        }
        make_message(f.as_slice())
    }
}

} // verus!
