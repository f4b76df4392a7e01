//! The connection engine: reassembly, dispatch, and correlation state.
//!
//! One background pump owns the read half of the transport and feeds every
//! chunk it reads through `on_bytes`, which reassembles complete frames and
//! routes each by its message-kind tag: responses carrying a request id
//! complete the matching pending entry, remote error reports with a positive
//! id complete that id, connection-scoped errors are surfaced to the pump's
//! caller, and unknown tags are ignored.  On end-of-stream the pump calls
//! `on_disconnect`, which drains every pending entry with a terminal
//! disconnect notice so no caller hangs forever.

use vstd::prelude::*;

use crate::correlator::{
    contains_id, distinct_ids, remove_id, AccountValue, Correlator, HistoricalDataResponse,
    PendingEntry, ResponseEnvelope, ResponseKind, TypedResponse,
};
use crate::historical::{int_or_zero, token_or_empty, BarData};
use crate::message::{outgoing_tag, spec_incoming_from, IncomingMessageId, OutgoingMessageId};
use crate::text::{spec_parse_i32, spec_parse_u32, spec_u32_text, u32_text};
use crate::wire::{
    extract_message, make_message, spec_extract, spec_fields, spec_message, str_views,
    FieldIterator,
};

verus! {

/// One bar's fields, read at eight consecutive positions: date, open, high,
/// low, close, volume, weighted average price, bar count.
pub open spec fn bar_at(toks: Seq<Seq<u8>>, q: int, b: BarData) -> bool {
    &&& b.date@ == token_or_empty(toks, q)
    &&& b.open@ == token_or_empty(toks, q + 1)
    &&& b.high@ == token_or_empty(toks, q + 2)
    &&& b.low@ == token_or_empty(toks, q + 3)
    &&& b.close@ == token_or_empty(toks, q + 4)
    &&& b.volume@ == token_or_empty(toks, q + 5)
    &&& b.wap@ == token_or_empty(toks, q + 6)
    &&& b.bar_count == int_or_zero(toks, q + 7)
}

/// How many whole-or-partial bars the fields from position `p` on can yield:
/// a bar exists as long as its date field does, so one per begun run of eight.
pub open spec fn avail_from(toks: Seq<Seq<u8>>, p: int) -> int {
    if toks.len() <= p {
        0
    } else {
        (toks.len() - p + 7) / 8
    }
}

/// Parse up to `n` bars from the remaining fields; stops early when the
/// fields run out.
pub fn parse_bars(fields: &mut FieldIterator, n: i32) -> (bars: Vec<BarData>)
    requires
        old(fields).wf(),
    ensures
        final(fields).wf(),
        final(fields).tokens() == old(fields).tokens(),
        ({
            let toks = old(fields).tokens();
            let p = old(fields).pos();
            let cnt: int = if n < 0 {
                0
            } else {
                n as int
            };
            &&& bars@.len() == (if cnt <= avail_from(toks, p) {
                cnt
            } else {
                avail_from(toks, p)
            })
            &&& final(fields).pos() == (if p + 8 * bars@.len() <= toks.len() {
                p + 8 * bars@.len()
            } else {
                toks.len() as int
            })
            &&& forall|k: int| 0 <= k < bars@.len() ==> bar_at(toks, p + 8 * k, #[trigger] bars@[k])
        }),
{
    let ghost toks = old(fields).tokens();
    let ghost p = old(fields).pos();
    let count: usize = if n < 0 {
        0
    } else {
        n as usize
    };
    let mut bars: Vec<BarData> = Vec::new();
    let mut j: usize = 0;
    while j < count
        invariant
            fields.wf(),
            fields.tokens() == toks,
            toks == old(fields).tokens(),
            p == old(fields).pos(),
            0 <= p <= toks.len(),
            bars@.len() <= j <= count,
            fields.pos() == (if p + 8 * bars@.len() <= toks.len() {
                p + 8 * bars@.len()
            } else {
                toks.len() as int
            }),
            bars@.len() > 0 ==> p + 8 * (bars@.len() - 1) < toks.len(),
            bars@.len() < j ==> fields.pos() == toks.len() && j == count,
            forall|k: int| 0 <= k < bars@.len() ==> bar_at(toks, p + 8 * k, #[trigger] bars@[k]),
        decreases count - j,
    {
        match BarData::parse(fields) {
            Some(b) => {
                bars.push(b);
                j += 1;
            },
            None => {
                j = count;
            },
        }
    }
    proof {
        let m = bars@.len() as int;
        let cnt: int = count as int;
        let len = toks.len() as int;
        if m == cnt {
            if m > 0 {
                assert(len - p >= 8 * (m - 1) + 1);
                assert((len - p + 7) / 8 >= m);
            }
        } else {
            assert(fields.pos() == len);
            if m == 0 {
                assert(p == len);
            } else {
                assert(len <= p + 8 * m);
                assert(p + 8 * (m - 1) < len);
                assert((len - p + 7) / 8 == m);
            }
        }
    }
    bars
}

/// Decode a historical-data message body: the request id, the covered range,
/// and the declared number of bars.
pub fn decode_historical(fields: &mut FieldIterator) -> (r: (i32, HistoricalDataResponse))
    requires
        old(fields).wf(),
    ensures
        final(fields).wf(),
        final(fields).tokens() == old(fields).tokens(),
        ({
            let toks = old(fields).tokens();
            let p = old(fields).pos();
            let q: int = if p + 4 <= toks.len() {
                p + 4
            } else {
                toks.len() as int
            };
            let cnt: int = if int_or_zero(toks, p + 3) < 0 {
                0
            } else {
                int_or_zero(toks, p + 3) as int
            };
            &&& r.0 == int_or_zero(toks, p)
            &&& r.1.start@ == token_or_empty(toks, p + 1)
            &&& r.1.end@ == token_or_empty(toks, p + 2)
            &&& r.1.bars@.len() == (if cnt <= avail_from(toks, q) {
                cnt
            } else {
                avail_from(toks, q)
            })
            &&& forall|k: int|
                0 <= k < r.1.bars@.len() ==> bar_at(toks, q + 8 * k, #[trigger] r.1.bars@[k])
        }),
{
    let req_id = fields.next_i32();
    let start = match fields.next_string() {
        Some(s) => s,
        None => String::new(),
    };
    let end = match fields.next_string() {
        Some(s) => s,
        None => String::new(),
    };
    let bar_count = fields.next_i32();
    let bars = parse_bars(fields, bar_count);
    (req_id, HistoricalDataResponse { start, end, bars })
}

/// What the pump did with one frame.
#[derive(Debug, Clone, PartialEq)]
pub enum DispatchOutcome {
    /// The frame carried no routable content: an empty payload, a
    /// non-numeric or unknown tag, or a kind this engine does not correlate.
    Ignored,
    /// An account value update was recorded for the pending download.
    AccountValueRecorded,
    /// A response or remote error was routed to the request with this id;
    /// `found` reports whether a caller was still waiting for it.
    Resolved { id: i32, found: bool },
    /// An account download terminator completed the first pending
    /// account-data request, whose id this is, or nothing was pending.
    AccountDownloadEnded { id: Option<i32> },
    /// A connection-scoped error report (id <= 0): surfaced to the pump's
    /// caller rather than matched to an arbitrary pending request.
    ConnectionError { code: i32, message: String },
}

/// How one frame transforms the registry and the account-value accumulator,
/// and which outcome it reports.
pub open spec fn dispatch_post(
    pre_pending: Seq<PendingEntry>,
    pre_accounts: Seq<AccountValue>,
    post_pending: Seq<PendingEntry>,
    post_accounts: Seq<AccountValue>,
    frame: Seq<u8>,
    r: DispatchOutcome,
) -> bool {
    let toks = spec_fields(frame);
    let tag = if toks.len() > 0 {
        spec_parse_u32(toks[0])
    } else {
        None
    };
    if tag is None || spec_incoming_from(tag->0) is None {
        &&& r == DispatchOutcome::Ignored
        &&& post_pending == pre_pending
        &&& post_accounts == pre_accounts
    } else {
        match spec_incoming_from(tag->0)->0 {
            IncomingMessageId::Error => {
                let id = int_or_zero(toks, 2);
                let code = int_or_zero(toks, 3);
                if id > 0 {
                    &&& post_pending == remove_id(pre_pending, id)
                    &&& post_accounts == pre_accounts
                    &&& r == (DispatchOutcome::Resolved {
                        id,
                        found: contains_id(pre_pending, id),
                    })
                } else {
                    &&& post_pending == pre_pending
                    &&& post_accounts == pre_accounts
                    &&& (r matches DispatchOutcome::ConnectionError { code: c, message: m }
                        && c == code && m@ == token_or_empty(toks, 4))
                }
            },
            IncomingMessageId::AccountValue => {
                &&& post_pending == pre_pending
                &&& post_accounts.len() == pre_accounts.len() + 1
                &&& post_accounts.drop_last() == pre_accounts
                &&& post_accounts.last().key@ == token_or_empty(toks, 2)
                &&& post_accounts.last().value@ == token_or_empty(toks, 3)
                &&& post_accounts.last().currency@ == token_or_empty(toks, 4)
                &&& post_accounts.last().account@ == token_or_empty(toks, 5)
                &&& r == DispatchOutcome::AccountValueRecorded
            },
            IncomingMessageId::AccountDownloadEnd => {
                &&& post_accounts.len() == 0
                &&& if contains_kind(pre_pending, ResponseKind::AccountData) {
                    exists|i: int|
                        {
                            &&& 0 <= i < pre_pending.len()
                            &&& (#[trigger] pre_pending[i]).kind == ResponseKind::AccountData
                            &&& forall|j: int|
                                0 <= j < i ==> #[trigger] pre_pending[j].kind
                                    != ResponseKind::AccountData
                            &&& r == (DispatchOutcome::AccountDownloadEnded {
                                id: Some(pre_pending[i].id),
                            })
                            &&& post_pending == pre_pending.take(i) + pre_pending.skip(i + 1)
                        }
                } else {
                    &&& post_pending == pre_pending
                    &&& r == (DispatchOutcome::AccountDownloadEnded { id: None })
                }
            },
            IncomingMessageId::HistoricalData => {
                let id = int_or_zero(toks, 1);
                &&& post_pending == remove_id(pre_pending, id)
                &&& post_accounts == pre_accounts
                &&& r == (DispatchOutcome::Resolved { id, found: contains_id(pre_pending, id) })
            },
            _ => {
                &&& r == DispatchOutcome::Ignored
                &&& post_pending == pre_pending
                &&& post_accounts == pre_accounts
            },
        }
    }
}

/// Whether some entry awaits the given kind.
pub open spec fn contains_kind(s: Seq<PendingEntry>, kind: ResponseKind) -> bool {
    exists|i: int| 0 <= i < s.len() && #[trigger] s[i].kind == kind
}

/// A reassembly buffer with every complete frame consumed.
pub open spec fn drained(b: Seq<u8>) -> Seq<u8>
    decreases b.len(),
{
    if spec_extract(b) is Some {
        drained((spec_extract(b)->0).1)
    } else {
        b
    }
}

/// Every complete frame a reassembly buffer holds, in arrival order.
pub open spec fn frames_of(b: Seq<u8>) -> Seq<Seq<u8>>
    decreases b.len(),
{
    if spec_extract(b) is Some {
        seq![(spec_extract(b)->0).0] + frames_of((spec_extract(b)->0).1)
    } else {
        Seq::empty()
    }
}

/// How a run of frames, dispatched in order, transforms the registry and the
/// account-value accumulator: each frame steps by [`dispatch_post`] through
/// some intermediate state and outcome.
pub open spec fn pump_post(
    pre_pending: Seq<PendingEntry>,
    pre_accounts: Seq<AccountValue>,
    frames: Seq<Seq<u8>>,
    post_pending: Seq<PendingEntry>,
    post_accounts: Seq<AccountValue>,
) -> bool
    decreases frames.len(),
{
    if frames.len() == 0 {
        post_pending == pre_pending && post_accounts == pre_accounts
    } else {
        exists|mid_pending: Seq<PendingEntry>, mid_accounts: Seq<AccountValue>, r: DispatchOutcome|
            {
                &&& #[trigger] dispatch_post(
                    pre_pending,
                    pre_accounts,
                    mid_pending,
                    mid_accounts,
                    frames[0],
                    r,
                )
                &&& pump_post(
                    mid_pending,
                    mid_accounts,
                    frames.skip(1),
                    post_pending,
                    post_accounts,
                )
            }
    }
}

/// Dispatching one more frame extends a dispatch run by one step.
proof fn lemma_pump_post_snoc(
    pre_pending: Seq<PendingEntry>,
    pre_accounts: Seq<AccountValue>,
    frames: Seq<Seq<u8>>,
    mid_pending: Seq<PendingEntry>,
    mid_accounts: Seq<AccountValue>,
    frame: Seq<u8>,
    r: DispatchOutcome,
    post_pending: Seq<PendingEntry>,
    post_accounts: Seq<AccountValue>,
)
    requires
        pump_post(pre_pending, pre_accounts, frames, mid_pending, mid_accounts),
        dispatch_post(mid_pending, mid_accounts, post_pending, post_accounts, frame, r),
    ensures
        pump_post(pre_pending, pre_accounts, frames.push(frame), post_pending, post_accounts),
    decreases frames.len(),
{
    let extended = frames.push(frame);
    assert(extended[0] == if frames.len() == 0 {
        frame
    } else {
        frames[0]
    });
    if frames.len() == 0 {
        assert(extended.skip(1) =~= Seq::<Seq<u8>>::empty());
        assert(dispatch_post(
            pre_pending,
            pre_accounts,
            post_pending,
            post_accounts,
            extended[0],
            r,
        ));
        assert(pump_post(
            post_pending,
            post_accounts,
            extended.skip(1),
            post_pending,
            post_accounts,
        ));
    } else {
        let (m1_pending, m1_accounts, r1) = choose|
            m1_pending: Seq<PendingEntry>,
            m1_accounts: Seq<AccountValue>,
            r1: DispatchOutcome,
        |
            {
                &&& #[trigger] dispatch_post(
                    pre_pending,
                    pre_accounts,
                    m1_pending,
                    m1_accounts,
                    frames[0],
                    r1,
                )
                &&& pump_post(m1_pending, m1_accounts, frames.skip(1), mid_pending, mid_accounts)
            };
        lemma_pump_post_snoc(
            m1_pending,
            m1_accounts,
            frames.skip(1),
            mid_pending,
            mid_accounts,
            frame,
            r,
            post_pending,
            post_accounts,
        );
        assert(extended.skip(1) =~= frames.skip(1).push(frame));
        assert(dispatch_post(
            pre_pending,
            pre_accounts,
            m1_pending,
            m1_accounts,
            extended[0],
            r1,
        ));
    }
}

/// The long-lived per-connection state: the negotiated version, the request
/// id counter, the pending-request registry, the reassembly buffer, and the
/// account values accumulated for the pending download.
pub struct Engine {
    correlator: Correlator,
    recv_buf: Vec<u8>,
    next_req_id: i32,
    server_version: u32,
    account_values: Vec<AccountValue>,
}

impl Engine {
    /// The pending entries, in registration order.
    pub closed spec fn pending(&self) -> Seq<PendingEntry> {
        self.correlator@
    }

    /// The bytes read but not yet consumed as frames.
    pub closed spec fn buffered(&self) -> Seq<u8> {
        self.recv_buf@
    }

    /// The next request id to hand out.
    pub closed spec fn counter(&self) -> int {
        self.next_req_id as int
    }

    /// The negotiated protocol version.
    pub closed spec fn version(&self) -> u32 {
        self.server_version
    }

    /// Account values accumulated for the pending download.
    pub closed spec fn accounts(&self) -> Seq<AccountValue> {
        self.account_values@
    }

    pub open spec fn wf(&self) -> bool {
        distinct_ids(self.pending())
    }

    /// A fresh engine for a connection whose handshake negotiated the given
    /// version.  Request ids start above the range reserved for
    /// protocol-internal ids.
    pub fn new(server_version: u32) -> (r: Self)
        ensures
            r.wf(),
            r.pending() == Seq::<PendingEntry>::empty(),
            r.buffered() == Seq::<u8>::empty(),
            r.counter() == 1000,
            r.version() == server_version,
            r.accounts() == Seq::<AccountValue>::empty(),
    {
        Engine {
            correlator: Correlator::new(),
            recv_buf: Vec::new(),
            next_req_id: 1000,
            server_version,
            account_values: Vec::new(),
        }
    }

    pub fn server_version(&self) -> (r: u32)
        ensures
            r == self.version(),
    {
        self.server_version
    }

    /// Allocate the next request id from the monotonic counter.
    pub fn next_request_id(&mut self) -> (r: i32)
        requires
            old(self).counter() < i32::MAX,
        ensures
            r == old(self).counter(),
            final(self).counter() == old(self).counter() + 1,
            final(self).pending() == old(self).pending(),
            final(self).buffered() == old(self).buffered(),
            final(self).version() == old(self).version(),
            final(self).accounts() == old(self).accounts(),
            final(self).wf() == old(self).wf(),
    {
        let id = self.next_req_id;
        self.next_req_id = self.next_req_id + 1;
        id
    }

    /// How many bytes sit unconsumed in the reassembly buffer.
    pub fn buffered_len(&self) -> (r: usize)
        ensures
            r == self.buffered().len(),
    {
        self.recv_buf.len()
    }

    /// Whether the id counter can still hand out a request id.
    pub fn has_id_capacity(&self) -> (r: bool)
        ensures
            r == (self.counter() < i32::MAX),
    {
        self.next_req_id < i32::MAX
    }

    /// How many requests are pending.
    pub fn pending_count(&self) -> (r: usize)
        ensures
            r == self.pending().len(),
    {
        self.correlator.len()
    }

    /// Whether a request with this id is pending.
    pub fn contains_pending(&self, id: i32) -> (r: bool)
        ensures
            r == contains_id(self.pending(), id),
    {
        self.correlator.contains(id)
    }

    /// Register a pending entry for a request about to be sent; see
    /// [`Correlator::register`].
    pub fn register(
        &mut self,
        id: i32,
        kind: ResponseKind,
        created_at: u64,
        tx: tokio::sync::oneshot::Sender<ResponseEnvelope>,
    ) -> (r: bool)
        requires
            old(self).wf(),
        ensures
            final(self).wf(),
            r == !contains_id(old(self).pending(), id),
            r ==> final(self).pending() == old(self).pending().push(
                PendingEntry { id, kind, created_at, tx },
            ),
            !r ==> final(self).pending() == old(self).pending(),
            final(self).buffered() == old(self).buffered(),
            final(self).counter() == old(self).counter(),
            final(self).version() == old(self).version(),
            final(self).accounts() == old(self).accounts(),
    {
        self.correlator.register(id, kind, created_at, tx)
    }

    /// Remove a pending entry without completing it (the caller gave up, e.g.
    /// on timeout, or its write failed); see [`Correlator::cancel`].
    pub fn cancel(&mut self, id: i32) -> (r: bool)
        requires
            old(self).wf(),
        ensures
            final(self).wf(),
            r == contains_id(old(self).pending(), id),
            final(self).pending() == remove_id(old(self).pending(), id),
            final(self).buffered() == old(self).buffered(),
            final(self).counter() == old(self).counter(),
            final(self).version() == old(self).version(),
            final(self).accounts() == old(self).accounts(),
    {
        self.correlator.cancel(id)
    }

    /// Decode one frame's payload and route it.
    pub fn dispatch_frame(&mut self, frame: &[u8]) -> (r: DispatchOutcome)
        requires
            old(self).wf(),
        ensures
            final(self).wf(),
            final(self).buffered() == old(self).buffered(),
            final(self).counter() == old(self).counter(),
            final(self).version() == old(self).version(),
            dispatch_post(
                old(self).pending(),
                old(self).accounts(),
                final(self).pending(),
                final(self).accounts(),
                frame@,
                r,
            ),
    {
        let mut fields = FieldIterator::new(frame);
        let tag = match fields.next_u32() {
            Some(t) => t,
            None => {
                return DispatchOutcome::Ignored;
            },
        };
        match IncomingMessageId::from_u32(tag) {
            None => DispatchOutcome::Ignored,
            Some(IncomingMessageId::Error) => {
                let _version = fields.next_i32();
                let id = fields.next_i32();
                let code = fields.next_i32();
                let message = match fields.next_string() {
                    Some(s) => s,
                    None => String::new(),
                };
                if id > 0 {
                    let found = self.correlator.resolve(
                        id,
                        ResponseEnvelope::RemoteError { code, message },
                    );
                    DispatchOutcome::Resolved { id, found }
                } else {
                    DispatchOutcome::ConnectionError { code, message }
                }
            },
            Some(IncomingMessageId::AccountValue) => {
                let _version = fields.next_i32();
                let key = match fields.next_string() {
                    Some(s) => s,
                    None => String::new(),
                };
                let value = match fields.next_string() {
                    Some(s) => s,
                    None => String::new(),
                };
                let currency = match fields.next_string() {
                    Some(s) => s,
                    None => String::new(),
                };
                let account = match fields.next_string() {
                    Some(s) => s,
                    None => String::new(),
                };
                self.account_values.push(AccountValue { key, value, currency, account });
                proof {
                    assert(self.account_values@.drop_last() =~= old(self).accounts());
                }
                DispatchOutcome::AccountValueRecorded
            },
            Some(IncomingMessageId::AccountDownloadEnd) => {
                let mut vals: Vec<AccountValue> = Vec::new();
                core::mem::swap(&mut self.account_values, &mut vals);
                let id = self.correlator.resolve_first_of_kind(
                    ResponseKind::AccountData,
                    ResponseEnvelope::Success(TypedResponse::AccountValues(vals)),
                );
                DispatchOutcome::AccountDownloadEnded { id }
            },
            Some(IncomingMessageId::HistoricalData) => {
                let decoded = decode_historical(&mut fields);
                let id = decoded.0;
                let found = self.correlator.resolve(
                    id,
                    ResponseEnvelope::Success(TypedResponse::HistoricalData(decoded.1)),
                );
                DispatchOutcome::Resolved { id, found }
            },
            Some(IncomingMessageId::PortfolioValue) => DispatchOutcome::Ignored,
            Some(IncomingMessageId::NextValidId) => DispatchOutcome::Ignored,
            Some(IncomingMessageId::ManagedAccounts) => DispatchOutcome::Ignored,
            Some(IncomingMessageId::HistoricalDataUpdate) => DispatchOutcome::Ignored,
            Some(IncomingMessageId::HistoricalDataEnd) => DispatchOutcome::Ignored,
        }
    }

    /// Feed bytes read from the transport: append to the reassembly buffer,
    /// then extract and dispatch every complete frame, in arrival order,
    /// until none remains.  Returns each frame's outcome.
    pub fn on_bytes(&mut self, chunk: &[u8]) -> (r: Vec<DispatchOutcome>)
        requires
            old(self).wf(),
            old(self).buffered().len() + chunk@.len() <= usize::MAX,
        ensures
            final(self).wf(),
            final(self).buffered() == drained(old(self).buffered() + chunk@),
            final(self).counter() == old(self).counter(),
            final(self).version() == old(self).version(),
            r@.len() == frames_of(old(self).buffered() + chunk@).len(),
            pump_post(
                old(self).pending(),
                old(self).accounts(),
                frames_of(old(self).buffered() + chunk@),
                final(self).pending(),
                final(self).accounts(),
            ),
    {
        let ghost whole = old(self).buffered() + chunk@;
        self.recv_buf.extend_from_slice(chunk);
        proof {
            assert(self.recv_buf@ =~= whole);
            assert(Seq::<Seq<u8>>::empty() + frames_of(whole) =~= frames_of(whole));
        }
        let mut outcomes: Vec<DispatchOutcome> = Vec::new();
        let ghost mut processed: Seq<Seq<u8>> = Seq::empty();
        loop
            invariant
                self.wf(),
                drained(self.buffered()) == drained(whole),
                whole == old(self).buffered() + chunk@,
                frames_of(whole) == processed + frames_of(self.buffered()),
                pump_post(
                    old(self).pending(),
                    old(self).accounts(),
                    processed,
                    self.pending(),
                    self.accounts(),
                ),
                outcomes@.len() == processed.len(),
                self.counter() == old(self).counter(),
                self.version() == old(self).version(),
            decreases self.buffered().len(),
        {
            let next = extract_message(self.recv_buf.as_slice());
            match next {
                Some((msg, rest)) => {
                    let ghost mid_pending = self.pending();
                    let ghost mid_accounts = self.accounts();
                    self.recv_buf = rest;
                    let outcome = self.dispatch_frame(msg.as_slice());
                    outcomes.push(outcome);
                    proof {
                        lemma_pump_post_snoc(
                            old(self).pending(),
                            old(self).accounts(),
                            processed,
                            mid_pending,
                            mid_accounts,
                            msg@,
                            outcome,
                            self.pending(),
                            self.accounts(),
                        );
                        processed = processed.push(msg@);
                        assert((processed.drop_last() + seq![msg@]) + frames_of(self.buffered())
                            =~= processed + frames_of(self.buffered()));
                    }
                },
                None => {
                    proof {
                        assert(processed + frames_of(self.buffered()) =~= processed);
                    }
                    return outcomes;
                },
            }
        }
    }

    /// On pump termination: drop any buffered partial frame and complete every
    /// remaining pending entry with a disconnect notice.  Returns how many
    /// were drained; nothing is pending afterwards.
    pub fn on_disconnect(&mut self) -> (r: usize)
        requires
            old(self).wf(),
        ensures
            final(self).wf(),
            final(self).pending().len() == 0,
            r == old(self).pending().len(),
            final(self).buffered() == Seq::<u8>::empty(),
            final(self).counter() == old(self).counter(),
            final(self).version() == old(self).version(),
            final(self).accounts() == Seq::<AccountValue>::empty(),
    {
        self.recv_buf = Vec::new();
        self.account_values = Vec::new();
        self.correlator.drain_with(&ResponseEnvelope::Disconnected)
    }
}

/// The fields of an account data subscription request: the tag, the message
/// version, the subscribe flag, and an empty account code.
pub open spec fn spec_account_request_fields() -> Seq<Seq<char>> {
    seq![
        spec_u32_text(outgoing_tag(OutgoingMessageId::ReqAccountData) as nat),
        spec_u32_text(2),
        spec_u32_text(1),
        Seq::<char>::empty(),
    ]
}

/// Build the account data subscription payload.
pub fn encode_account_data_request() -> (r: String)
    ensures
        r@ == spec_message(spec_account_request_fields()),
{
    let mut f: Vec<String> = Vec::new();
    f.push(u32_text(OutgoingMessageId::ReqAccountData.as_u32()));
    f.push(u32_text(2));
    f.push(u32_text(1));
    f.push(String::new());
    proof {
        assert(str_views(f@) =~= spec_account_request_fields());
    }
    make_message(f.as_slice())
}

} // verus!
