//! The correlation registry: matching asynchronous responses to the callers
//! awaiting them.
//!
//! Exactly one pending entry exists per outstanding request.  An entry is
//! removed exactly once, by whichever of response delivery, remote error,
//! caller cancellation, or connection teardown happens first: removal is
//! exclusive ownership, so the loser of any race finds nothing and its
//! operation is a harmless no-op.

use vstd::prelude::*;

use crate::historical::BarData;

verus! {

/// Account value update.
#[derive(Debug, Clone, PartialEq)]
pub struct AccountValue {
    pub key: String,
    pub value: String,
    pub currency: String,
    pub account: String,
}

/// Historical data response: the covered range and its bars.
#[derive(Debug, Clone, PartialEq)]
pub struct HistoricalDataResponse {
    pub start: String,
    pub end: String,
    pub bars: Vec<BarData>,
}

/// The kind of response a pending request awaits.
#[derive(Debug, Clone, Copy, PartialEq, Eq, Structural)]
pub enum ResponseKind {
    AccountData,
    HistoricalData,
}

/// A decoded, typed response.
#[derive(Debug, Clone, PartialEq)]
pub enum TypedResponse {
    AccountValues(Vec<AccountValue>),
    HistoricalData(HistoricalDataResponse),
}

/// What a waiting caller receives: a typed response, an error the gateway
/// reported for the request, or notice that the connection is gone.
#[derive(Debug, Clone, PartialEq)]
pub enum ResponseEnvelope {
    Success(TypedResponse),
    RemoteError { code: i32, message: String },
    Disconnected,
}

#[verifier::external_type_specification]
#[verifier::external_body]
#[verifier::reject_recursive_types(T)]
pub struct ExSender<T>(tokio::sync::oneshot::Sender<T>);

/// Relies on tokio's `oneshot::Sender::send`: hands the value to the waiting
/// receiver when it still listens; sending into an abandoned channel merely
/// returns the value back and is reported as `false`.
#[verifier::external_body]
fn send_envelope(tx: tokio::sync::oneshot::Sender<ResponseEnvelope>, env: ResponseEnvelope) -> (r:
    bool) {
    tx.send(env).is_ok()
}

/// The record of one request awaiting its correlated response.
pub struct PendingEntry {
    /// The request id responses carry back.
    pub id: i32,
    /// The response kind that completes this entry.
    pub kind: ResponseKind,
    /// When the request was registered, in the caller's clock.
    pub created_at: u64,
    /// The single-use completion channel to the waiting caller.
    pub tx: tokio::sync::oneshot::Sender<ResponseEnvelope>,
}

/// Whether some entry carries the given id.
pub open spec fn contains_id(s: Seq<PendingEntry>, id: i32) -> bool {
    exists|i: int| 0 <= i < s.len() && #[trigger] s[i].id == id
}

/// No two entries share an id.
pub open spec fn distinct_ids(s: Seq<PendingEntry>) -> bool {
    forall|i: int, j: int| 0 <= i < j < s.len() ==> #[trigger] s[i].id != #[trigger] s[j].id
}

/// The registry after removing the entry with the given id, order kept;
/// unchanged when no entry carries the id.
pub open spec fn remove_id(s: Seq<PendingEntry>, id: i32) -> Seq<PendingEntry>
    decreases s.len(),
{
    if s.len() == 0 {
        s
    } else if s[0].id == id {
        s.skip(1)
    } else {
        seq![s[0]] + remove_id(s.skip(1), id)
    }
}

/// Removal really removes: with distinct ids, the id is gone afterwards.
/// This is what makes delivery at-most-once: a second resolution, or the
/// loser of a cancel/resolve race, finds nothing.
pub proof fn lemma_remove_id_not_contains(s: Seq<PendingEntry>, id: i32)
    requires
        distinct_ids(s),
    ensures
        !contains_id(remove_id(s, id), id),
    decreases s.len(),
{
    if s.len() == 0 {
    } else if s[0].id == id {
        assert forall|i: int| 0 <= i < s.skip(1).len() implies #[trigger] s.skip(1)[i].id != id by {
            assert(s.skip(1)[i] == s[i + 1]);
        }
    } else {
        assert(distinct_ids(s.skip(1))) by {
            assert forall|i: int, j: int| 0 <= i < j < s.skip(1).len() implies #[trigger] s.skip(
                1,
            )[i].id != #[trigger] s.skip(1)[j].id by {
                assert(s.skip(1)[i] == s[i + 1] && s.skip(1)[j] == s[j + 1]);
            }
        }
        lemma_remove_id_not_contains(s.skip(1), id);
        let r = seq![s[0]] + remove_id(s.skip(1), id);
        assert forall|i: int| 0 <= i < r.len() implies #[trigger] r[i].id != id by {
            if i > 0 {
                assert(r[i] == remove_id(s.skip(1), id)[i - 1]);
                assert(!(remove_id(s.skip(1), id)[i - 1].id == id));
            }
        }
    }
}

/// Removing an absent id changes nothing.
pub proof fn lemma_remove_id_unchanged(s: Seq<PendingEntry>, id: i32)
    requires
        !contains_id(s, id),
    ensures
        remove_id(s, id) == s,
    decreases s.len(),
{
    if s.len() == 0 {
    } else {
        assert(s[0].id != id);
        assert forall|i: int| 0 <= i < s.skip(1).len() implies #[trigger] s.skip(1)[i].id != id by {
            assert(s.skip(1)[i] == s[i + 1]);
        }
        lemma_remove_id_unchanged(s.skip(1), id);
        assert(seq![s[0]] + s.skip(1) =~= s);
    }
}

/// Removal at a found index is exactly `remove_id`, when the id occurs first
/// at that index.
proof fn lemma_remove_id_at(s: Seq<PendingEntry>, id: i32, i: int)
    requires
        0 <= i < s.len(),
        s[i].id == id,
        forall|j: int| 0 <= j < i ==> #[trigger] s[j].id != id,
    ensures
        remove_id(s, id) == s.take(i) + s.skip(i + 1),
    decreases i,
{
    if i == 0 {
        assert(s.take(0) + s.skip(1) =~= s.skip(1));
    } else {
        assert(s.skip(1)[i - 1] == s[i]);
        assert forall|j: int| 0 <= j < i - 1 implies #[trigger] s.skip(1)[j].id != id by {
            assert(s.skip(1)[j] == s[j + 1]);
        }
        lemma_remove_id_at(s.skip(1), id, i - 1);
        assert(seq![s[0]] + (s.skip(1).take(i - 1) + s.skip(1).skip(i)) =~= s.take(i) + s.skip(
            i + 1,
        ));
    }
}

/// Dropping one entry keeps the remaining ids distinct.
proof fn lemma_distinct_remove_at(s: Seq<PendingEntry>, i: int)
    requires
        distinct_ids(s),
        0 <= i < s.len(),
    ensures
        distinct_ids(s.take(i) + s.skip(i + 1)),
{
    let r = s.take(i) + s.skip(i + 1);
    assert forall|p: int, q: int| 0 <= p < q < r.len() implies #[trigger] r[p].id
        != #[trigger] r[q].id by {
        let sp = if p < i {
            p
        } else {
            p + 1
        };
        let sq = if q < i {
            q
        } else {
            q + 1
        };
        assert(r[p] == s[sp] && r[q] == s[sq]);
    }
}

/// The registry of pending requests.
///
/// Entries are held in registration order; ids are unique among entries.
pub struct Correlator {
    entries: Vec<PendingEntry>,
}

impl View for Correlator {
    type V = Seq<PendingEntry>;

    closed spec fn view(&self) -> Seq<PendingEntry> {
        self.entries@
    }
}

impl Correlator {
    pub open spec fn wf(&self) -> bool {
        distinct_ids(self@)
    }

    /// An empty registry.
    pub fn new() -> (r: Self)
        ensures
            r@ == Seq::<PendingEntry>::empty(),
            r.wf(),
    {
        Correlator { entries: Vec::new() }
    }

    /// How many requests are pending.
    pub fn len(&self) -> (r: usize)
        ensures
            r == self@.len(),
    {
        self.entries.len()
    }

    /// Whether a request with this id is pending.
    pub fn contains(&self, id: i32) -> (r: bool)
        ensures
            r == contains_id(self@, id),
    {
        let mut i: usize = 0;
        while i < self.entries.len()
            invariant
                i <= self@.len(),
                forall|j: int| 0 <= j < i ==> #[trigger] self@[j].id != id,
            decreases self@.len() - i,
        {
            if self.entries[i].id == id {
                return true;
            }
            i += 1;
        }
        false
    }

    /// Insert a fresh pending entry; reports `false` (a caller bug) and keeps
    /// the registry unchanged when the id is already registered.
    pub fn register(
        &mut self,
        id: i32,
        kind: ResponseKind,
        created_at: u64,
        tx: tokio::sync::oneshot::Sender<ResponseEnvelope>,
    ) -> (r: bool)
        requires
            old(self).wf(),
        ensures
            final(self).wf(),
            r == !contains_id(old(self)@, id),
            r ==> final(self)@ == old(self)@.push(PendingEntry { id, kind, created_at, tx }),
            !r ==> final(self)@ == old(self)@,
    {
        if self.contains(id) {
            false
        } else {
            let ghost prev = self@;
            self.entries.push(PendingEntry { id, kind, created_at, tx });
            proof {
                assert forall|i: int, j: int| 0 <= i < j < self@.len() implies #[trigger] self@[i].id
                    != #[trigger] self@[j].id by {
                    if j < prev.len() {
                        assert(self@[i] == prev[i] && self@[j] == prev[j]);
                    } else {
                        assert(self@[i] == prev[i]);
                        assert(!(prev[i].id == id));
                    }
                }
            }
            true
        }
    }

    /// Find the index of the entry with this id, if any.
    fn find(&self, id: i32) -> (r: Option<usize>)
        ensures
            r is Some <==> contains_id(self@, id),
            r is Some ==> {
                let i = r->0 as int;
                &&& 0 <= i < self@.len()
                &&& self@[i].id == id
                &&& forall|j: int| 0 <= j < i ==> #[trigger] self@[j].id != id
            },
    {
        let mut i: usize = 0;
        while i < self.entries.len()
            invariant
                i <= self@.len(),
                forall|j: int| 0 <= j < i ==> #[trigger] self@[j].id != id,
            decreases self@.len() - i,
        {
            if self.entries[i].id == id {
                return Some(i);
            }
            i += 1;
        }
        None
    }

    /// Remove and complete the entry for this id, delivering the envelope to
    /// its waiting caller; reports whether the entry was found.  A duplicate,
    /// late, or stray id finds nothing, changes nothing, and reports `false`.
    pub fn resolve(&mut self, id: i32, envelope: ResponseEnvelope) -> (r: bool)
        requires
            old(self).wf(),
        ensures
            final(self).wf(),
            r == contains_id(old(self)@, id),
            final(self)@ == remove_id(old(self)@, id),
    {
        let ghost prev = self@;
        match self.find(id) {
            Some(i) => {
                let entry = self.entries.remove(i);
                proof {
                    lemma_remove_id_at(prev, id, i as int);
                    lemma_distinct_remove_at(prev, i as int);
                    assert(prev.take(i as int) + prev.skip(i as int + 1) =~= prev.remove(i as int));
                }
                let _ = send_envelope(entry.tx, envelope);
                true
            },
            None => {
                proof {
                    lemma_remove_id_unchanged(prev, id);
                }
                false
            },
        }
    }

    /// Remove the entry for this id without completing it (the caller gave up
    /// locally, e.g. on timeout); reports whether the entry was found.  When a
    /// cancel races a resolve for the same id, whichever removes first wins
    /// and the other finds nothing.
    pub fn cancel(&mut self, id: i32) -> (r: bool)
        requires
            old(self).wf(),
        ensures
            final(self).wf(),
            r == contains_id(old(self)@, id),
            final(self)@ == remove_id(old(self)@, id),
    {
        let ghost prev = self@;
        match self.find(id) {
            Some(i) => {
                let _entry = self.entries.remove(i);
                proof {
                    lemma_remove_id_at(prev, id, i as int);
                    lemma_distinct_remove_at(prev, i as int);
                    assert(prev.take(i as int) + prev.skip(i as int + 1) =~= prev.remove(i as int));
                }
                true
            },
            None => {
                proof {
                    lemma_remove_id_unchanged(prev, id);
                }
                false
            },
        }
    }

    /// Remove and complete the first pending entry awaiting the given kind,
    /// returning its id.  This routes terminators that carry no request id to
    /// the request that actually awaits that kind, never to an arbitrary
    /// entry.
    pub fn resolve_first_of_kind(&mut self, kind: ResponseKind, envelope: ResponseEnvelope) -> (r:
        Option<i32>)
        requires
            old(self).wf(),
        ensures
            final(self).wf(),
            r is None ==> final(self)@ == old(self)@ && (forall|i: int|
                0 <= i < old(self)@.len() ==> #[trigger] old(self)@[i].kind != kind),
            r is Some ==> exists|i: int|
                {
                    &&& 0 <= i < old(self)@.len()
                    &&& (#[trigger] old(self)@[i]).kind == kind
                    &&& forall|j: int| 0 <= j < i ==> #[trigger] old(self)@[j].kind != kind
                    &&& r->0 == old(self)@[i].id
                    &&& final(self)@ == old(self)@.take(i) + old(self)@.skip(i + 1)
                },
    {
        let mut i: usize = 0;
        while i < self.entries.len()
            invariant
                i <= self@.len(),
                self@ == old(self)@,
                distinct_ids(self@),
                forall|j: int| 0 <= j < i ==> #[trigger] self@[j].kind != kind,
            decreases self@.len() - i,
        {
            if self.entries[i].kind == kind {
                let ghost prev = self@;
                let entry = self.entries.remove(i);
                proof {
                    lemma_distinct_remove_at(prev, i as int);
                    assert(prev.take(i as int) + prev.skip(i as int + 1) =~= prev.remove(i as int));
                }
                let id = entry.id;
                let _ = send_envelope(entry.tx, envelope);
                return Some(id);
            }
            i += 1;
        }
        None
    }

    /// On connection teardown: remove every remaining entry and complete each
    /// with the given terminal envelope, so no caller hangs forever.  Returns
    /// how many entries were drained; the registry is empty afterwards.
    pub fn drain_with(&mut self, envelope: &ResponseEnvelope) -> (r: usize)
        requires
            old(self).wf(),
        ensures
            final(self).wf(),
            final(self)@.len() == 0,
            r == old(self)@.len(),
    {
        let total = self.entries.len();
        let mut count: usize = 0;
        loop
            invariant
                distinct_ids(self@),
                total == old(self)@.len(),
                count + self@.len() == total,
            decreases self@.len(),
        {
            let ghost prev = self@;
            match self.entries.pop() {
                Some(entry) => {
                    proof {
                        assert forall|p: int, q: int|
                            0 <= p < q < self@.len() implies #[trigger] self@[p].id
                            != #[trigger] self@[q].id by {
                            assert(self@[p] == prev[p] && self@[q] == prev[q]);
                        }
                    }
                    let _ = send_envelope(entry.tx, envelope.clone());
                    count += 1;
                },
                None => {
                    return count;
                },
            }
        }
    }
}

/// At-most-once delivery: after an id is resolved (or cancelled), its entry is
/// gone, so a second resolution of the same id finds nothing and reports
/// `false`, and the registry is left exactly as the first removal left it.
pub proof fn lemma_resolve_at_most_once(s: Seq<PendingEntry>, id: i32)
    requires
        distinct_ids(s),
    ensures
        !contains_id(remove_id(s, id), id),
        remove_id(remove_id(s, id), id) == remove_id(s, id),
{
    lemma_remove_id_not_contains(s, id);
    lemma_remove_id_unchanged(remove_id(s, id), id);
}

/// The cancel/resolve race: when an id is pending, the operation that removes
/// first finds it and wins; the loser sees the registry after removal, where
/// the id is gone, so it finds nothing and becomes a no-op.  The registry
/// after both operations — in either order — is the one removal's result, and
/// at most one completion is ever delivered.
pub proof fn lemma_remove_is_exclusive(s: Seq<PendingEntry>, id: i32)
    requires
        distinct_ids(s),
        contains_id(s, id),
    ensures
        !contains_id(remove_id(s, id), id),
        remove_id(remove_id(s, id), id) == remove_id(s, id),
{
    lemma_resolve_at_most_once(s, id);
}

} // verus!
