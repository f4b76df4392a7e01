//! The correlation registry: at-most-once delivery, the cancel/resolve race,
//! and disconnect draining, observed through real completion channels.

use ibkr::correlator::{Correlator, ResponseEnvelope, ResponseKind};
use tokio::sync::oneshot;

fn remote_error(code: i32, message: &str) -> ResponseEnvelope {
    ResponseEnvelope::RemoteError { code, message: message.to_string() }
}

#[test]
fn resolve_delivers_at_most_once() {
    let mut c = Correlator::new();
    let (tx, mut rx) = oneshot::channel();
    assert!(c.register(7, ResponseKind::HistoricalData, 0, tx));
    assert!(c.contains(7));

    // First resolution finds the entry and delivers exactly once.
    assert!(c.resolve(7, remote_error(1, "one")));
    assert_eq!(rx.try_recv().unwrap(), remote_error(1, "one"));

    // Second resolution of the same id finds nothing and delivers nothing.
    assert!(!c.resolve(7, remote_error(2, "two")));
    assert!(rx.try_recv().is_err());
    assert!(!c.contains(7));
    assert_eq!(c.len(), 0);
}

#[test]
fn register_refuses_duplicate_id() {
    let mut c = Correlator::new();
    let (tx1, _rx1) = oneshot::channel();
    let (tx2, _rx2) = oneshot::channel();
    assert!(c.register(5, ResponseKind::AccountData, 0, tx1));
    assert!(!c.register(5, ResponseKind::HistoricalData, 1, tx2));
    assert_eq!(c.len(), 1);
}

#[test]
fn cancel_then_resolve_exactly_one_wins() {
    let mut c = Correlator::new();
    let (tx, mut rx) = oneshot::channel();
    assert!(c.register(9, ResponseKind::HistoricalData, 0, tx));

    // The cancel removes the entry; the late resolve finds nothing.
    assert!(c.cancel(9));
    assert!(!c.resolve(9, remote_error(0, "late")));
    // No completion was ever delivered; the channel is simply closed.
    assert!(rx.try_recv().is_err());
    assert_eq!(c.len(), 0);
}

#[test]
fn resolve_then_cancel_exactly_one_wins() {
    let mut c = Correlator::new();
    let (tx, mut rx) = oneshot::channel();
    assert!(c.register(9, ResponseKind::HistoricalData, 0, tx));

    assert!(c.resolve(9, remote_error(3, "first")));
    assert!(!c.cancel(9));
    // Exactly one completion was delivered.
    assert_eq!(rx.try_recv().unwrap(), remote_error(3, "first"));
    assert!(rx.try_recv().is_err());
    assert_eq!(c.len(), 0);
}

#[test]
fn resolve_into_abandoned_channel_is_harmless() {
    let mut c = Correlator::new();
    let (tx, rx) = oneshot::channel();
    assert!(c.register(11, ResponseKind::HistoricalData, 0, tx));
    drop(rx);
    // The caller is gone: the entry is still found and removed, and sending
    // into the dead channel neither panics nor errors out.
    assert!(c.resolve(11, remote_error(4, "nobody listens")));
    assert_eq!(c.len(), 0);
}

#[test]
fn drain_resolves_every_pending_entry() {
    let mut c = Correlator::new();
    let mut receivers = Vec::new();
    for id in 0..5 {
        let (tx, rx) = oneshot::channel();
        assert!(c.register(1000 + id, ResponseKind::HistoricalData, 0, tx));
        receivers.push(rx);
    }
    assert_eq!(c.len(), 5);
    assert_eq!(c.drain_with(&ResponseEnvelope::Disconnected), 5);
    assert_eq!(c.len(), 0);
    for mut rx in receivers {
        assert_eq!(rx.try_recv().unwrap(), ResponseEnvelope::Disconnected);
    }
}

#[test]
fn terminator_completes_first_entry_of_its_kind() {
    let mut c = Correlator::new();
    let (tx1, mut rx1) = oneshot::channel();
    let (tx2, mut rx2) = oneshot::channel();
    let (tx3, mut rx3) = oneshot::channel();
    assert!(c.register(1, ResponseKind::HistoricalData, 0, tx1));
    assert!(c.register(2, ResponseKind::AccountData, 0, tx2));
    assert!(c.register(3, ResponseKind::AccountData, 0, tx3));

    // The terminator matches the first pending entry of its kind, never an
    // arbitrary entry.
    let resolved = c.resolve_first_of_kind(ResponseKind::AccountData, ResponseEnvelope::Disconnected);
    assert_eq!(resolved, Some(2));
    assert_eq!(rx2.try_recv().unwrap(), ResponseEnvelope::Disconnected);
    assert!(rx1.try_recv().is_err());
    assert!(rx3.try_recv().is_err());
    assert_eq!(c.len(), 2);
    assert!(c.contains(1) && c.contains(3) && !c.contains(2));
}
