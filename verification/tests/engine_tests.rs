//! The pump and dispatch engine, driven end to end over mock transport bytes.

use ibkr::correlator::{ResponseEnvelope, ResponseKind, TypedResponse};
use ibkr::engine::{encode_account_data_request, DispatchOutcome, Engine};
use ibkr::handshake::{HandshakeNegotiator, HandshakeState};
use ibkr::wire::encode_frame;
use tokio::sync::oneshot;

#[test]
fn next_request_id_is_monotonic_from_reserved_range() {
    let mut engine = Engine::new(176);
    assert_eq!(engine.server_version(), 176);
    assert_eq!(engine.next_request_id(), 1000);
    assert_eq!(engine.next_request_id(), 1001);
    assert_eq!(engine.next_request_id(), 1002);
}

#[test]
fn historical_response_routes_to_waiting_caller() {
    // End-to-end: after a (mocked) handshake, the gateway echoes a historical
    // data frame for request id 1001 carrying 2 bars; the caller's channel
    // receives exactly those bars in order and the id is no longer pending.
    let mut negotiator = HandshakeNegotiator::new();
    let greeting = negotiator.greeting();
    assert!(greeting.starts_with(b"API\0"));
    assert_eq!(&greeting[4..8], &(9u32).to_be_bytes());
    assert_eq!(&greeting[8..], b"v100..176");

    let mut reply = vec![0, 0, 0, 26];
    reply.extend_from_slice(b"176\x0020240101 12:00:00 EST\x00");
    assert_eq!(negotiator.on_reply(&reply), Ok(176));
    let start_session = negotiator.start_session(1);
    assert_eq!(start_session, "71\x002\x001\x00\x00");
    negotiator.confirm_ready();
    assert_eq!(negotiator.state, HandshakeState::Ready);

    let mut engine = Engine::new(negotiator.server_version);
    let (tx, mut rx) = oneshot::channel();
    assert!(engine.register(1001, ResponseKind::HistoricalData, 0, tx));

    let payload = "17\x001001\x0020240101\x0020240105\x002\x00\
                   20240101\x00185.5\x00187.2\x00184.1\x00186.9\x001000000\x00186.0\x0042\x00\
                   20240102\x00186.9\x00188.0\x00185.0\x00187.5\x00900000\x00187.0\x0037\x00";
    let frame = encode_frame(payload.as_bytes());

    // The frame arrives split across two reads.
    let outcomes = engine.on_bytes(&frame[..10]);
    assert!(outcomes.is_empty());
    let outcomes = engine.on_bytes(&frame[10..]);
    assert_eq!(outcomes, vec![DispatchOutcome::Resolved { id: 1001, found: true }]);

    match rx.try_recv().unwrap() {
        ResponseEnvelope::Success(TypedResponse::HistoricalData(resp)) => {
            assert_eq!(resp.start, "20240101");
            assert_eq!(resp.end, "20240105");
            assert_eq!(resp.bars.len(), 2);
            assert_eq!(resp.bars[0].date, "20240101");
            assert_eq!(resp.bars[0].open, "185.5");
            assert_eq!(resp.bars[0].close, "186.9");
            assert_eq!(resp.bars[0].bar_count, 42);
            assert_eq!(resp.bars[1].date, "20240102");
            assert_eq!(resp.bars[1].high, "188.0");
            assert_eq!(resp.bars[1].bar_count, 37);
        },
        other => panic!("unexpected envelope: {:?}", other),
    }
    assert!(!engine.contains_pending(1001));
    assert_eq!(engine.pending_count(), 0);
}

#[test]
fn remote_error_routes_to_its_request_only() {
    let mut engine = Engine::new(176);
    let (tx1, mut rx1) = oneshot::channel();
    let (tx2, mut rx2) = oneshot::channel();
    assert!(engine.register(1000, ResponseKind::HistoricalData, 0, tx1));
    assert!(engine.register(1001, ResponseKind::HistoricalData, 0, tx2));

    let frame = encode_frame(b"4\x002\x001001\x00200\x00No market data permissions\x00");
    let outcomes = engine.on_bytes(&frame);
    assert_eq!(outcomes, vec![DispatchOutcome::Resolved { id: 1001, found: true }]);
    assert_eq!(
        rx2.try_recv().unwrap(),
        ResponseEnvelope::RemoteError { code: 200, message: "No market data permissions".to_string() }
    );
    // The other in-flight request is untouched.
    assert!(rx1.try_recv().is_err());
    assert!(engine.contains_pending(1000));
}

#[test]
fn connection_scoped_error_matches_no_request() {
    let mut engine = Engine::new(176);
    let (tx, mut rx) = oneshot::channel();
    assert!(engine.register(1000, ResponseKind::HistoricalData, 0, tx));

    let frame = encode_frame(b"4\x002\x00-1\x002104\x00Market data farm connection is OK\x00");
    let outcomes = engine.on_bytes(&frame);
    assert_eq!(
        outcomes,
        vec![DispatchOutcome::ConnectionError {
            code: 2104,
            message: "Market data farm connection is OK".to_string(),
        }]
    );
    assert!(rx.try_recv().is_err());
    assert_eq!(engine.pending_count(), 1);
}

#[test]
fn unknown_and_unrouted_tags_are_ignored() {
    let mut engine = Engine::new(176);
    let mut buf = encode_frame(b"9999\x00future stuff\x00");
    buf.extend_from_slice(&encode_frame(b"9\x001\x002000\x00")); // next valid id
    buf.extend_from_slice(&encode_frame(b"15\x001\x00DU12345\x00")); // managed accounts
    buf.extend_from_slice(&encode_frame(b"not a number\x00"));
    buf.extend_from_slice(&encode_frame(b""));
    let outcomes = engine.on_bytes(&buf);
    assert_eq!(outcomes, vec![DispatchOutcome::Ignored; 5]);
    assert_eq!(engine.pending_count(), 0);
}

#[test]
fn stray_response_id_is_harmless() {
    let mut engine = Engine::new(176);
    let frame = encode_frame(b"17\x00555\x00a\x00b\x000\x00");
    let outcomes = engine.on_bytes(&frame);
    assert_eq!(outcomes, vec![DispatchOutcome::Resolved { id: 555, found: false }]);
}

#[test]
fn account_download_completes_the_account_request() {
    let mut engine = Engine::new(176);
    let (tx_hist, mut rx_hist) = oneshot::channel();
    let (tx_acct, mut rx_acct) = oneshot::channel();
    assert!(engine.register(1000, ResponseKind::HistoricalData, 0, tx_hist));
    assert!(engine.register(1001, ResponseKind::AccountData, 0, tx_acct));

    let mut buf = encode_frame(b"6\x002\x00NetLiquidation\x00250000.00\x00USD\x00DU12345\x00");
    buf.extend_from_slice(&encode_frame(b"6\x002\x00BuyingPower\x00500000.00\x00USD\x00DU12345\x00"));
    buf.extend_from_slice(&encode_frame(b"8\x001\x00DU12345\x00"));
    let outcomes = engine.on_bytes(&buf);
    assert_eq!(
        outcomes,
        vec![
            DispatchOutcome::AccountValueRecorded,
            DispatchOutcome::AccountValueRecorded,
            DispatchOutcome::AccountDownloadEnded { id: Some(1001) },
        ]
    );
    // The terminator completed the account request, not the historical one.
    match rx_acct.try_recv().unwrap() {
        ResponseEnvelope::Success(TypedResponse::AccountValues(values)) => {
            assert_eq!(values.len(), 2);
            assert_eq!(values[0].key, "NetLiquidation");
            assert_eq!(values[0].value, "250000.00");
            assert_eq!(values[0].currency, "USD");
            assert_eq!(values[0].account, "DU12345");
            assert_eq!(values[1].key, "BuyingPower");
        },
        other => panic!("unexpected envelope: {:?}", other),
    }
    assert!(rx_hist.try_recv().is_err());
    assert!(engine.contains_pending(1000));
    assert!(!engine.contains_pending(1001));
}

#[test]
fn disconnect_drains_all_pending() {
    let mut engine = Engine::new(176);
    let mut receivers = Vec::new();
    for id in 0..4 {
        let (tx, rx) = oneshot::channel();
        assert!(engine.register(1000 + id, ResponseKind::HistoricalData, 0, tx));
        receivers.push(rx);
    }
    assert_eq!(engine.on_disconnect(), 4);
    assert_eq!(engine.pending_count(), 0);
    for mut rx in receivers {
        assert_eq!(rx.try_recv().unwrap(), ResponseEnvelope::Disconnected);
    }
}

#[test]
fn write_failure_cancels_registration() {
    // The dispatcher registers before writing; when the write fails it must
    // cancel, leaving no entry behind for a request that was never sent.
    let mut engine = Engine::new(176);
    let (tx, _rx) = oneshot::channel();
    let id = engine.next_request_id();
    assert!(engine.register(id, ResponseKind::AccountData, 0, tx));
    assert!(engine.cancel(id));
    assert_eq!(engine.pending_count(), 0);
    assert!(!engine.cancel(id));
}

#[test]
fn account_request_payload() {
    assert_eq!(encode_account_data_request(), "6\x002\x001\x00\x00");
}
