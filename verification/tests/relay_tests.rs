use ros2_relay::relay::{
    classify_exchange, outbound_of_outcome, relay_exchange, relay_response_now, relay_step,
    OutboundResponse, RelayEvent, RelayOutcome, RelayPhase, Timestamp, SENTINEL_VALUE,
};

fn stamp() -> Timestamp {
    Timestamp { seconds: 1_700_000_000, nanos: 123_456_789 }
}

#[test]
fn successful_exchange_carries_sum_and_timestamp() {
    // Inbound {x: 3.0, y: 4.0} converts to summands 3 and 4; a downstream
    // sum of 7 comes back with a present timestamp and value 7.
    let a = 3.0f32 as i64;
    let b = 4.0f32 as i64;
    assert_eq!((a, b), (3, 4));
    let now = stamp();
    let out = relay_exchange(true, Some(7), Some(now));
    assert_eq!(out, OutboundResponse { timestamp: Some(now), value: 7 });
    assert_eq!(out.value as f32, 7.0f32);
}

#[test]
fn send_failure_yields_sentinel() {
    let out = relay_exchange(false, None, Some(stamp()));
    assert_eq!(out, OutboundResponse { timestamp: None, value: 0 });
}

#[test]
fn response_failure_yields_sentinel() {
    let out = relay_exchange(true, None, Some(stamp()));
    assert_eq!(out, OutboundResponse { timestamp: None, value: 0 });
}

#[test]
fn sentinel_value_is_zero() {
    assert_eq!(SENTINEL_VALUE, 0);
}

#[test]
fn relay_handler_stamps_success_with_wall_clock() {
    let out = relay_response_now(true, Some(7));
    assert_eq!(out.value, 7);
    let ts = out.timestamp.expect("success must carry a timestamp");
    // The wall clock reads a plausible instant: after 2020, nanos in range.
    assert!(ts.seconds > 1_577_836_800);
    assert!((0..1_000_000_000).contains(&ts.nanos));
}

#[test]
fn relay_handler_send_failure_has_no_timestamp() {
    let out = relay_response_now(false, None);
    assert_eq!(out, OutboundResponse { timestamp: None, value: 0 });
}

#[test]
fn relay_handler_response_failure_has_no_timestamp() {
    let out = relay_response_now(true, None);
    assert_eq!(out, OutboundResponse { timestamp: None, value: 0 });
}

#[test]
fn computed_zero_and_failure_differ_only_in_timestamp() {
    // A genuine downstream sum of 0 and a failure both carry value 0; only
    // the timestamp tells them apart.
    let ok = relay_exchange(true, Some(0), Some(stamp()));
    let failed = relay_exchange(true, None, Some(stamp()));
    assert_eq!(ok.value, failed.value);
    assert!(ok.timestamp.is_some());
    assert!(failed.timestamp.is_none());
}

#[test]
fn classification_keeps_failure_paths_distinct() {
    assert_eq!(classify_exchange(false, None), RelayOutcome::SendFailed);
    assert_eq!(classify_exchange(true, None), RelayOutcome::ResponseFailed);
    assert_eq!(classify_exchange(true, Some(5)), RelayOutcome::Succeeded { sum: 5 });
}

#[test]
fn both_failure_outcomes_map_to_the_same_sentinel() {
    let now = Some(stamp());
    let send_failed = outbound_of_outcome(RelayOutcome::SendFailed, now);
    let response_failed = outbound_of_outcome(RelayOutcome::ResponseFailed, now);
    assert_eq!(send_failed, OutboundResponse { timestamp: None, value: 0 });
    assert_eq!(send_failed, response_failed);
}

#[test]
fn state_machine_transitions() {
    let sent = relay_step(RelayPhase::AwaitingSend, RelayEvent::SendAccepted);
    assert_eq!(sent, RelayPhase::AwaitingResponse);

    let rejected = relay_step(RelayPhase::AwaitingSend, RelayEvent::SendRejected);
    assert_eq!(rejected, RelayPhase::Done { outcome: RelayOutcome::SendFailed });

    let answered = relay_step(RelayPhase::AwaitingResponse, RelayEvent::ResponseArrived { sum: 9 });
    assert_eq!(answered, RelayPhase::Done { outcome: RelayOutcome::Succeeded { sum: 9 } });

    let lost = relay_step(RelayPhase::AwaitingResponse, RelayEvent::ResponseLost);
    assert_eq!(lost, RelayPhase::Done { outcome: RelayOutcome::ResponseFailed });
}

#[test]
fn many_exchanges_stay_correlated() {
    // N exchanges against the same relay logic: each response carries its
    // own exchange's sum, with no cross-talk.
    let sums: Vec<i64> = (0..16).map(|i| 100 + 3 * i).collect();
    let outs: Vec<OutboundResponse> =
        sums.iter().map(|&s| relay_exchange(true, Some(s), Some(stamp()))).collect();
    for (sum, out) in sums.iter().zip(outs.iter()) {
        assert_eq!(out.value, *sum);
        assert!(out.timestamp.is_some());
    }
}
