//! The per-request relay state machine.
//!
//! One inbound request drives one downstream exchange: the request is sent,
//! a response is awaited, and the result — or any transport failure on the
//! way — is folded into exactly one outbound response. Failures are never
//! escalated: they are absorbed into a sentinel response with an absent
//! timestamp and a zero value ("fail-soft").

use vstd::prelude::*;

verus! {

/// Sentinel value carried by the outbound response when the downstream
/// exchange fails.
pub const SENTINEL_VALUE: i64 = 0;

/// A wall-clock instant: seconds and nanoseconds since the Unix epoch,
/// held as plain values.
#[derive(Clone, Copy, PartialEq, Eq, Debug)]
pub struct Timestamp {
    pub seconds: i64,
    pub nanos: i32,
}

/// Tagged result of one downstream exchange. The tagging is kept explicit
/// so that the two failure paths stay distinguishable inside the library,
/// even though both map to the same sentinel on the wire.
#[derive(Clone, Copy, PartialEq, Eq, Debug)]
pub enum RelayOutcome {
    /// The downstream service answered with this sum.
    Succeeded { sum: i64 },
    /// The transport refused to accept the request.
    SendFailed,
    /// The request was accepted but no response could be retrieved.
    ResponseFailed,
}

/// The outbound response: a timestamp that is present only on success, and
/// the downstream sum — or the sentinel value on failure.
#[derive(Clone, Copy, PartialEq, Eq, Debug)]
pub struct OutboundResponse {
    pub timestamp: Option<Timestamp>,
    pub value: i64,
}

/// Phase of one relay exchange.
#[derive(Clone, Copy, PartialEq, Eq, Debug)]
pub enum RelayPhase {
    /// The downstream request has not been handed to the transport yet.
    AwaitingSend,
    /// The request was accepted; the response has not arrived yet.
    AwaitingResponse,
    /// The exchange ended with this outcome.
    Done { outcome: RelayOutcome },
}

/// Event observed by one relay exchange.
#[derive(Clone, Copy, PartialEq, Eq, Debug)]
pub enum RelayEvent {
    /// The transport accepted the request and returned a token.
    SendAccepted,
    /// The transport refused the request.
    SendRejected,
    /// The downstream response arrived with this sum.
    ResponseArrived { sum: i64 },
    /// Retrieving the response failed.
    ResponseLost,
}

/// An event fits the phase it is delivered in: send events belong to
/// `AwaitingSend`, response events to `AwaitingResponse`, and a finished
/// exchange accepts no further event.
pub open spec fn event_fits_phase(phase: RelayPhase, event: RelayEvent) -> bool {
    match phase {
        RelayPhase::AwaitingSend => event is SendAccepted || event is SendRejected,
        RelayPhase::AwaitingResponse => event is ResponseArrived || event is ResponseLost,
        RelayPhase::Done { .. } => false,
    }
}

/// Transition function of the relay state machine.
pub open spec fn spec_step(phase: RelayPhase, event: RelayEvent) -> RelayPhase {
    match event {
        RelayEvent::SendAccepted => RelayPhase::AwaitingResponse,
        RelayEvent::SendRejected => RelayPhase::Done { outcome: RelayOutcome::SendFailed },
        RelayEvent::ResponseArrived { sum } => RelayPhase::Done {
            outcome: RelayOutcome::Succeeded { sum },
        },
        RelayEvent::ResponseLost => RelayPhase::Done { outcome: RelayOutcome::ResponseFailed },
    }
}

/// Advance one relay exchange by one observed event.
pub fn relay_step(phase: RelayPhase, event: RelayEvent) -> (next: RelayPhase)
    requires
        event_fits_phase(phase, event),
    ensures
        next == spec_step(phase, event),
        phase is AwaitingSend && event is SendAccepted ==> next is AwaitingResponse,
        event is SendRejected ==> next == (RelayPhase::Done {
            outcome: RelayOutcome::SendFailed,
        }),
        event is ResponseLost ==> next == (RelayPhase::Done {
            outcome: RelayOutcome::ResponseFailed,
        }),
        forall|sum: i64|
            event == (RelayEvent::ResponseArrived { sum }) ==> next == (RelayPhase::Done {
                outcome: RelayOutcome::Succeeded { sum },
            }),
{
    match event {
        RelayEvent::SendAccepted => RelayPhase::AwaitingResponse,
        RelayEvent::SendRejected => RelayPhase::Done { outcome: RelayOutcome::SendFailed },
        RelayEvent::ResponseArrived { sum } => RelayPhase::Done {
            outcome: RelayOutcome::Succeeded { sum },
        },
        RelayEvent::ResponseLost => RelayPhase::Done { outcome: RelayOutcome::ResponseFailed },
    }
}

/// Outcome of one exchange, given whether the transport accepted the
/// request and, if it did, the downstream sum (`None` when retrieving the
/// response failed).
pub open spec fn spec_exchange_outcome(send_accepted: bool, response: Option<i64>) -> RelayOutcome {
    if !send_accepted {
        RelayOutcome::SendFailed
    } else {
        match response {
            Some(sum) => RelayOutcome::Succeeded { sum },
            None => RelayOutcome::ResponseFailed,
        }
    }
}

/// Classify one downstream exchange into its tagged outcome.
pub fn classify_exchange(send_accepted: bool, response: Option<i64>) -> (o: RelayOutcome)
    ensures
        o == spec_exchange_outcome(send_accepted, response),
{
    if !send_accepted {
        RelayOutcome::SendFailed
    } else {
        match response {
            Some(sum) => RelayOutcome::Succeeded { sum },
            None => RelayOutcome::ResponseFailed,
        }
    }
}

/// The outbound response for a tagged outcome: a success carries the
/// downstream sum and the completion time; either failure is absorbed into
/// the sentinel (absent timestamp, zero value).
pub open spec fn spec_outbound_of(outcome: RelayOutcome, now: Option<Timestamp>) -> OutboundResponse {
    match outcome {
        RelayOutcome::Succeeded { sum } => OutboundResponse { timestamp: now, value: sum },
        RelayOutcome::SendFailed => OutboundResponse {
            timestamp: None,
            value: SENTINEL_VALUE,
        },
        RelayOutcome::ResponseFailed => OutboundResponse {
            timestamp: None,
            value: SENTINEL_VALUE,
        },
    }
}

/// Build the one outbound response for a finished exchange.
pub fn outbound_of_outcome(outcome: RelayOutcome, now: Option<Timestamp>) -> (r: OutboundResponse)
    ensures
        r == spec_outbound_of(outcome, now),
        forall|sum: i64|
            outcome == (RelayOutcome::Succeeded { sum }) ==> r == (OutboundResponse {
                timestamp: now,
                value: sum,
            }),
        outcome is SendFailed || outcome is ResponseFailed ==> r.timestamp is None && r.value
            == SENTINEL_VALUE,
{
    match outcome {
        RelayOutcome::Succeeded { sum } => OutboundResponse { timestamp: now, value: sum },
        RelayOutcome::SendFailed => OutboundResponse { timestamp: None, value: SENTINEL_VALUE },
        RelayOutcome::ResponseFailed => OutboundResponse {
            timestamp: None,
            value: SENTINEL_VALUE,
        },
    }
}

/// One full relay decision, with the completion time handed in: convert
/// the transport result of the downstream exchange into the single
/// outbound response. Fail-soft: a failure anywhere yields the sentinel,
/// never an escalated error.
pub fn relay_exchange(send_accepted: bool, response: Option<i64>, now: Option<Timestamp>) -> (r:
    OutboundResponse)
    ensures
        r == spec_outbound_of(spec_exchange_outcome(send_accepted, response), now),
        !send_accepted ==> r.timestamp is None && r.value == SENTINEL_VALUE,
        send_accepted && response is None ==> r.timestamp is None && r.value == SENTINEL_VALUE,
        forall|sum: i64|
            send_accepted && response == Some(sum) ==> r == (OutboundResponse {
                timestamp: now,
                value: sum,
            }),
{
    let outcome = classify_exchange(send_accepted, response);
    outbound_of_outcome(outcome, now)
}

/// Relies on make87_messages' `CurrentTime` impl for prost's `Timestamp`
/// (`Timestamp::get_current_time`): it reads the system wall clock, always
/// returns `Some`, and the nanosecond field lies below one billion.
#[verifier::external_body]
fn current_wall_clock() -> (t: Option<Timestamp>)
    ensures
        t is Some,
        t matches Some(ts) ==> 0 <= ts.nanos < 1_000_000_000,
{
    <make87_messages::well_known_types::Timestamp as make87_messages::CurrentTime>::get_current_time().map(
        |w| Timestamp { seconds: w.seconds, nanos: w.nanos },
    )
}

/// The per-request relay handler core: fold the transport result of one
/// downstream exchange into the outbound response, stamping a success with
/// the wall-clock time captured at completion.
pub fn relay_response_now(send_accepted: bool, response: Option<i64>) -> (r: OutboundResponse)
    ensures
        !send_accepted ==> r.timestamp is None && r.value == SENTINEL_VALUE,
        send_accepted && response is None ==> r.timestamp is None && r.value == SENTINEL_VALUE,
        forall|sum: i64|
            send_accepted && response == Some(sum) ==> r.value == sum && r.timestamp is Some,
{
    let now = current_wall_clock();
    relay_exchange(send_accepted, response, now)
}

/// Driving the state machine through one full exchange — the send event,
/// then (when the send was accepted) the response event — always ends in
/// `Done`, with exactly the outcome that `spec_exchange_outcome` assigns
/// to the exchange.
pub proof fn lemma_machine_decides_exchange(send_accepted: bool, response: Option<i64>)
    ensures
        ({
            let first = spec_step(
                RelayPhase::AwaitingSend,
                if send_accepted {
                    RelayEvent::SendAccepted
                } else {
                    RelayEvent::SendRejected
                },
            );
            if send_accepted {
                spec_step(
                    first,
                    match response {
                        Some(sum) => RelayEvent::ResponseArrived { sum },
                        None => RelayEvent::ResponseLost,
                    },
                ) == (RelayPhase::Done {
                    outcome: spec_exchange_outcome(send_accepted, response),
                })
            } else {
                first == (RelayPhase::Done {
                    outcome: spec_exchange_outcome(send_accepted, response),
                })
            }
        }),
{
}

/// No cross-talk between concurrent relays: the outbound response is a
/// function of that exchange's own transport events and completion time
/// alone, so relays sharing one client binding cannot affect one another's
/// responses.
pub proof fn lemma_exchange_independent(
    send1: bool,
    resp1: Option<i64>,
    now1: Option<Timestamp>,
    send2: bool,
    resp2: Option<i64>,
    now2: Option<Timestamp>,
)
    requires
        send1 == send2,
        resp1 == resp2,
        now1 == now2,
    ensures
        spec_outbound_of(spec_exchange_outcome(send1, resp1), now1) == spec_outbound_of(
            spec_exchange_outcome(send2, resp2),
            now2,
        ),
{
}

} // verus!
