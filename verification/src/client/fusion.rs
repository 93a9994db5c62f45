//! The fusion reader's decisions: it subscribes to the tags and forwards
//! what the server pushes; when the subscription cannot be made, reports an
//! error, closes or stays silent too long, it falls back for good to
//! polling the tags at the update rate.
//!
//! The task that awaits the subscription, the pushed values, the reads and
//! the sleeps hands each outcome to these functions and sends the events
//! they return.

use vstd::prelude::*;
use vstd::string::*;

use crate::client::types::{OpcError, TagValue};
use crate::text::{decimal, push_decimal_u64};

verus! {

/// Settings of a fusion reader.
pub struct FusionReaderOptions {
    /// Subscription update rate, and the polling period after a fallback (ms).
    pub update_rate: u32,
    /// How long a subscription may stay silent before the reader falls back (ms).
    pub fallback_timeout_ms: u64,
    /// Capacity of the event channel.
    pub buffer: usize,
}

impl Default for FusionReaderOptions {
    /// 1000 ms updates, a 10 s silence limit, 256 buffered events.
    fn default() -> (o: Self)
        ensures
            o.update_rate == 1000,
            o.fallback_timeout_ms == 10000,
            o.buffer == 256,
    {
        FusionReaderOptions { update_rate: 1000, fallback_timeout_ms: 10000, buffer: 256 }
    }
}

/// What the reader reports.
pub enum FusionEvent {
    /// A tag value, pushed or polled.
    Data(TagValue),
    /// The subscription is up; values are pushed.
    Subscribed,
    /// The reader fell back to polling, for this reason.
    Fallback(OpcError),
}

/// How the subscription attempt ended.
pub enum SubscribeOutcome {
    Subscribed,
    Failed(OpcError),
    /// It did not finish in time (the server's call-back path may be blocked).
    TimedOut,
}

/// Whether values are pushed or polled.
#[derive(Clone, Copy, PartialEq, Eq, Structural)]
pub enum FusionMode {
    Push,
    Poll,
}

/// The reader's state.
pub struct FusionState {
    pub mode: FusionMode,
    /// Whether a push stream exists.
    pub has_stream: bool,
    /// When a value last arrived (ms on the task's clock).
    pub last_data_ms: u64,
    pub fallback_timeout_ms: u64,
}

/// The fallback reason for a subscription that did not finish in time.
pub open spec fn subscribe_timeout_text() -> Seq<char> {
    "订阅 8s 未完成（反向回调可能不通）"@
}

/// The fallback reason for a silent subscription.
pub open spec fn silence_text(timeout_ms: u64) -> Seq<char> {
    "回调静默 "@ + decimal((timeout_ms / 1000) as nat) + "s"@
}

/// The fallback reason for a closed push stream.
pub open spec fn closed_text() -> Seq<char> {
    "推送流关闭"@
}

/// The fallback reason for a read that did not finish in time.
pub open spec fn read_timeout_text() -> Seq<char> {
    "read 超时 5s"@
}

/// `e` is a connection error with message `msg`.
pub open spec fn is_connection_msg(e: OpcError, msg: Seq<char>) -> bool {
    e matches OpcError::Connection(m) && m@ == msg
}

/// The reason a silent subscription is given up.
fn silence_error(timeout_ms: u64) -> (e: OpcError)
    ensures
        is_connection_msg(e, silence_text(timeout_ms)),
{
    let mut m = String::from_str("回调静默 ");
    push_decimal_u64(&mut m, timeout_ms / 1000);
    m.append("s");
    OpcError::Connection(m)
}

/// The state and first event after the subscription attempt at `now_ms`:
/// pushing with a fresh silence clock, or polling with the reason.
pub fn after_subscribe(outcome: SubscribeOutcome, now_ms: u64, fallback_timeout_ms: u64) -> (r: (
    FusionState,
    FusionEvent,
))
    ensures
        r.0.fallback_timeout_ms == fallback_timeout_ms,
        outcome is Subscribed ==> r.0.mode == FusionMode::Push && r.0.has_stream && r.0.last_data_ms
            == now_ms && r.1 is Subscribed,
        outcome matches SubscribeOutcome::Failed(e) ==> r.0.mode == FusionMode::Poll && r.1 == FusionEvent::Fallback(e),
        outcome is TimedOut ==> r.0.mode == FusionMode::Poll && (r.1 matches FusionEvent::Fallback(e)
            && is_connection_msg(e, subscribe_timeout_text())),
{
    match outcome {
        SubscribeOutcome::Subscribed => (
            FusionState { mode: FusionMode::Push, has_stream: true, last_data_ms: now_ms, fallback_timeout_ms },
            FusionEvent::Subscribed,
        ),
        SubscribeOutcome::Failed(e) => (
            FusionState { mode: FusionMode::Poll, has_stream: false, last_data_ms: now_ms, fallback_timeout_ms },
            FusionEvent::Fallback(e),
        ),
        SubscribeOutcome::TimedOut => (
            FusionState { mode: FusionMode::Poll, has_stream: false, last_data_ms: now_ms, fallback_timeout_ms },
            FusionEvent::Fallback(OpcError::Connection(String::from_str("订阅 8s 未完成（反向回调可能不通）"))),
        ),
    }
}

/// What a push-mode iteration does before waiting.
pub enum PushCheck {
    /// Fall back to polling, reporting the reason.
    Fallback(OpcError),
    /// Fall back to polling without a report (there is no push stream).
    FallBackSilently,
    /// Wait up to `left_ms` for the next pushed value.
    Wait { left_ms: u64 },
}

/// `now - last`, or 0 where the clock reads earlier.
pub open spec fn since(now: u64, last: u64) -> nat {
    if now >= last {
        (now - last) as nat
    } else {
        0
    }
}

/// A push-mode iteration at `now_ms`: a subscription error reported by the
/// worker, a missing stream, or silence beyond the limit ends push mode;
/// otherwise the reader waits for what is left of the silence limit.
pub fn push_check(state: &mut FusionState, pending_error: Option<OpcError>, now_ms: u64) -> (r: PushCheck)
    requires
        old(state).mode == FusionMode::Push,
    ensures
        final(state).has_stream == old(state).has_stream,
        final(state).last_data_ms == old(state).last_data_ms,
        final(state).fallback_timeout_ms == old(state).fallback_timeout_ms,
        pending_error matches Some(e) ==> r == PushCheck::Fallback(e) && final(state).mode == FusionMode::Poll,
        pending_error is None && !old(state).has_stream ==> r is FallBackSilently && final(state).mode
            == FusionMode::Poll,
        pending_error is None && old(state).has_stream && since(now_ms, old(state).last_data_ms)
            >= old(state).fallback_timeout_ms ==> (r matches PushCheck::Fallback(e) && is_connection_msg(
            e,
            silence_text(old(state).fallback_timeout_ms),
        )) && final(state).mode == FusionMode::Poll,
        pending_error is None && old(state).has_stream && since(now_ms, old(state).last_data_ms)
            < old(state).fallback_timeout_ms ==> r == (PushCheck::Wait {
            left_ms: (old(state).fallback_timeout_ms - since(now_ms, old(state).last_data_ms)) as u64,
        }) && final(state).mode == FusionMode::Push,
{
    if let Some(e) = pending_error {
        state.mode = FusionMode::Poll;
        return PushCheck::Fallback(e);
    }
    if !state.has_stream {
        state.mode = FusionMode::Poll;
        return PushCheck::FallBackSilently;
    }
    let elapsed = now_ms.saturating_sub(state.last_data_ms);
    if elapsed >= state.fallback_timeout_ms {
        state.mode = FusionMode::Poll;
        return PushCheck::Fallback(silence_error(state.fallback_timeout_ms));
    }
    PushCheck::Wait { left_ms: state.fallback_timeout_ms - elapsed }
}

/// How waiting for a pushed value ended.
pub enum WaitOutcome {
    Value(TagValue),
    /// The push stream closed.
    Closed,
    TimedOut,
}

/// After a wait at `now_ms`: a value is forwarded and restarts the silence
/// clock; a closed stream or a timeout ends push mode with its reason.
pub fn after_wait(state: &mut FusionState, outcome: WaitOutcome, now_ms: u64) -> (event: FusionEvent)
    requires
        old(state).mode == FusionMode::Push,
    ensures
        final(state).has_stream == old(state).has_stream,
        final(state).fallback_timeout_ms == old(state).fallback_timeout_ms,
        outcome matches WaitOutcome::Value(tv) ==> event == FusionEvent::Data(tv) && final(state).mode
            == FusionMode::Push && final(state).last_data_ms == now_ms,
        outcome is Closed ==> (event matches FusionEvent::Fallback(e) && is_connection_msg(e, closed_text()))
            && final(state).mode == FusionMode::Poll && final(state).last_data_ms == old(state).last_data_ms,
        outcome is TimedOut ==> (event matches FusionEvent::Fallback(e) && is_connection_msg(
            e,
            silence_text(old(state).fallback_timeout_ms),
        )) && final(state).mode == FusionMode::Poll && final(state).last_data_ms == old(state).last_data_ms,
{
    match outcome {
        WaitOutcome::Value(tv) => {
            state.last_data_ms = now_ms;
            FusionEvent::Data(tv)
        },
        WaitOutcome::Closed => {
            state.mode = FusionMode::Poll;
            FusionEvent::Fallback(OpcError::Connection(String::from_str("推送流关闭")))
        },
        WaitOutcome::TimedOut => {
            state.mode = FusionMode::Poll;
            FusionEvent::Fallback(silence_error(state.fallback_timeout_ms))
        },
    }
}

/// How a polling read ended.
pub enum PollOutcome {
    Values(Vec<TagValue>),
    Failed(OpcError),
    TimedOut,
}

/// The events of one polling read: each value, or the reason the read failed.
pub fn poll_events(outcome: PollOutcome) -> (events: Vec<FusionEvent>)
    ensures
        outcome matches PollOutcome::Values(vs) ==> events@.len() == vs@.len() && forall|i: int|
            0 <= i < vs@.len() ==> #[trigger] events@[i] == FusionEvent::Data(vs@[i]),
        outcome matches PollOutcome::Failed(e) ==> events@ == seq![FusionEvent::Fallback(e)],
        outcome is TimedOut ==> events@.len() == 1 && (events@[0] matches FusionEvent::Fallback(e)
            && is_connection_msg(e, read_timeout_text())),
{
    match outcome {
        PollOutcome::Values(vs) => {
            let ghost original = vs@;
            let mut events: Vec<FusionEvent> = Vec::new();
            let mut rest = vs;
            while rest.len() > 0
                invariant
                    events@.len() + rest@.len() == original.len(),
                    rest@ == original.skip(events@.len() as int),
                    forall|i: int| 0 <= i < events@.len() ==> #[trigger] events@[i] == FusionEvent::Data(original[i]),
                decreases rest@.len(),
            {
                let tv = rest.remove(0);
                assert(tv == original[events@.len() as int]);
                events.push(FusionEvent::Data(tv));
                assert(rest@ =~= original.skip(events@.len() as int));
            }
            events
        },
        PollOutcome::Failed(e) => {
            let mut events: Vec<FusionEvent> = Vec::new();
            events.push(FusionEvent::Fallback(e));
            events
        },
        PollOutcome::TimedOut => {
            let mut events: Vec<FusionEvent> = Vec::new();
            events.push(FusionEvent::Fallback(OpcError::Connection(String::from_str("read 超时 5s"))));
            events
        },
    }
}

} // verus!
