//! The COM worker's decisions: when a failed call is retried on a fresh
//! connection, and when the subscription health monitor asks for a
//! subscription to be rebuilt.
//!
//! The worker thread performs the COM calls and the sleeps; the monitor
//! thread reads the clock and the rebuild replies.  Both hand what they saw
//! to the functions here and do what these return.

use vstd::prelude::*;
use vstd::arithmetic::power2::pow2;
use vstd::string::*;

use crate::client::types::{is_connection_error, is_connection_failure, OpcError};
use crate::text::{decimal, push_decimal_u64};

verus! {

/// Reconnect attempts after the first failed call.
pub const MAX_RECONNECT_ATTEMPTS: u32 = 3;

/// What the worker does after one attempt of a call.
pub enum RetryStep {
    /// The call did not fail for want of a connection: its result stands.
    Finish,
    /// The connection is dead: drop it, wait `backoff_ms`, connect again.
    EvictAndRetry { backoff_ms: u64 },
    /// The connection is dead and no attempt is left: drop it and report
    /// the last connection error.
    EvictAndGiveUp,
}

/// The wait before reconnect attempt `attempt + 1`: 50 ms, doubled each time.
pub open spec fn reconnect_backoff(attempt: nat) -> nat {
    50 * pow2(attempt)
}

/// The decision after attempt `attempt` (counted from 0) whose outcome was
/// (`connection_failed`) or was not a connection error.
pub fn retry_step(attempt: u32, connection_failed: bool) -> (r: RetryStep)
    requires
        attempt <= MAX_RECONNECT_ATTEMPTS,
    ensures
        !connection_failed ==> r is Finish,
        connection_failed && attempt < MAX_RECONNECT_ATTEMPTS ==> r == (RetryStep::EvictAndRetry {
            backoff_ms: reconnect_backoff(attempt as nat) as u64,
        }),
        connection_failed && attempt == MAX_RECONNECT_ATTEMPTS ==> r is EvictAndGiveUp,
{
    if !connection_failed {
        return RetryStep::Finish;
    }
    if attempt < MAX_RECONNECT_ATTEMPTS {
        let backoff_ms: u64 = 50u64 << attempt;
        proof {
            vstd::arithmetic::power2::lemma2_to64();
            if attempt == 0 {
                assert(50u64 << 0u32 == 50u64) by (bit_vector);
            } else if attempt == 1 {
                assert(50u64 << 1u32 == 100u64) by (bit_vector);
            } else {
                assert(50u64 << 2u32 == 200u64) by (bit_vector);
            }
        }
        RetryStep::EvictAndRetry { backoff_ms }
    } else {
        RetryStep::EvictAndGiveUp
    }
}

/// `text` followed by the decimal form of `n`.
pub open spec fn text_with_number(text: Seq<char>, n: u32) -> Seq<char> {
    text + decimal(n as nat)
}

/// `e` is an `InvalidState` error with message `msg`.
pub open spec fn is_invalid_state(e: OpcError, msg: Seq<char>) -> bool {
    e matches OpcError::InvalidState(m) && m@ == msg
}

/// An `InvalidState` error reading `text` and then `cookie`.
fn invalid_state_with(text: &str, cookie: u32) -> (e: OpcError)
    ensures
        is_invalid_state(e, text_with_number(text@, cookie)),
{
    let mut m = String::from_str(text);
    push_decimal_u64(&mut m, cookie as u64);
    OpcError::InvalidState(m)
}

/// The error for a data subscription cookie the worker does not know.
pub fn unknown_subscription(cookie: u32) -> (e: OpcError)
    ensures
        is_invalid_state(e, text_with_number("unknown subscription cookie "@, cookie)),
{
    invalid_state_with("unknown subscription cookie ", cookie)
}

/// The error for a shutdown-notification cookie the worker does not know.
pub fn unknown_shutdown_subscription(cookie: u32) -> (e: OpcError)
    ensures
        is_invalid_state(e, text_with_number("unknown shutdown cookie "@, cookie)),
{
    invalid_state_with("unknown shutdown cookie ", cookie)
}

/// The error for a rebuild of a subscription the worker does not know.
pub fn rebuild_unknown_subscription(cookie: u32) -> (e: OpcError)
    ensures
        is_invalid_state(e, text_with_number("rebuild: unknown subscription cookie "@, cookie)),
{
    invalid_state_with("rebuild: unknown subscription cookie ", cookie)
}

/// The error for a reconnect of a subscription the worker does not know.
pub fn reconnect_unknown_subscription(cookie: u32) -> (e: OpcError)
    ensures
        is_invalid_state(e, text_with_number("reconnect: unknown subscription cookie "@, cookie)),
{
    invalid_state_with("reconnect: unknown subscription cookie ", cookie)
}

/// What a rebuild does after trying to re-advise on the existing group.
pub enum RebuildNext {
    /// The re-advise worked.
    Done,
    /// The server is unreachable: reconnect and rebuild the group.
    Reconnect,
    /// Another failure: report it.
    Fail(OpcError),
}

/// The rebuild's next step after the re-advise attempt: a connection
/// failure leads to a full reconnect, any other failure is reported.
pub fn after_readvise(result: Result<(), OpcError>) -> (r: RebuildNext)
    ensures
        result is Ok ==> r is Done,
        result matches Err(e) ==> (is_connection_failure(e) ==> r is Reconnect) && (!is_connection_failure(e)
            ==> r == RebuildNext::Fail(e)),
{
    match result {
        Ok(()) => RebuildNext::Done,
        Err(e) => {
            if is_connection_error(&e) {
                RebuildNext::Reconnect
            } else {
                RebuildNext::Fail(e)
            }
        },
    }
}

/// Tuning of the subscription health monitor, in milliseconds.
pub struct HealthMonitorConfig {
    /// Sleep between scans of the subscription registry.
    pub period_ms: u64,
    /// Lower bound on the staleness threshold.
    pub min_timeout_ms: u64,
}

impl HealthMonitorConfig {
    /// Production defaults: a scan each second, a 30 s staleness floor.
    pub fn production() -> (c: Self)
        ensures
            c.period_ms == 1000,
            c.min_timeout_ms == 30000,
    {
        HealthMonitorConfig { period_ms: 1000, min_timeout_ms: 30000 }
    }
}

/// Upper bound on the wait after repeated rebuild failures: five minutes.
pub const MONITOR_BACKOFF_CAP_MS: u64 = 300000;

/// `a * b`, or `max` where the product exceeds it.
pub open spec fn saturating_product(a: nat, b: nat, max: nat) -> nat {
    if a * b > max {
        max
    } else {
        a * b
    }
}

/// The smaller of two numbers.
pub open spec fn min_nat(a: nat, b: nat) -> nat {
    if a <= b {
        a
    } else {
        b
    }
}

/// The wait after `failures` consecutive rebuild failures:
/// `period * 2^failures`, at most five minutes.
pub open spec fn monitor_backoff(failures: nat, period_ms: nat) -> nat {
    min_nat(period_ms * pow2(failures), MONITOR_BACKOFF_CAP_MS as nat)
}

/// `p * 2^a <= p * 2^b` for `a <= b`.
proof fn lemma_scaled_pow2_grows(p: nat, a: nat, b: nat)
    requires
        a <= b,
    ensures
        p * pow2(a) <= p * pow2(b),
{
    if a < b {
        vstd::arithmetic::power2::lemma_pow2_strictly_increases(a, b);
    }
    let pa = pow2(a);
    let pb = pow2(b);
    assert(p * pa <= p * pb) by (nonlinear_arith)
        requires
            pa <= pb,
    ;
}

/// Exponential backoff, in ms, after `consecutive_failures` failed
/// rebuilds of one subscription.
pub fn monitor_backoff_ms(consecutive_failures: u32, period_ms: u64) -> (r: u64)
    ensures
        r == monitor_backoff(consecutive_failures as nat, period_ms as nat),
        r <= MONITOR_BACKOFF_CAP_MS,
{
    proof {
        vstd::arithmetic::power2::lemma_pow2_pos(consecutive_failures as nat);
        assert(pow2(0) == 1) by {
            vstd::arithmetic::power2::lemma2_to64();
        }
        lemma_scaled_pow2_grows(period_ms as nat, 0, consecutive_failures as nat);
    }
    if period_ms == 0 {
        assert(0 * pow2(consecutive_failures as nat) == 0) by (nonlinear_arith);
        return 0;
    }
    if period_ms >= MONITOR_BACKOFF_CAP_MS {
        return MONITOR_BACKOFF_CAP_MS;
    }
    let mut v: u64 = period_ms;
    let mut i: u32 = 0;
    while i < consecutive_failures
        invariant
            i <= consecutive_failures,
            v == period_ms * pow2(i as nat),
            v < MONITOR_BACKOFF_CAP_MS,
        decreases consecutive_failures - i,
    {
        proof {
            vstd::arithmetic::power2::lemma_pow2_unfold((i + 1) as nat);
            let q = pow2(i as nat);
            assert(period_ms * (2 * q) == 2 * (period_ms * q)) by (nonlinear_arith);
        }
        let w = v * 2;
        if w >= MONITOR_BACKOFF_CAP_MS {
            proof {
                lemma_scaled_pow2_grows(period_ms as nat, (i + 1) as nat, consecutive_failures as nat);
            }
            return MONITOR_BACKOFF_CAP_MS;
        }
        v = w;
        i = i + 1;
    }
    v
}

/// What became of a subscription's pending rebuild request.
pub enum RebuildReply {
    /// The rebuild succeeded.
    Succeeded,
    /// The rebuild failed.
    Failed,
    /// No reply yet (or the reply channel is gone).
    InFlight,
}

/// What the monitor keeps per subscription.
pub struct MonitorEntry {
    /// When data last arrived (or a rebuild was last sent), in epoch ms.
    pub last_update_ms: u64,
    /// The subscription's update rate.
    pub update_rate_ms: u32,
    /// Rebuild failures in a row.
    pub consecutive_failures: u32,
    /// No rebuild is attempted before this epoch ms.
    pub next_retry_after_ms: u64,
}

/// `min_timeout` as a `u32` count of ms, `u32::MAX` where it does not fit.
pub fn min_timeout_ms_u32(min_timeout_ms: u64) -> (r: u32)
    ensures
        r == min_nat(min_timeout_ms as nat, u32::MAX as nat),
{
    if min_timeout_ms <= u32::MAX as u64 {
        min_timeout_ms as u32
    } else {
        u32::MAX
    }
}

/// A subscription is stale when no data came for longer than
/// `max(update_rate * 3, min_timeout)` (the product saturating at `u32::MAX`).
pub open spec fn staleness_threshold(update_rate_ms: u32, min_timeout_ms: u32) -> nat {
    let tripled = saturating_product(update_rate_ms as nat, 3, u32::MAX as nat);
    if tripled >= min_timeout_ms {
        tripled
    } else {
        min_timeout_ms as nat
    }
}

/// Executable form of [`staleness_threshold`].
pub fn staleness_threshold_ms(update_rate_ms: u32, min_timeout_ms: u32) -> (r: u32)
    ensures
        r == staleness_threshold(update_rate_ms, min_timeout_ms),
{
    let tripled: u32 = match update_rate_ms.checked_mul(3) {
        Some(v) => v,
        None => u32::MAX,
    };
    if tripled >= min_timeout_ms {
        tripled
    } else {
        min_timeout_ms
    }
}

/// `now - last` where `now >= last`, else 0.
pub open spec fn elapsed_since(now: u64, last: u64) -> nat {
    if now >= last {
        (now - last) as nat
    } else {
        0
    }
}

/// The entry after the pending rebuild's reply, if any, is taken in.
pub open spec fn after_reply(e: MonitorEntry, reply: Option<RebuildReply>, now: u64, period_ms: u64) -> MonitorEntry {
    match reply {
        Some(RebuildReply::Succeeded) => MonitorEntry {
            consecutive_failures: 0,
            next_retry_after_ms: 0,
            ..e
        },
        Some(RebuildReply::Failed) => {
            let failures = if e.consecutive_failures == u32::MAX {
                u32::MAX
            } else {
                (e.consecutive_failures + 1) as u32
            };
            MonitorEntry {
                consecutive_failures: failures,
                next_retry_after_ms: (now + monitor_backoff(failures as nat, period_ms as nat)) as u64,
                ..e
            }
        },
        _ => e,
    }
}

/// Whether a scan at `now` asks for a rebuild of the entry `e` (after its
/// reply was taken in): not while a rebuild is in flight, not inside the
/// backoff window, and only when the subscription is stale.
pub open spec fn scan_triggers(
    e: MonitorEntry,
    reply: Option<RebuildReply>,
    now: u64,
    min_timeout_ms: u32,
) -> bool {
    &&& !(reply matches Some(RebuildReply::InFlight))
    &&& now >= e.next_retry_after_ms
    &&& elapsed_since(now, e.last_update_ms) > staleness_threshold(e.update_rate_ms, min_timeout_ms)
}

/// One scan of one subscription at epoch ms `now`.  `reply` is `None` when
/// no rebuild was pending, else what became of it.  Updates the failure
/// count and backoff window, and says whether to request a rebuild.
pub fn scan_entry(
    entry: &mut MonitorEntry,
    reply: Option<RebuildReply>,
    now: u64,
    min_timeout_ms: u32,
    period_ms: u64,
) -> (trigger: bool)
    requires
        now <= u64::MAX - MONITOR_BACKOFF_CAP_MS,
    ensures
        *final(entry) == after_reply(*old(entry), reply, now, period_ms),
        trigger == scan_triggers(*final(entry), reply, now, min_timeout_ms),
{
    match reply {
        Some(RebuildReply::InFlight) => {
            return false;
        },
        Some(RebuildReply::Succeeded) => {
            entry.consecutive_failures = 0;
            entry.next_retry_after_ms = 0;
        },
        Some(RebuildReply::Failed) => {
            entry.consecutive_failures = entry.consecutive_failures.saturating_add(1);
            entry.next_retry_after_ms = now + monitor_backoff_ms(entry.consecutive_failures, period_ms);
        },
        None => {},
    }
    if now < entry.next_retry_after_ms {
        return false;
    }
    let threshold = staleness_threshold_ms(entry.update_rate_ms, min_timeout_ms);
    now.saturating_sub(entry.last_update_ms) > threshold as u64
}

/// After a rebuild request was sent: the liveness stamp moves to `now`, so
/// the subscription is not asked for again while the rebuild runs.
pub fn mark_rebuild_sent(entry: &mut MonitorEntry, now: u64)
    ensures
        *final(entry) == (MonitorEntry { last_update_ms: now, ..*old(entry) }),
{
    entry.last_update_ms = now;
}

/// The rebuild backoff never shrinks as failures accumulate, and never
/// exceeds five minutes.
pub proof fn lemma_backoff_monotone(fewer: nat, more: nat, period_ms: nat)
    requires
        fewer <= more,
    ensures
        monitor_backoff(fewer, period_ms) <= monitor_backoff(more, period_ms),
        monitor_backoff(more, period_ms) <= MONITOR_BACKOFF_CAP_MS,
{
    lemma_scaled_pow2_grows(period_ms, fewer, more);
}

/// A subscription whose data is not older than its staleness threshold is
/// never asked to rebuild.
pub proof fn lemma_fresh_never_rebuilt(
    e: MonitorEntry,
    reply: Option<RebuildReply>,
    now: u64,
    min_timeout_ms: u32,
    period_ms: u64,
)
    requires
        elapsed_since(now, e.last_update_ms) <= staleness_threshold(e.update_rate_ms, min_timeout_ms),
    ensures
        !scan_triggers(after_reply(e, reply, now, period_ms), reply, now, min_timeout_ms),
{
}

/// A failed rebuild is not retried within its backoff window, and with a
/// nonzero scan period that window reaches past the scan that saw the
/// failure.
pub proof fn lemma_failure_backs_off(
    e: MonitorEntry,
    now: u64,
    later: u64,
    min_timeout_ms: u32,
    period_ms: u64,
)
    requires
        period_ms > 0,
        now <= u64::MAX - MONITOR_BACKOFF_CAP_MS,
        now <= later,
        later < after_reply(e, Some(RebuildReply::Failed), now, period_ms).next_retry_after_ms,
    ensures
        !scan_triggers(after_reply(e, Some(RebuildReply::Failed), now, period_ms), None, later, min_timeout_ms),
        after_reply(e, Some(RebuildReply::Failed), now, period_ms).next_retry_after_ms > now,
{
    let f = after_reply(e, Some(RebuildReply::Failed), now, period_ms).consecutive_failures;
    let k = min_nat(f as nat, 8);
    vstd::arithmetic::power2::lemma_pow2_pos(k);
    assert(period_ms * pow2(k) >= 1) by (nonlinear_arith)
        requires
            period_ms > 0,
            pow2(k) > 0,
    ;
    lemma_backoff_monotone(f as nat, f as nat, period_ms as nat);
}

/// Once a rebuild request was sent, the next scan at the same instant does
/// not ask again while no reply has come.
pub proof fn lemma_sent_not_asked_again(e: MonitorEntry, now: u64, min_timeout_ms: u32)
    ensures
        !scan_triggers(MonitorEntry { last_update_ms: now, ..e }, None, now, min_timeout_ms),
{
}

/// A successful rebuild clears the failure count and the backoff window.
pub proof fn lemma_success_resets(e: MonitorEntry, now: u64, period_ms: u64)
    ensures
        after_reply(e, Some(RebuildReply::Succeeded), now, period_ms).consecutive_failures == 0,
        after_reply(e, Some(RebuildReply::Succeeded), now, period_ms).next_retry_after_ms == 0,
        after_reply(e, Some(RebuildReply::Succeeded), now, period_ms).last_update_ms == e.last_update_ms,
{
}

} // verus!
