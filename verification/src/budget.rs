//! Aggregate call budgets. A per-call timeout bounds one round trip; a method making several is
//! bounded only by their SUM, which is what the view waits. A `Budget` is one allowance shared by
//! every outbound call of one entry point. Spans of time are in nanoseconds.
use std::time::Instant;
use vstd::prelude::*;

verus! {

pub const MILLI: u128 = 1_000_000;

pub const SECOND: u128 = 1_000_000_000;

/// Reading a dependency's config or registry, or writing its defaults: local work.
pub const PROBE_BUDGET: u128 = 1500 * MILLI;

pub const INIT_BUDGET: u128 = 5 * SECOND;

/// One token_list or keystore read, or a relayed `list_assets`: local, but a catalogue is tens
/// of kilobytes of JSON.
pub const LOCAL_BUDGET: u128 = 3 * SECOND;

pub const STARTUP_BUDGET: u128 = 6 * SECOND;

pub const READ_BUDGET: u128 = 4 * SECOND;

/// `tokens` and `catalogue`: seeding eth_rpc and token_list on a fresh profile, then two local
/// reads.
pub const TOKENS_BUDGET: u128 = 8 * SECOND;

pub const ACCOUNTS_BUDGET: u128 = 6 * SECOND;

/// A verdict polled every five seconds must not outlast its own interval.
pub const VERDICT_BUDGET: u128 = 2 * SECOND;

pub const FEES_BUDGET: u128 = 5 * SECOND;

/// `balances`: the offered read, then evm_assets' own read, which it bounds at fourteen seconds.
pub const BALANCES_BUDGET: u128 = 17 * SECOND;

pub const ASSETS_BUDGET: u128 = 15 * SECOND;

/// One `build_swap`: uniswap_module reads for thirty seconds and probes the winner for eight. Long
/// for the verified proxy's sake, which fetches a proof for every slot that a quote touches.
pub const BUILD_BUDGET: u128 = 40 * SECOND;

/// One `prepare` or `send`: the sender's own cap, shrunk to what is left by `deadlineMs`.
pub const SENDER_BUDGET: u128 = 18 * SECOND;

/// A quote: the build, then the sender, as one allowance.
pub const QUOTE_BUDGET: u128 = 58 * SECOND;

/// A swap: the registry read, the build, then the sender, as one allowance.
pub const SWAP_BUDGET: u128 = 60 * SECOND;

/// One relayed `send_status`: the sender collects the signatures and broadcasts on this call.
pub const STATUS_BUDGET: u128 = 18 * SECOND;

/// The sender cancels locally, then tells the keystore within three seconds of its own.
pub const CANCEL_BUDGET: u128 = 5 * SECOND;

/// One relayed `history`: the sender's own receipt sweep is bounded at ten seconds.
pub const HISTORY_BUDGET: u128 = 12 * SECOND;

/// What the view's transport waits for one call, and for a quote or a swap.
pub const VIEW_CALL: u128 = 20 * SECOND;

pub const VIEW_SWAP_CALL: u128 = 62 * SECOND;

/// Below this a grant buys nothing, and the protocol refuses a sub-millisecond bound outright.
pub const MIN_SLICE: u128 = 50 * MILLI;

pub const CALLEE_MARGIN: u128 = 300 * MILLI;

/// The deadline, in milliseconds, for a callee that is waited for that long.
pub open spec fn deadline_for(transport: u128) -> Option<i64> {
    if transport >= CALLEE_MARGIN + MIN_SLICE {
        Some(((transport - CALLEE_MARGIN) as u128 / MILLI) as i64)
    } else {
        None
    }
}

/// The deadline to hand a callee this caller will wait `transport` for: shorter, so the
/// callee's own error sentence comes home rather than a bare transport timeout.
pub fn callee_deadline(transport: u128) -> (r: Option<i64>)
    ensures
        r == deadline_for(transport),
{
    if transport < CALLEE_MARGIN || transport - CALLEE_MARGIN < MIN_SLICE {
        return None;
    }
    let millis: u128 = (transport - CALLEE_MARGIN) / MILLI;
    Some(
        #[verifier::truncate]
        (millis as i64),
    )
}

/// What a call may spend out of `total`, once `elapsed` is gone.
pub open spec fn grant(total: u128, elapsed: u128, per_call: u128) -> Option<u128> {
    let left = total - elapsed;
    let most = if left < per_call {
        left
    } else {
        per_call as int
    };
    if most >= MIN_SLICE {
        Some(most as u128)
    } else {
        None
    }
}

/// The whole policy, clock-free. A grant never exceeds what is left.
pub fn slice(total: u128, elapsed: u128, per_call: u128) -> (r: Option<u128>)
    ensures
        r == grant(total, elapsed, per_call),
{
    if elapsed > total {
        return None;
    }
    let left: u128 = total - elapsed;
    let most: u128 = if left < per_call {
        left
    } else {
        per_call
    };
    if most >= MIN_SLICE {
        Some(most)
    } else {
        None
    }
}

/// `std::time::Instant`, a reading of the clock. It is carried, never looked into.
#[verifier::external_type_specification]
#[verifier::external_body]
pub struct ExInstant(std::time::Instant);

/// `std::time::Instant::now`. Nothing is claimed of the reading.
#[verifier::external_body]
fn clock() -> (r: Instant) {
    Instant::now()
}

/// `std::time::Instant::elapsed`, in nanoseconds. Nothing is claimed of how long it was.
#[verifier::external_body]
fn nanos_since(started: &Instant) -> (r: u128) {
    started.elapsed().as_nanos()
}

/// A shrinking allowance shared by every outbound call on one entry point.
pub struct Budget {
    started: Instant,
    total: u128,
}

impl Budget {
    /// The whole allowance.
    pub closed spec fn total(self) -> u128 {
        self.total
    }

    pub fn new(total: u128) -> (r: Self)
        ensures
            r.total() == total,
    {
        Budget { started: clock(), total }
    }

    /// How much of the allowance is gone. The clock decides: nothing is claimed of how much it is.
    pub fn elapsed(&self) -> (r: u128) {
        nanos_since(&self.started)
    }

    /// What the next call may spend, or `None` once too little is left to be worth a call.
    pub fn take(&self, per_call: u128) -> (r: Option<u128>)
        ensures
            exists|elapsed: u128| r == #[trigger] grant(self.total(), elapsed, per_call),
    {
        let elapsed: u128 = self.elapsed();
        let r = slice(self.total, elapsed, per_call);
        assert(r == grant(self.total(), elapsed, per_call));
        r
    }
}

/// A grant never exceeds what is left, nor what one call may take, and a sliver is nothing.
pub proof fn law_grant_within_what_is_left(total: u128, elapsed: u128, per_call: u128)
    ensures
        grant(total, elapsed, per_call) matches Some(t) ==> t + elapsed <= total && t <= per_call
            && t >= MIN_SLICE,
        grant(total, elapsed, per_call) is None <==> total - elapsed < MIN_SLICE || per_call
            < MIN_SLICE,
{
}

/// An allowance only shrinks: what is granted later is no more, and what was once refused stays so.
pub proof fn law_allowance_shrinks(total: u128, earlier: u128, later: u128, per_call: u128)
    requires
        earlier <= later,
    ensures
        grant(total, later, per_call) matches Some(t) ==> (grant(
            total,
            earlier,
            per_call,
        ) matches Some(s) && t <= s),
{
}

/// A callee is told less than its caller waits for it, so that its own sentence comes home.
pub proof fn law_callee_answers_first(transport: u128)
    requires
        transport / MILLI <= i64::MAX,
    ensures
        deadline_for(transport) matches Some(ms) ==> 0 < ms && ms * MILLI + CALLEE_MARGIN
            <= transport,
{
    let left = transport - CALLEE_MARGIN;
    if transport >= CALLEE_MARGIN + MIN_SLICE {
        let millis: u128 = (left as u128) / MILLI;
        assert(millis * MILLI <= left && millis >= 1 && millis <= transport / MILLI);
        assert(millis as i64 == millis);
    }
}

/// Every entry point answers inside the view's transport.
pub proof fn law_answers_inside_the_views_transport()
    ensures
        READ_BUDGET < VIEW_CALL && TOKENS_BUDGET < VIEW_CALL && ACCOUNTS_BUDGET < VIEW_CALL
            && VERDICT_BUDGET < VIEW_CALL && FEES_BUDGET < VIEW_CALL && BALANCES_BUDGET < VIEW_CALL
            && STATUS_BUDGET < VIEW_CALL && CANCEL_BUDGET < VIEW_CALL && HISTORY_BUDGET < VIEW_CALL,
        QUOTE_BUDGET < VIEW_SWAP_CALL && SWAP_BUDGET < VIEW_SWAP_CALL,
{
}

/// A build that spends its whole allowance still leaves the sender its own.
pub proof fn law_slowest_build_leaves_the_sender_time(elapsed: u128)
    ensures
        elapsed <= BUILD_BUDGET ==> grant(QUOTE_BUDGET, elapsed, SENDER_BUDGET) == Some(
            SENDER_BUDGET,
        ),
        elapsed <= PROBE_BUDGET + BUILD_BUDGET ==> grant(SWAP_BUDGET, elapsed, SENDER_BUDGET)
            == Some(SENDER_BUDGET),
{
}

} // verus!
