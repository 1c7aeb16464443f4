//! The decisions of the log subscriber: what each delivered log does to the
//! netflow book, and when to subscribe again after a failure.
use vstd::prelude::*;

use crate::amount::{amount_bound, be_value};
use crate::netflow::abs;
use crate::registry::Registry;
use crate::store::{cumulative_in, Ledger, StoreError};
use crate::transfer::{
    classify, decode, decoded_from, is_transfer_log, topic_address, ClassifiedFlow, DecodeError, RawLog,
    TransferEvent,
};

verus! {

/// What one delivered log calls for.
#[derive(Clone, Debug, PartialEq, Eq)]
pub enum LogPlan {
    /// The log is not a transfer: skip it.
    Skip(DecodeError),
    /// The transfer touches no monitored address: write nothing.
    Ignore,
    /// Record this transfer with this flow.
    Write(TransferEvent, ClassifiedFlow),
}

/// The inflow that a transfer log brings to the exchange of `registry`.
pub open spec fn log_inflow(registry: Registry, log: RawLog) -> nat {
    if registry.contains_spec(topic_address(log.topics@[2]@)) { be_value(log.data@) } else { 0 }
}

/// The outflow that a transfer log takes from the exchange of `registry`.
pub open spec fn log_outflow(registry: Registry, log: RawLog) -> nat {
    if !registry.contains_spec(topic_address(log.topics@[2]@)) && registry.contains_spec(
        topic_address(log.topics@[1]@),
    ) {
        be_value(log.data@)
    } else {
        0
    }
}

/// Whether a transfer log moves nothing into or out of the exchange.
pub open spec fn log_is_irrelevant(registry: Registry, log: RawLog) -> bool {
    log_inflow(registry, log) == 0 && log_outflow(registry, log) == 0
}

/// Decodes and classifies one log and says what to do with it: skip it,
/// ignore it, or write it.
pub fn plan_log(registry: &Registry, log: &RawLog) -> (r: LogPlan)
    ensures
        r == LogPlan::Skip(DecodeError::MalformedLog) <==> !is_transfer_log(*log),
        r == LogPlan::Ignore <==> is_transfer_log(*log) && log_is_irrelevant(*registry, *log),
        r is Write <==> is_transfer_log(*log) && !log_is_irrelevant(*registry, *log),
        r matches LogPlan::Write(e, f) ==> {
            &&& decoded_from(e, *log)
            &&& f.label@ == registry.label@
            &&& f.inflow.value() == log_inflow(*registry, *log)
            &&& f.outflow.value() == log_outflow(*registry, *log)
        },
{
    let event = match decode(log) {
        Ok(e) => e,
        Err(e) => return LogPlan::Skip(e),
    };
    let flow: ClassifiedFlow = classify(&event, registry);
    if flow.is_irrelevant() {
        LogPlan::Ignore
    } else {
        LogPlan::Write(event, flow)
    }
}

/// What became of one delivered log.
#[derive(Clone, Copy, Debug, PartialEq, Eq)]
pub enum LogOutcome {
    /// The log is not a transfer; it is skipped.
    Skipped(DecodeError),
    /// The transfer touches no monitored address; nothing is written.
    Irrelevant,
    /// The transfer and the new snapshot were written.
    Recorded,
    /// The write failed and left the book as it was.
    StoreFailed(StoreError),
}

/// Decodes, classifies and, where the transfer touches the exchange, records
/// one log in the book.
pub fn process_log(ledger: &mut Ledger, registry: &Registry, log: &RawLog) -> (r: LogOutcome)
    requires
        old(ledger).wf(),
    ensures
        final(ledger).wf(),
        r == LogOutcome::Skipped(DecodeError::MalformedLog) <==> !is_transfer_log(*log),
        r == LogOutcome::Irrelevant <==> is_transfer_log(*log) && log_is_irrelevant(*registry, *log),
        is_transfer_log(*log) ==> {
            let inflow = log_inflow(*registry, *log);
            let outflow = log_outflow(*registry, *log);
            let next = cumulative_in(old(ledger).snapshots@, registry.label@) + inflow - outflow;
            &&& r == LogOutcome::StoreFailed(StoreError::IdsExhausted) <==> !log_is_irrelevant(*registry, *log)
                && old(ledger).snapshots@.len() >= u64::MAX
            &&& r == LogOutcome::StoreFailed(StoreError::Overflow) <==> !log_is_irrelevant(*registry, *log)
                && old(ledger).snapshots@.len() < u64::MAX && abs(next) >= amount_bound()
            &&& r == LogOutcome::Recorded <==> !log_is_irrelevant(*registry, *log)
                && old(ledger).snapshots@.len() < u64::MAX && abs(next) < amount_bound()
            &&& r == LogOutcome::Recorded ==> {
                let s = final(ledger).snapshots@.last();
                let t = final(ledger).transfers@.last();
                &&& final(ledger).snapshots@.len() == old(ledger).snapshots@.len() + 1
                &&& final(ledger).transfers@.len() == old(ledger).transfers@.len() + 1
                &&& final(ledger).snapshots@.drop_last() == old(ledger).snapshots@
                &&& final(ledger).transfers@.drop_last() == old(ledger).transfers@
                &&& s.label@ == registry.label@
                &&& s.inflow.value() == inflow && s.outflow.value() == outflow
                &&& s.cumulative.value() == next
                &&& t.from.bytes@ == topic_address(log.topics@[1]@)
                &&& t.to.bytes@ == topic_address(log.topics@[2]@)
                &&& t.amount.value() == be_value(log.data@)
                &&& t.block_number == log.block_number && t.tx_hash@ == log.tx_hash@
            }
        },
        log.topics@.len() >= 3 && !registry.contains_spec(topic_address(log.topics@[1]@))
            && !registry.contains_spec(topic_address(log.topics@[2]@)) ==> *final(ledger) == *old(ledger),
        r != LogOutcome::Recorded ==> *final(ledger) == *old(ledger),
{
    match plan_log(registry, log) {
        LogPlan::Skip(e) => LogOutcome::Skipped(e),
        LogPlan::Ignore => LogOutcome::Irrelevant,
        LogPlan::Write(event, flow) => match ledger.record(&event, &flow) {
            Ok(()) => LogOutcome::Recorded,
            Err(e) => LogOutcome::StoreFailed(e),
        },
    }
}

/// The delay before the `k`-th consecutive retry (from 1): `base`, doubled
/// for each further retry, never above `cap`.
pub open spec fn backoff_delay(base: nat, cap: nat, k: nat) -> nat
    decreases k,
{
    if k <= 1 {
        if base < cap { base } else { cap }
    } else {
        let d = 2 * backoff_delay(base, cap, (k - 1) as nat);
        if d < cap { d } else { cap }
    }
}

/// What the subscription reported.
#[derive(Clone, Copy, Debug, PartialEq, Eq)]
pub enum SubscriptionEvent {
    /// The subscription is open and delivering logs.
    Opened,
    /// Opening the subscription failed.
    OpenFailed,
    /// The stream of logs ended or failed.
    StreamEnded,
}

/// What to do next with the subscription.
#[derive(Clone, Copy, Debug, PartialEq, Eq)]
pub enum SubscriptionAction {
    /// Wait this long, then open the subscription.
    Subscribe { delay_ms: u64 },
    /// Process the logs that the open subscription delivers.
    Listen,
}

/// Reconnection with exponential backoff, bounded jitter and no limit on
/// the number of retries.
#[derive(Clone, Copy, Debug, PartialEq, Eq)]
pub struct Reconnect {
    pub base_ms: u64,
    pub cap_ms: u64,
    /// The most jitter added to a delay.
    pub max_jitter_ms: u64,
    /// Consecutive failures since the subscription was last open.
    pub failures: u32,
    pub listening: bool,
}

impl Reconnect {
    /// The first delay is positive, its jitter stays below it, the two
    /// together stay below the cap (so the second delay always exceeds the
    /// first), and no delay with its jitter overflows.
    pub open spec fn wf(self) -> bool {
        &&& 0 < self.base_ms
        &&& self.max_jitter_ms < self.base_ms
        &&& self.base_ms + self.max_jitter_ms < self.cap_ms
        &&& self.cap_ms + self.max_jitter_ms <= u64::MAX
    }
}

/// The jitter that a drawn value contributes: the value, clipped to the bound.
pub open spec fn clipped_jitter(s: Reconnect, drawn: u64) -> nat {
    if drawn < s.max_jitter_ms { drawn as nat } else { s.max_jitter_ms as nat }
}

/// The state after `ev`.
pub open spec fn next_state(s: Reconnect, ev: SubscriptionEvent) -> Reconnect {
    match ev {
        SubscriptionEvent::Opened => Reconnect { failures: 0, listening: true, ..s },
        _ => Reconnect {
            failures: if s.failures < u32::MAX { (s.failures + 1) as u32 } else { s.failures },
            listening: false,
            ..s
        },
    }
}

/// The action after `ev`, with `drawn` as the random part of the delay.
pub open spec fn next_action(s: Reconnect, ev: SubscriptionEvent, drawn: u64) -> SubscriptionAction {
    match ev {
        SubscriptionEvent::Opened => SubscriptionAction::Listen,
        _ => SubscriptionAction::Subscribe {
            delay_ms: (backoff_delay(s.base_ms as nat, s.cap_ms as nat, next_state(s, ev).failures as nat)
                + clipped_jitter(s, drawn)) as u64,
        },
    }
}

proof fn lemma_backoff_bounded(base: nat, cap: nat, k: nat)
    ensures
        backoff_delay(base, cap, k) <= cap,
    decreases k,
{
    if k > 1 {
        lemma_backoff_bounded(base, cap, (k - 1) as nat);
    }
}

proof fn lemma_backoff_positive(base: nat, cap: nat, k: nat)
    requires
        0 < base <= cap,
    ensures
        backoff_delay(base, cap, k) >= base,
    decreases k,
{
    if k > 1 {
        lemma_backoff_positive(base, cap, (k - 1) as nat);
    }
}

/// The delay before the `k`-th retry, computed without overflow.
fn backoff_delay_ms(base: u64, cap: u64, k: u32) -> (r: u64)
    requires
        k >= 1,
    ensures
        r == backoff_delay(base as nat, cap as nat, k as nat),
        r <= cap,
{
    let mut d: u64 = if base < cap { base } else { cap };
    let mut i: u32 = 1;
    while i < k
        invariant
            1 <= i <= k,
            d == backoff_delay(base as nat, cap as nat, i as nat),
            d <= cap,
        decreases k - i,
    {
        d = if d > cap / 2 { cap } else { 2 * d };
        i = i + 1;
    }
    d
}

impl Reconnect {
    /// A subscriber that has not subscribed yet. Delays start at `base_ms`,
    /// double up to `cap_ms`, and get up to `max_jitter_ms` on top.
    pub fn new(base_ms: u64, cap_ms: u64, max_jitter_ms: u64) -> (r: Reconnect)
        requires
            0 < base_ms,
            max_jitter_ms < base_ms,
            base_ms + max_jitter_ms < cap_ms,
            cap_ms + max_jitter_ms <= u64::MAX,
        ensures
            r.wf(),
            r == (Reconnect { base_ms, cap_ms, max_jitter_ms, failures: 0, listening: false }),
    {
        Reconnect { base_ms, cap_ms, max_jitter_ms, failures: 0, listening: false }
    }

    /// The first action: subscribe at once.
    pub fn start(&self) -> (r: SubscriptionAction)
        ensures
            r == (SubscriptionAction::Subscribe { delay_ms: 0 }),
    {
        SubscriptionAction::Subscribe { delay_ms: 0 }
    }

    /// Takes what the subscription reported and says what to do next: listen
    /// once it is open, else subscribe again after the next backoff delay
    /// plus the drawn jitter, clipped to its bound.
    pub fn on_event(&mut self, ev: SubscriptionEvent, drawn_jitter_ms: u64) -> (r: SubscriptionAction)
        requires
            old(self).wf(),
        ensures
            final(self).wf(),
            *final(self) == next_state(*old(self), ev),
            r == next_action(*old(self), ev, drawn_jitter_ms),
    {
        match ev {
            SubscriptionEvent::Opened => {
                self.failures = 0;
                self.listening = true;
                SubscriptionAction::Listen
            },
            _ => {
                if self.failures < u32::MAX {
                    self.failures = self.failures + 1;
                }
                self.listening = false;
                let backoff = backoff_delay_ms(self.base_ms, self.cap_ms, self.failures);
                let jitter = if drawn_jitter_ms < self.max_jitter_ms {
                    drawn_jitter_ms
                } else {
                    self.max_jitter_ms
                };
                SubscriptionAction::Subscribe { delay_ms: backoff + jitter }
            },
        }
    }
}

/// Retry delays never shrink while failures go on, never pass the cap, and
/// double until they reach it.
pub proof fn lemma_backoff_grows(base: nat, cap: nat, k: nat)
    requires
        0 < base <= cap,
        k >= 1,
    ensures
        backoff_delay(base, cap, k) <= backoff_delay(base, cap, k + 1),
        backoff_delay(base, cap, k + 1) <= cap,
        backoff_delay(base, cap, k) < cap ==> backoff_delay(base, cap, k) < backoff_delay(base, cap, k + 1),
{
    lemma_backoff_bounded(base, cap, k);
    lemma_backoff_bounded(base, cap, k + 1);
    lemma_backoff_positive(base, cap, k);
}

/// From a fresh start, two failed subscriptions and a third that opens give
/// three subscribe attempts (the first at once) whose delays, jitter
/// included, strictly increase, and then listening with the failure count
/// cleared.
pub proof fn lemma_two_failures_then_open(s0: Reconnect, j1: u64, j2: u64)
    requires
        s0.wf(),
        s0.failures == 0,
    ensures
        ({
            let s1 = next_state(s0, SubscriptionEvent::OpenFailed);
            let s2 = next_state(s1, SubscriptionEvent::OpenFailed);
            let s3 = next_state(s2, SubscriptionEvent::Opened);
            let b1 = s0.base_ms as nat;
            let b2: nat = if 2 * s0.base_ms < s0.cap_ms { (2 * s0.base_ms) as nat } else { s0.cap_ms as nat };
            &&& next_action(s0, SubscriptionEvent::OpenFailed, j1) == (SubscriptionAction::Subscribe {
                delay_ms: (b1 + clipped_jitter(s0, j1)) as u64,
            })
            &&& next_action(s1, SubscriptionEvent::OpenFailed, j2) == (SubscriptionAction::Subscribe {
                delay_ms: (b2 + clipped_jitter(s0, j2)) as u64,
            })
            &&& next_action(s2, SubscriptionEvent::Opened, 0) == SubscriptionAction::Listen
            &&& 0 < b1 < b2
            &&& 0 < b1 + clipped_jitter(s0, j1) < b2 + clipped_jitter(s0, j2)
            &&& s3.listening && s3.failures == 0
        }),
{
    assert(backoff_delay(s0.base_ms as nat, s0.cap_ms as nat, 1) == s0.base_ms);
    assert(backoff_delay(s0.base_ms as nat, s0.cap_ms as nat, 2) == if 2 * s0.base_ms < s0.cap_ms {
        (2 * s0.base_ms) as nat
    } else {
        s0.cap_ms as nat
    });
}

} // verus!
