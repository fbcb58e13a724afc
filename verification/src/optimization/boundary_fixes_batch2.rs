//! Fixes for concurrency, timeout and resource-exhaustion edge cases:
//! versioned state, stamped compare-and-exchange, timeout budgets, a circuit
//! breaker, a memory throttle and a token-bucket IO limiter.

use vstd::prelude::*;
use crate::clock::{unix_now_millis, unix_now_secs};
use crate::text::{cat, decimal, decimal_string, owned};

verus! {

/// A value updated together with a version counter.
pub struct ConcurrentStateFix {
    pub state: u64,
    pub version: u64,
    pub lock_order: usize,
}

/// `x + 1` in 64-bit wrapping arithmetic, as an atomic `fetch_add(1)` counts.
pub open spec fn wrap_inc(x: u64) -> u64 {
    if x == u64::MAX { 0 } else { (x + 1) as u64 }
}

impl ConcurrentStateFix {
    pub fn new() -> (s: Self)
        ensures
            s.state == 0,
            s.version == 0,
            s.lock_order == 0,
    {
        ConcurrentStateFix { state: 0, version: 0, lock_order: 0 }
    }

    /// Replaces the state and bumps the version.
    pub fn atomic_update(&mut self, new_value: u64) -> (r: Result<u64, String>)
        ensures
            r == Ok::<u64, String>(new_value),
            final(self).state == new_value,
            final(self).version == wrap_inc(old(self).version),
            final(self).lock_order == old(self).lock_order,
    {
        self.state = new_value;
        self.version = self.version.wrapping_add(1);
        Ok(new_value)
    }

    pub fn get_state_with_version(&self) -> (r: (u64, u64))
        ensures
            r == (self.state, self.version),
    {
        (self.state, self.version)
    }
}

/// A read after an update sees the updated value under a version one past the old one.
pub proof fn law_update_then_read(before: ConcurrentStateFix, after: ConcurrentStateFix, v: u64)
    requires
        after.state == v,
        after.version == wrap_inc(before.version),
    ensures
        (after.state, after.version).0 == v,
        before.version < u64::MAX ==> after.version == before.version + 1,
{
}

/// One `atomic_update(x)` step from `before` to `after`, as its contract
/// states it.
pub open spec fn update_step(before: ConcurrentStateFix, after: ConcurrentStateFix, x: u64) -> bool {
    &&& after.state == x
    &&& after.version == wrap_inc(before.version)
    &&& after.lock_order == before.lock_order
}

/// `states` is a run of updates writing `xs` in turn, starting from `states[0]`.
pub open spec fn update_run(states: Seq<ConcurrentStateFix>, xs: Seq<u64>) -> bool {
    &&& states.len() == xs.len() + 1
    &&& forall|k: int| 0 <= k < xs.len() ==> #[trigger] update_step(states[k], states[k + 1], xs[k])
}

/// After `n` updates in a row, none of which wraps the version, the version
/// is `n` past where it started and the state is the last value written (the
/// starting state when there was none).
pub proof fn law_updates_count_versions(states: Seq<ConcurrentStateFix>, xs: Seq<u64>)
    requires
        update_run(states, xs),
        states[0].version + xs.len() <= u64::MAX,
    ensures
        states.last().version == states[0].version + xs.len(),
        xs.len() > 0 ==> states.last().state == xs.last(),
        xs.len() == 0 ==> states.last().state == states[0].state,
    decreases xs.len(),
{
    if xs.len() > 0 {
        let n = xs.len() as int;
        let sp = states.drop_last();
        let xp = xs.drop_last();
        assert forall|k: int| 0 <= k < xp.len() implies #[trigger] update_step(sp[k], sp[k + 1], xp[k]) by {
            assert(update_step(states[k], states[k + 1], xs[k]));
        }
        law_updates_count_versions(sp, xp);
        assert(update_step(states[n - 1], states[n], xs[n - 1]));
    }
}

/// A condition flag whose every change bumps a version, so waiters can tell a
/// real change from a spurious wake-up.
pub struct SpuriousWakeupFix {
    pub condition_met: bool,
    pub version: u64,
    pub wait_count: u64,
}

/// What one check of a waiter's loop finds: the version once the condition holds.
pub open spec fn poll_result(s: SpuriousWakeupFix) -> Option<u64> {
    if s.condition_met { Some(s.version) } else { None }
}

/// Once the condition is set, a waiter that starts waiting, with no reset in
/// between, finds it at its first check, at a version past the one before the
/// set (one past it, unless the version wrapped).
pub proof fn law_set_then_wait(s0: SpuriousWakeupFix, s1: SpuriousWakeupFix, s2: SpuriousWakeupFix, v: u64)
    requires
        s1.condition_met,
        s1.version == wrap_inc(s0.version),
        v == s1.version,
        s2.condition_met == s1.condition_met,
        s2.version == s1.version,
    ensures
        poll_result(s2) == Some(v),
        s0.version < u64::MAX ==> v == s0.version + 1,
{
}

impl SpuriousWakeupFix {
    pub fn new() -> (s: Self)
        ensures
            !s.condition_met,
            s.version == 0,
            s.wait_count == 0,
    {
        SpuriousWakeupFix { condition_met: false, version: 0, wait_count: 0 }
    }

    pub fn set_condition(&mut self)
        ensures
            final(self).condition_met,
            final(self).version == wrap_inc(old(self).version),
            final(self).wait_count == old(self).wait_count,
    {
        self.condition_met = true;
        self.version = self.version.wrapping_add(1);
    }

    pub fn reset(&mut self)
        ensures
            !final(self).condition_met,
            final(self).version == wrap_inc(old(self).version),
            final(self).wait_count == old(self).wait_count,
    {
        self.condition_met = false;
        self.version = self.version.wrapping_add(1);
    }

    /// Registers a waiter and returns the version it starts waiting at.
    pub fn begin_wait(&mut self) -> (v: u64)
        ensures
            v == old(self).version,
            final(self).wait_count == wrap_inc(old(self).wait_count),
            final(self).condition_met == old(self).condition_met,
            final(self).version == old(self).version,
    {
        self.wait_count = self.wait_count.wrapping_add(1);
        self.version
    }

    /// One check of a waiter's loop: the current version once the condition
    /// holds, `None` while it does not (a wake-up that finds it unset is spurious).
    pub fn poll_condition(&self) -> (r: Option<u64>)
        ensures
            r == poll_result(*self),
    {
        if self.condition_met {
            Some(self.version)
        } else {
            None
        }
    }
}

/// A value with a stamp that every successful exchange advances.
pub struct ABAProblemFix {
    pub value: u64,
    pub stamp: u64,
}

impl ABAProblemFix {
    pub fn new(initial_value: u64) -> (s: Self)
        ensures
            s.value == initial_value,
            s.stamp == 0,
    {
        ABAProblemFix { value: initial_value, stamp: 0 }
    }

    /// Replaces the value when both value and stamp match what the caller saw;
    /// otherwise reports the current pair.
    pub fn compare_exchange_with_stamp(&mut self, expected_value: u64, expected_stamp: u64, new_value: u64) -> (r: Result<u64, (u64, u64)>)
        requires
            old(self).value == expected_value && old(self).stamp == expected_stamp ==> old(self).stamp < u64::MAX,
        ensures
            (old(self).value == expected_value && old(self).stamp == expected_stamp) ==> {
                &&& r == Ok::<u64, (u64, u64)>(new_value)
                &&& final(self).value == new_value
                &&& final(self).stamp == old(self).stamp + 1
            },
            !(old(self).value == expected_value && old(self).stamp == expected_stamp) ==> {
                &&& r == Err::<u64, (u64, u64)>((old(self).value, old(self).stamp))
                &&& final(self).value == old(self).value
                &&& final(self).stamp == old(self).stamp
            },
    {
        let current_value = self.value;
        let current_stamp = self.stamp;
        if current_value == expected_value && current_stamp == expected_stamp {
            self.stamp = current_stamp + 1;
            self.value = new_value;
            Ok(new_value)
        } else {
            Err((current_value, current_stamp))
        }
    }

    pub fn load_with_stamp(&self) -> (r: (u64, u64))
        ensures
            r == (self.value, self.stamp),
    {
        (self.value, self.stamp)
    }
}

/// A stamp seen before a successful exchange can never succeed again:
/// the stamp only grows, so a value that came back is still told apart.
pub proof fn law_stamp_defeats_aba(s0: ABAProblemFix, s1: ABAProblemFix, seen_stamp: u64)
    requires
        s0.stamp == seen_stamp,
        s1.stamp == s0.stamp + 1,
    ensures
        s1.stamp != seen_stamp,
        s1.stamp > seen_stamp,
{
}

/// A timeout budget shared by nested calls: each call gets what remains.
pub struct CascadingTimeoutFix {
    pub total_budget_ms: u64,
    pub start_ms: u64,
}

/// What remains of `budget` after `elapsed`, never below zero.
pub open spec fn remaining(budget: u64, elapsed: int) -> u64 {
    if elapsed >= budget { 0 } else { (budget - elapsed) as u64 }
}

/// Time elapsed from `start` to `now`; a clock that went back counts as no time.
pub open spec fn elapsed_since(start: u64, now: u64) -> int {
    if now >= start { now - start } else { 0 }
}

impl CascadingTimeoutFix {
    /// Starts the budget now.
    pub fn new(total_budget_ms: u64) -> (t: Self)
        ensures
            t.total_budget_ms == total_budget_ms,
    {
        CascadingTimeoutFix { total_budget_ms, start_ms: unix_now_millis() }
    }

    pub fn remaining_timeout_at(&self, now_ms: u64) -> (r: u64)
        ensures
            r == remaining(self.total_budget_ms, elapsed_since(self.start_ms, now_ms)),
            r <= self.total_budget_ms,
    {
        let elapsed = if now_ms >= self.start_ms { now_ms - self.start_ms } else { 0 };
        if elapsed >= self.total_budget_ms {
            0
        } else {
            self.total_budget_ms - elapsed
        }
    }

    /// Milliseconds left of the budget.
    pub fn remaining_timeout(&self) -> (r: u64)
        ensures
            r <= self.total_budget_ms,
            exists|now_ms: u64| r == #[trigger] self.remaining_timeout_at_spec(now_ms),
    {
        let now = unix_now_millis();
        let r = self.remaining_timeout_at(now);
        assert(r == self.remaining_timeout_at_spec(now));
        r
    }

    pub fn is_timeout_at(&self, now_ms: u64) -> (b: bool)
        ensures
            b == (elapsed_since(self.start_ms, now_ms) >= self.total_budget_ms),
            b == (self.remaining_timeout_at_spec(now_ms) == 0),
    {
        let elapsed = if now_ms >= self.start_ms { now_ms - self.start_ms } else { 0 };
        elapsed >= self.total_budget_ms
    }

    pub open spec fn remaining_timeout_at_spec(&self, now_ms: u64) -> u64 {
        remaining(self.total_budget_ms, elapsed_since(self.start_ms, now_ms))
    }

    /// Whether the budget is used up.
    pub fn is_timeout(&self) -> (b: bool)
        ensures
            exists|now_ms: u64| b == (#[trigger] self.remaining_timeout_at_spec(now_ms) == 0),
    {
        self.is_timeout_at(unix_now_millis())
    }
}

/// Circuit breaker states.
pub const STATE_CLOSED: usize = 0;
pub const STATE_OPEN: usize = 1;
pub const STATE_HALF_OPEN: usize = 2;

/// Fails fast while a dependency keeps failing, and probes it again after a
/// recovery timeout.
pub struct FastFailCircuitBreaker {
    pub failure_count: u64,
    pub success_count: u64,
    pub state: usize,
    pub last_failure_time: u64,
    pub failure_threshold: u64,
    pub recovery_timeout_secs: u64,
}

impl FastFailCircuitBreaker {
    /// The state is one of the three known states.
    pub open spec fn wf(&self) -> bool {
        self.state <= STATE_HALF_OPEN
    }

    pub fn new(failure_threshold: u64, recovery_timeout_secs: u64) -> (b: Self)
        ensures
            b.wf(),
            b.failure_count == 0,
            b.success_count == 0,
            b.state == STATE_CLOSED,
            b.last_failure_time == 0,
            b.failure_threshold == failure_threshold,
            b.recovery_timeout_secs == recovery_timeout_secs,
    {
        FastFailCircuitBreaker {
            failure_count: 0,
            success_count: 0,
            state: STATE_CLOSED,
            last_failure_time: 0,
            failure_threshold,
            recovery_timeout_secs,
        }
    }

    /// Closed and half-open breakers let requests through; an open one lets
    /// one through, turning half-open, once the recovery timeout has passed
    /// since the last failure (a clock that went back counts as no time).
    pub fn allow_request_at(&mut self, now_secs: u64) -> (b: bool)
        ensures
            old(self).wf() ==> final(self).wf(),
            old(self).state == STATE_CLOSED ==> b && final(self).state == STATE_CLOSED,
            old(self).state == STATE_HALF_OPEN ==> b && final(self).state == STATE_HALF_OPEN,
            old(self).state == STATE_OPEN ==> {
                let ready = elapsed_since(old(self).last_failure_time, now_secs) >= old(self).recovery_timeout_secs;
                &&& b == ready
                &&& final(self).state == (if ready { STATE_HALF_OPEN } else { STATE_OPEN })
            },
            old(self).state > STATE_HALF_OPEN ==> !b && final(self).state == old(self).state,
            final(self).failure_count == old(self).failure_count,
            final(self).success_count == old(self).success_count,
            final(self).last_failure_time == old(self).last_failure_time,
            final(self).failure_threshold == old(self).failure_threshold,
            final(self).recovery_timeout_secs == old(self).recovery_timeout_secs,
    {
        if self.state == STATE_CLOSED {
            true
        } else if self.state == STATE_OPEN {
            let elapsed = if now_secs >= self.last_failure_time { now_secs - self.last_failure_time } else { 0 };
            if elapsed >= self.recovery_timeout_secs {
                self.state = STATE_HALF_OPEN;
                true
            } else {
                false
            }
        } else if self.state == STATE_HALF_OPEN {
            true
        } else {
            false
        }
    }

    /// Whether a request may go through now, as `allow_request_at` decides
    /// at the clock's reading: closed and half-open breakers let it through;
    /// an open one lets it through exactly when it turns half-open.
    pub fn allow_request(&mut self) -> (b: bool)
        ensures
            old(self).wf() ==> final(self).wf(),
            old(self).state == STATE_CLOSED ==> b && final(self).state == STATE_CLOSED,
            old(self).state == STATE_HALF_OPEN ==> b && final(self).state == STATE_HALF_OPEN,
            old(self).state == STATE_OPEN ==> (b <==> final(self).state == STATE_HALF_OPEN) && (final(self).state
                == STATE_HALF_OPEN || final(self).state == STATE_OPEN),
            old(self).state > STATE_HALF_OPEN ==> !b && final(self).state == old(self).state,
            final(self).failure_count == old(self).failure_count,
            final(self).success_count == old(self).success_count,
            final(self).last_failure_time == old(self).last_failure_time,
            final(self).failure_threshold == old(self).failure_threshold,
            final(self).recovery_timeout_secs == old(self).recovery_timeout_secs,
    {
        self.allow_request_at(unix_now_secs())
    }

    /// Counts a success; a half-open breaker closes and forgets its failures.
    pub fn record_success(&mut self)
        ensures
            old(self).wf() ==> final(self).wf(),
            final(self).success_count == wrap_inc(old(self).success_count),
            old(self).state == STATE_HALF_OPEN ==> final(self).state == STATE_CLOSED && final(self).failure_count == 0,
            old(self).state != STATE_HALF_OPEN ==> final(self).state == old(self).state && final(self).failure_count
                == old(self).failure_count,
            final(self).last_failure_time == old(self).last_failure_time,
            final(self).failure_threshold == old(self).failure_threshold,
            final(self).recovery_timeout_secs == old(self).recovery_timeout_secs,
    {
        self.success_count = self.success_count.wrapping_add(1);
        if self.state == STATE_HALF_OPEN {
            self.state = STATE_CLOSED;
            self.failure_count = 0;
        }
    }

    /// Counts a failure at `now_secs`: a half-open breaker opens again, and any
    /// other breaker opens once the failures reach the threshold.
    pub fn record_failure_at(&mut self, now_secs: u64)
        ensures
            old(self).wf() ==> final(self).wf(),
            final(self).failure_count == wrap_inc(old(self).failure_count),
            final(self).last_failure_time == now_secs,
            old(self).state == STATE_HALF_OPEN ==> final(self).state == STATE_OPEN,
            old(self).state != STATE_HALF_OPEN ==> final(self).state == (if final(self).failure_count
                >= old(self).failure_threshold {
                STATE_OPEN
            } else {
                old(self).state
            }),
            final(self).success_count == old(self).success_count,
            final(self).failure_threshold == old(self).failure_threshold,
            final(self).recovery_timeout_secs == old(self).recovery_timeout_secs,
    {
        self.failure_count = self.failure_count.wrapping_add(1);
        self.last_failure_time = now_secs;
        if self.state == STATE_HALF_OPEN {
            self.state = STATE_OPEN;
        } else if self.failure_count >= self.failure_threshold {
            self.state = STATE_OPEN;
        }
    }

    /// Counts a failure now, as `record_failure_at` does at the clock's reading.
    pub fn record_failure(&mut self)
        ensures
            old(self).wf() ==> final(self).wf(),
            final(self).failure_count == wrap_inc(old(self).failure_count),
            old(self).state == STATE_HALF_OPEN ==> final(self).state == STATE_OPEN,
            old(self).state != STATE_HALF_OPEN ==> final(self).state == (if final(self).failure_count
                >= old(self).failure_threshold {
                STATE_OPEN
            } else {
                old(self).state
            }),
            final(self).success_count == old(self).success_count,
            final(self).failure_threshold == old(self).failure_threshold,
            final(self).recovery_timeout_secs == old(self).recovery_timeout_secs,
    {
        self.record_failure_at(unix_now_secs())
    }

    /// The error a refused request fails with.
    pub fn create_fast_fail_error(&self) -> (e: String)
        ensures
            e@ == "Circuit breaker is open, fast fail"@,
    {
        owned("Circuit breaker is open, fast fail")
    }

    /// The state's label.
    pub fn get_state(&self) -> (s: &'static str)
        ensures
            s@ == (if self.state == STATE_CLOSED {
                "CLOSED"@
            } else if self.state == STATE_OPEN {
                "OPEN"@
            } else if self.state == STATE_HALF_OPEN {
                "HALF_OPEN"@
            } else {
                "UNKNOWN"@
            }),
            self.wf() ==> s@ != "UNKNOWN"@,
    {
        proof {
            reveal_strlit("UNKNOWN");
            reveal_strlit("CLOSED");
            reveal_strlit("OPEN");
            reveal_strlit("HALF_OPEN");
            assert("CLOSED"@.len() != "UNKNOWN"@.len());
            assert("OPEN"@.len() != "UNKNOWN"@.len());
            assert("HALF_OPEN"@.len() != "UNKNOWN"@.len());
        }
        if self.state == STATE_CLOSED {
            "CLOSED"
        } else if self.state == STATE_OPEN {
            "OPEN"
        } else if self.state == STATE_HALF_OPEN {
            "HALF_OPEN"
        } else {
            "UNKNOWN"
        }
    }
}

/// From a closed breaker, `threshold` failures in a row open it, and it then
/// refuses requests until the recovery timeout has passed.
pub proof fn law_breaker_opens_at_threshold(b: FastFailCircuitBreaker, after: FastFailCircuitBreaker, now: u64)
    requires
        b.state == STATE_CLOSED,
        after.failure_count == wrap_inc(b.failure_count),
        after.failure_count >= b.failure_threshold,
        after.last_failure_time == now,
        after.recovery_timeout_secs == b.recovery_timeout_secs,
        after.state == (if after.failure_count >= b.failure_threshold { STATE_OPEN } else { b.state }),
        b.recovery_timeout_secs > 0,
    ensures
        after.state == STATE_OPEN,
        elapsed_since(after.last_failure_time, now) < after.recovery_timeout_secs,
{
}

/// Statistics of a memory throttle.
pub struct MemoryPoolStats {
    pub allocated: usize,
    pub max_allocation: usize,
    pub allocation_count: u64,
    pub rejection_count: u64,
}

/// Caps the memory handed out, warning above a soft limit and refusing above the hard one.
pub struct MemoryPoolThrottling {
    pub pool_size: usize,
    pub allocated: usize,
    pub max_allocation: usize,
    pub soft_limit: usize,
    pub allocation_count: u64,
    pub rejection_count: u64,
}

/// `x - y` in wrapping arithmetic, as an atomic `fetch_sub` computes.
pub open spec fn wrap_sub(x: usize, y: usize) -> usize {
    if x >= y { (x - y) as usize } else { (x - y + usize::MAX + 1) as usize }
}

impl MemoryPoolThrottling {
    pub fn new(max_allocation: usize, soft_limit: usize) -> (p: Self)
        ensures
            p.pool_size == 0,
            p.allocated == 0,
            p.max_allocation == max_allocation,
            p.soft_limit == soft_limit,
            p.allocation_count == 0,
            p.rejection_count == 0,
    {
        MemoryPoolThrottling { pool_size: 0, allocated: 0, max_allocation, soft_limit, allocation_count: 0, rejection_count: 0 }
    }

    /// Grants `size` more when the total stays within the hard limit; refuses
    /// and counts a rejection otherwise.
    pub fn try_allocate(&mut self, size: usize) -> (r: Result<(), String>)
        ensures
            (old(self).allocated + size > old(self).max_allocation) ==> {
                &&& r is Err
                &&& r->Err_0@ == "Memory limit exceeded: current="@ + decimal(old(self).allocated as nat) + ", requested="@
                    + decimal(size as nat) + ", max="@ + decimal(old(self).max_allocation as nat)
                &&& final(self).allocated == old(self).allocated
                &&& final(self).allocation_count == old(self).allocation_count
                &&& final(self).rejection_count == wrap_inc(old(self).rejection_count)
            },
            (old(self).allocated + size <= old(self).max_allocation) ==> {
                &&& r is Ok
                &&& final(self).allocated == old(self).allocated + size
                &&& final(self).allocation_count == wrap_inc(old(self).allocation_count)
                &&& final(self).rejection_count == old(self).rejection_count
            },
            final(self).max_allocation == old(self).max_allocation,
            final(self).soft_limit == old(self).soft_limit,
            final(self).pool_size == old(self).pool_size,
    {
        let current = self.allocated;
        if current > self.max_allocation || size > self.max_allocation - current {
            self.rejection_count = self.rejection_count.wrapping_add(1);
            let a = cat("Memory limit exceeded: current=", decimal_string(current as u64).as_str());
            let b = cat(a.as_str(), ", requested=");
            let c = cat(b.as_str(), decimal_string(size as u64).as_str());
            let d = cat(c.as_str(), ", max=");
            let e = cat(d.as_str(), decimal_string(self.max_allocation as u64).as_str());
            return Err(e);
        }
        self.allocated = current + size;
        self.allocation_count = self.allocation_count.wrapping_add(1);
        Ok(())
    }

    /// Whether the total in use is above the soft limit.
    pub fn above_soft_limit(&self) -> (b: bool)
        ensures
            b == (self.allocated > self.soft_limit),
    {
        self.allocated > self.soft_limit
    }

    /// Returns `size`; the total wraps as an atomic subtraction does.
    pub fn deallocate(&mut self, size: usize)
        ensures
            final(self).allocated == wrap_sub(old(self).allocated, size),
            final(self).max_allocation == old(self).max_allocation,
            final(self).soft_limit == old(self).soft_limit,
            final(self).allocation_count == old(self).allocation_count,
            final(self).rejection_count == old(self).rejection_count,
            final(self).pool_size == old(self).pool_size,
    {
        self.allocated = self.allocated.wrapping_sub(size);
    }

    pub fn get_stats(&self) -> (s: MemoryPoolStats)
        ensures
            s.allocated == self.allocated,
            s.max_allocation == self.max_allocation,
            s.allocation_count == self.allocation_count,
            s.rejection_count == self.rejection_count,
    {
        MemoryPoolStats {
            allocated: self.allocated,
            max_allocation: self.max_allocation,
            allocation_count: self.allocation_count,
            rejection_count: self.rejection_count,
        }
    }
}

/// A throttle that starts empty never hands out more than its hard limit,
/// whatever grants it makes.
pub proof fn law_throttle_within_limit(before: MemoryPoolThrottling, after: MemoryPoolThrottling, size: usize)
    requires
        before.allocated <= before.max_allocation,
        after.max_allocation == before.max_allocation,
        (before.allocated + size > before.max_allocation) ==> after.allocated == before.allocated,
        (before.allocated + size <= before.max_allocation) ==> after.allocated == before.allocated + size,
    ensures
        after.allocated <= after.max_allocation,
{
}

/// Statistics of an IO limiter.
pub struct DiskIOStats {
    pub available_tokens: u64,
    pub max_tokens: u64,
    pub io_count: u64,
    pub throttled_count: u64,
}

/// A token bucket for disk IO, refilled at `refill_rate` tokens per second.
pub struct DiskIOLimiter {
    pub tokens: u64,
    pub max_tokens: u64,
    pub refill_rate: u64,
    pub last_refill: u64,
    pub io_count: u64,
    pub throttled_count: u64,
}

/// The bucket after refilling at `now`: tokens for each whole second since
/// the last refill, capped at the maximum (sums and products saturate).
pub open spec fn refilled_tokens(tokens: u64, max_tokens: u64, rate: u64, last: u64, now: u64) -> u64 {
    if now > last {
        let added = if (now - last) * rate > u64::MAX { u64::MAX as int } else { (now - last) * rate };
        let total = if tokens + added > u64::MAX { u64::MAX as int } else { tokens + added };
        if total < max_tokens { total as u64 } else { max_tokens }
    } else {
        tokens
    }
}

/// What taking `cost` tokens at `now` does, from `l0` to `l1` with result `r`:
/// after refilling, the tokens are taken and the I/O counted when there are
/// enough; otherwise the request is refused and counted as throttled.
pub open spec fn acquired(l0: DiskIOLimiter, l1: DiskIOLimiter, now: u64, cost: u64, r: Result<(), String>) -> bool {
    let avail = refilled_tokens(l0.tokens, l0.max_tokens, l0.refill_rate, l0.last_refill, now);
    &&& avail >= cost ==> r is Ok && l1.tokens == avail - cost && l1.io_count == wrap_inc(l0.io_count)
        && l1.throttled_count == l0.throttled_count
    &&& avail < cost ==> r is Err && r->Err_0@ == "IO rate limited: available="@ + decimal(avail as nat)
        + ", requested="@ + decimal(cost as nat) && l1.tokens == avail && l1.io_count == l0.io_count
        && l1.throttled_count == wrap_inc(l0.throttled_count)
}

impl DiskIOLimiter {
    pub open spec fn wf(&self) -> bool {
        self.tokens <= self.max_tokens
    }

    /// A full bucket, last refilled now.
    pub fn new(max_tokens: u64, refill_rate: u64) -> (l: Self)
        ensures
            l.wf(),
            l.tokens == max_tokens,
            l.max_tokens == max_tokens,
            l.refill_rate == refill_rate,
            l.io_count == 0,
            l.throttled_count == 0,
    {
        DiskIOLimiter { tokens: max_tokens, max_tokens, refill_rate, last_refill: unix_now_secs(), io_count: 0, throttled_count: 0 }
    }

    pub fn refill_at(&mut self, now: u64)
        requires
            old(self).wf(),
        ensures
            final(self).wf(),
            final(self).tokens == refilled_tokens(
                old(self).tokens,
                old(self).max_tokens,
                old(self).refill_rate,
                old(self).last_refill,
                now,
            ),
            final(self).last_refill == (if now > old(self).last_refill { now } else { old(self).last_refill }),
            final(self).max_tokens == old(self).max_tokens,
            final(self).refill_rate == old(self).refill_rate,
            final(self).io_count == old(self).io_count,
            final(self).throttled_count == old(self).throttled_count,
    {
        let last = self.last_refill;
        if now > last {
            let elapsed = now - last;
            let new_tokens = match elapsed.checked_mul(self.refill_rate) {
                Some(x) => x,
                None => u64::MAX,
            };
            let total = self.tokens.saturating_add(new_tokens);
            self.tokens = if total < self.max_tokens { total } else { self.max_tokens };
            self.last_refill = now;
        }
    }

    /// Adds the tokens earned since the last refill, as `refill_at` does at
    /// the clock's reading.
    pub fn refill(&mut self)
        requires
            old(self).wf(),
        ensures
            final(self).wf(),
            exists|now: u64| final(self).tokens == #[trigger] refilled_tokens(
                old(self).tokens,
                old(self).max_tokens,
                old(self).refill_rate,
                old(self).last_refill,
                now,
            ),
            final(self).max_tokens == old(self).max_tokens,
            final(self).refill_rate == old(self).refill_rate,
            final(self).io_count == old(self).io_count,
            final(self).throttled_count == old(self).throttled_count,
    {
        self.refill_at(unix_now_secs())
    }

    /// Refills at `now`, then takes `cost` tokens if the bucket holds that many.
    pub fn try_acquire_at(&mut self, now: u64, cost: u64) -> (r: Result<(), String>)
        requires
            old(self).wf(),
        ensures
            final(self).wf(),
            acquired(*old(self), *final(self), now, cost, r),
            final(self).max_tokens == old(self).max_tokens,
            final(self).refill_rate == old(self).refill_rate,
    {
        self.refill_at(now);
        let current = self.tokens;
        if current >= cost {
            self.tokens = current - cost;
            self.io_count = self.io_count.wrapping_add(1);
            Ok(())
        } else {
            self.throttled_count = self.throttled_count.wrapping_add(1);
            let a = cat("IO rate limited: available=", decimal_string(current).as_str());
            let b = cat(a.as_str(), ", requested=");
            let c = cat(b.as_str(), decimal_string(cost).as_str());
            Err(c)
        }
    }

    /// Takes `cost` tokens now, if available, as `try_acquire_at` does at
    /// the clock's reading.
    pub fn try_acquire(&mut self, cost: u64) -> (r: Result<(), String>)
        requires
            old(self).wf(),
        ensures
            final(self).wf(),
            final(self).max_tokens == old(self).max_tokens,
            final(self).refill_rate == old(self).refill_rate,
            r is Ok ==> final(self).io_count == wrap_inc(old(self).io_count) && final(self).throttled_count
                == old(self).throttled_count,
            r is Err ==> final(self).throttled_count == wrap_inc(old(self).throttled_count) && final(self).io_count
                == old(self).io_count,
            exists|now: u64| #[trigger] acquired(*old(self), *final(self), now, cost, r),
    {
        self.try_acquire_at(unix_now_secs(), cost)
    }

    pub fn get_stats_at(&mut self, now: u64) -> (s: DiskIOStats)
        requires
            old(self).wf(),
        ensures
            final(self).wf(),
            s.available_tokens == final(self).tokens,
            final(self).tokens == refilled_tokens(
                old(self).tokens,
                old(self).max_tokens,
                old(self).refill_rate,
                old(self).last_refill,
                now,
            ),
            s.max_tokens == old(self).max_tokens,
            s.io_count == old(self).io_count,
            s.throttled_count == old(self).throttled_count,
    {
        self.refill_at(now);
        DiskIOStats {
            available_tokens: self.tokens,
            max_tokens: self.max_tokens,
            io_count: self.io_count,
            throttled_count: self.throttled_count,
        }
    }

    /// Refills now and reports the counters.
    pub fn get_stats(&mut self) -> (s: DiskIOStats)
        requires
            old(self).wf(),
        ensures
            final(self).wf(),
            s.available_tokens <= s.max_tokens,
            s.available_tokens == final(self).tokens,
            s.max_tokens == old(self).max_tokens,
            s.io_count == old(self).io_count,
            s.throttled_count == old(self).throttled_count,
            exists|now: u64| final(self).tokens == #[trigger] refilled_tokens(
                old(self).tokens,
                old(self).max_tokens,
                old(self).refill_rate,
                old(self).last_refill,
                now,
            ),
    {
        self.get_stats_at(unix_now_secs())
    }
}

/// Refilling never overfills the bucket, and within the same second it adds nothing.
pub proof fn law_refill_bounded(tokens: u64, max_tokens: u64, rate: u64, last: u64, now: u64)
    requires
        tokens <= max_tokens,
    ensures
        refilled_tokens(tokens, max_tokens, rate, last, now) <= max_tokens,
        now <= last ==> refilled_tokens(tokens, max_tokens, rate, last, now) == tokens,
{
}


/// One tracked connection: its id and when it was created and last used
/// (milliseconds since the epoch).
#[derive(Debug, Clone, Copy, PartialEq, Eq, Structural)]
pub struct ConnectionTracker {
    pub id: usize,
    pub created_at_ms: u64,
    pub last_used_at_ms: u64,
}

/// Counters of the leak detector.
#[derive(Debug, Clone, Copy, PartialEq, Eq, Structural)]
pub struct ConnectionLeakStats {
    pub active_count: usize,
    pub leak_count: u64,
    pub total_created: u64,
    pub total_released: u64,
}

/// Tracks open connections and reports those unused for longer than the
/// leak threshold.
pub struct ConnectionLeakDetection {
    pub active_connections: Vec<ConnectionTracker>,
    pub leak_threshold_secs: u64,
    pub leak_count: u64,
    pub total_created: u64,
    pub total_released: u64,
}

/// Whole seconds from `from_ms` to `to_ms`, zero when `to_ms` is earlier.
pub open spec fn whole_secs_between(from_ms: u64, to_ms: u64) -> int {
    if to_ms > from_ms {
        (to_ms - from_ms) / 1000
    } else {
        0
    }
}

/// The connection has been unused for longer than the threshold at `now_ms`.
pub open spec fn is_leaked(c: ConnectionTracker, threshold_secs: u64, now_ms: u64) -> bool {
    whole_secs_between(c.last_used_at_ms, now_ms) > threshold_secs
}

/// A connection `id` created and last used at `now_ms`.
pub open spec fn tracker_at(id: usize, now_ms: u64) -> ConnectionTracker {
    ConnectionTracker { id, created_at_ms: now_ms, last_used_at_ms: now_ms }
}

/// The ids of the leaked connections among `cs`, in order.
pub open spec fn leaked_ids(cs: Seq<ConnectionTracker>, threshold_secs: u64, now_ms: u64) -> Seq<usize>
    decreases cs.len(),
{
    if cs.len() == 0 {
        seq![]
    } else {
        leaked_ids(cs.drop_last(), threshold_secs, now_ms) + if is_leaked(cs.last(), threshold_secs, now_ms) {
            seq![cs.last().id]
        } else {
            seq![]
        }
    }
}

/// The first tracked connection with id `id`.
pub open spec fn tracker_index(cs: Seq<ConnectionTracker>, id: usize, i: int) -> Option<int>
    decreases cs.len() - i,
{
    if i < 0 || i >= cs.len() {
        None
    } else if cs[i].id == id {
        Some(i)
    } else {
        tracker_index(cs, id, i + 1)
    }
}

impl ConnectionLeakDetection {
    pub fn new(leak_threshold_secs: u64) -> (d: Self)
        ensures
            d.active_connections@.len() == 0,
            d.leak_threshold_secs == leak_threshold_secs,
            d.leak_count == 0,
            d.total_created == 0,
            d.total_released == 0,
    {
        ConnectionLeakDetection {
            active_connections: Vec::new(),
            leak_threshold_secs,
            leak_count: 0,
            total_created: 0,
            total_released: 0,
        }
    }

    /// Starts tracking connection `id`, created and used at `now_ms`.
    pub fn create_connection_at(&mut self, id: usize, now_ms: u64)
        ensures
            final(self).active_connections@ == old(self).active_connections@.push(
                ConnectionTracker { id, created_at_ms: now_ms, last_used_at_ms: now_ms },
            ),
            final(self).total_created == wrap_inc(old(self).total_created),
            final(self).total_released == old(self).total_released,
            final(self).leak_count == old(self).leak_count,
            final(self).leak_threshold_secs == old(self).leak_threshold_secs,
    {
        self.total_created = self.total_created.wrapping_add(1);
        self.active_connections.push(ConnectionTracker { id, created_at_ms: now_ms, last_used_at_ms: now_ms });
    }

    /// Starts tracking connection `id` now, created and used at the clock's reading.
    pub fn create_connection(&mut self, id: usize)
        ensures
            exists|now_ms: u64| final(self).active_connections@ == old(self).active_connections@.push(
                #[trigger] tracker_at(id, now_ms),
            ),
            final(self).total_created == wrap_inc(old(self).total_created),
            final(self).total_released == old(self).total_released,
            final(self).leak_count == old(self).leak_count,
            final(self).leak_threshold_secs == old(self).leak_threshold_secs,
    {
        let now = unix_now_millis();
        self.create_connection_at(id, now);
        assert(tracker_at(id, now) == (ConnectionTracker { id, created_at_ms: now, last_used_at_ms: now }));
    }

    /// Stops tracking the first connection with id `id`, if there is one.
    pub fn release_connection(&mut self, id: usize)
        ensures
            match tracker_index(old(self).active_connections@, id, 0) {
                Some(i) => final(self).active_connections@ == old(self).active_connections@.remove(i)
                    && final(self).total_released == wrap_inc(old(self).total_released),
                None => final(self).active_connections@ == old(self).active_connections@
                    && final(self).total_released == old(self).total_released,
            },
            final(self).total_created == old(self).total_created,
            final(self).leak_count == old(self).leak_count,
            final(self).leak_threshold_secs == old(self).leak_threshold_secs,
    {
        let ghost cs = self.active_connections@;
        let mut i: usize = 0;
        while i < self.active_connections.len()
            invariant
                cs == self.active_connections@,
                cs == old(self).active_connections@,
                i <= cs.len(),
                tracker_index(cs, id, 0) == tracker_index(cs, id, i as int),
                self.total_created == old(self).total_created,
                self.total_released == old(self).total_released,
                self.leak_count == old(self).leak_count,
                self.leak_threshold_secs == old(self).leak_threshold_secs,
            decreases cs.len() - i,
        {
            if self.active_connections[i].id == id {
                self.active_connections.remove(i);
                self.total_released = self.total_released.wrapping_add(1);
                return;
            }
            i = i + 1;
        }
    }

    /// The ids of the connections unused for longer than the threshold at
    /// `now_ms`, in order; each counts as a leak.
    pub fn detect_leaks_at(&mut self, now_ms: u64) -> (r: Vec<usize>)
        ensures
            r@ == leaked_ids(old(self).active_connections@, old(self).leak_threshold_secs, now_ms),
            final(self).leak_count == wrapping_add_u64(old(self).leak_count, r@.len() as u64),
            final(self).active_connections == old(self).active_connections,
            final(self).total_created == old(self).total_created,
            final(self).total_released == old(self).total_released,
            final(self).leak_threshold_secs == old(self).leak_threshold_secs,
    {
        let ghost cs = self.active_connections@;
        let mut leaked: Vec<usize> = Vec::new();
        let mut i: usize = 0;
        while i < self.active_connections.len()
            invariant
                cs == self.active_connections@,
                cs == old(self).active_connections@,
                self.leak_count == old(self).leak_count,
                self.total_created == old(self).total_created,
                self.total_released == old(self).total_released,
                self.leak_threshold_secs == old(self).leak_threshold_secs,
                i <= cs.len(),
                leaked@ == leaked_ids(cs.subrange(0, i as int), self.leak_threshold_secs, now_ms),
            decreases cs.len() - i,
        {
            let c = self.active_connections[i];
            let secs = if now_ms > c.last_used_at_ms { (now_ms - c.last_used_at_ms) / 1000 } else { 0 };
            assert(cs.subrange(0, i + 1).drop_last() =~= cs.subrange(0, i as int));
            if secs > self.leak_threshold_secs {
                leaked.push(c.id);
            }
            i = i + 1;
        }
        assert(cs.subrange(0, cs.len() as int) =~= cs);
        self.leak_count = self.leak_count.wrapping_add(leaked.len() as u64);
        leaked
    }

    /// The connections leaked as of now, as `detect_leaks_at` finds them at
    /// the clock's reading.
    pub fn detect_leaks(&mut self) -> (r: Vec<usize>)
        ensures
            exists|now_ms: u64| r@ == #[trigger] leaked_ids(old(self).active_connections@, old(self).leak_threshold_secs, now_ms),
            final(self).leak_count == wrapping_add_u64(old(self).leak_count, r@.len() as u64),
            final(self).active_connections == old(self).active_connections,
            final(self).total_created == old(self).total_created,
            final(self).total_released == old(self).total_released,
            final(self).leak_threshold_secs == old(self).leak_threshold_secs,
    {
        self.detect_leaks_at(unix_now_millis())
    }

    /// Detects the leaks at `now_ms` and releases each leaked id in turn;
    /// returns how many there were.
    pub fn reclaim_leaks_at(&mut self, now_ms: u64) -> (n: usize)
        ensures
            ({
                let ids = leaked_ids(old(self).active_connections@, old(self).leak_threshold_secs, now_ms);
                &&& n == ids.len()
                &&& final(self).active_connections@ == release_all(old(self).active_connections@, ids)
            }),
            final(self).leak_threshold_secs == old(self).leak_threshold_secs,
    {
        let leaked = self.detect_leaks_at(now_ms);
        let ghost start = self.active_connections@;
        let mut k: usize = 0;
        while k < leaked.len()
            invariant
                k <= leaked@.len(),
                self.active_connections@ == release_all(start, leaked@.subrange(0, k as int)),
                self.leak_threshold_secs == old(self).leak_threshold_secs,
            decreases leaked@.len() - k,
        {
            self.release_connection(leaked[k]);
            assert(leaked@.subrange(0, k + 1).drop_last() =~= leaked@.subrange(0, k as int));
            k = k + 1;
        }
        assert(leaked@.subrange(0, leaked@.len() as int) =~= leaked@);
        k
    }

    /// Reclaims the connections leaked as of now, as `reclaim_leaks_at` does
    /// at the clock's reading.
    pub fn reclaim_leaks(&mut self) -> (n: usize)
        ensures
            exists|now_ms: u64| {
                let ids = #[trigger] leaked_ids(old(self).active_connections@, old(self).leak_threshold_secs, now_ms);
                &&& n == ids.len()
                &&& final(self).active_connections@ == release_all(old(self).active_connections@, ids)
            },
            final(self).leak_threshold_secs == old(self).leak_threshold_secs,
    {
        self.reclaim_leaks_at(unix_now_millis())
    }

    /// The counters; the active count is the number of tracked connections.
    pub fn get_stats(&self) -> (s: ConnectionLeakStats)
        ensures
            s == (ConnectionLeakStats {
                active_count: self.active_connections@.len() as usize,
                leak_count: self.leak_count,
                total_created: self.total_created,
                total_released: self.total_released,
            }),
    {
        ConnectionLeakStats {
            active_count: self.active_connections.len(),
            leak_count: self.leak_count,
            total_created: self.total_created,
            total_released: self.total_released,
        }
    }
}

/// `cs` without its first connection with id `id`, if there is one.
pub open spec fn release_one(cs: Seq<ConnectionTracker>, id: usize) -> Seq<ConnectionTracker> {
    match tracker_index(cs, id, 0) {
        Some(i) => cs.remove(i),
        None => cs,
    }
}

/// `cs` after releasing each of `ids` in turn.
pub open spec fn release_all(cs: Seq<ConnectionTracker>, ids: Seq<usize>) -> Seq<ConnectionTracker>
    decreases ids.len(),
{
    if ids.len() == 0 {
        cs
    } else {
        release_one(release_all(cs, ids.drop_last()), ids.last())
    }
}

/// `x + d` wrapping at 64 bits.
pub open spec fn wrapping_add_u64(x: u64, d: u64) -> u64 {
    if x + d > u64::MAX {
        (x + d - u64::MAX - 1) as u64
    } else {
        (x + d) as u64
    }
}

} // verus!
