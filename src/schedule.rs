//! The scheduling decisions of the traffic modes and of the run controller.
use vstd::prelude::*;
use crate::outcome::RequestResult;

verus! {

/// At most this many warm-up probes are fired before a burst.
pub const MAX_WARMUP_CONNECTIONS: usize = 1000;

/// The duration of a sustained mode when none is configured.
pub const DEFAULT_DURATION_SECS: u32 = 10;

/// Ramp-up grows concurrency in this many equal steps.
pub const RAMP_STEPS: u32 = 5;

/// Each stress wave lasts this long.
pub const STRESS_WAVE_SECS: u64 = 5;

/// A stress test stops growing once a wave has run at this concurrency.
pub const STRESS_MAX_USERS: u64 = 10_000;

/// The number of warm-up probes for `n` virtual users.
pub fn warmup_probe_count(n: usize) -> (r: usize)
    ensures
        r == if n <= MAX_WARMUP_CONNECTIONS { n } else { MAX_WARMUP_CONNECTIONS },
{
    if n <= MAX_WARMUP_CONNECTIONS { n } else { MAX_WARMUP_CONNECTIONS }
}

/// Whether a warm-up went badly enough to report: fewer than half of its
/// probes succeeded. The burst goes ahead either way.
pub fn warmup_degraded(succeeded: usize, probes: usize) -> (r: bool)
    ensures
        r == (2 * succeeded < probes),
{
    succeeded < probes && succeeded < probes - succeeded
}

/// The configured duration of a sustained mode, or the default.
pub fn sustained_duration_secs(duration_secs: Option<u32>) -> (r: u32)
    ensures
        r == match duration_secs { Some(d) => d, None => DEFAULT_DURATION_SECS },
{
    match duration_secs {
        Some(d) => d,
        None => DEFAULT_DURATION_SECS,
    }
}

/// The concurrency cap of ramp-up step `step` (counted from 1): `⌈n / 5⌉ * step`,
/// but never more than `n`.
pub open spec fn ramp_cap(n: nat, step: nat) -> nat {
    let c = (n + 4) / 5 * step;
    if c <= n { c } else { n }
}

/// The concurrency cap of ramp-up step `step` (counted from 1) for `n` users.
pub fn ramp_step_users(n: u32, step: u32) -> (r: u32)
    requires
        1 <= step <= RAMP_STEPS,
    ensures
        r == ramp_cap(n as nat, step as nat),
{
    let per: u64 = (n as u64 + 4) / 5;
    assert(per * step <= 0x1_0000_0003u64 / 5 * 5) by (nonlinear_arith)
        requires
            per == (n as u64 + 4) / 5,
            n <= 0xFFFF_FFFFu64,
            1 <= step <= 5,
    ;
    let c: u64 = per * step as u64;
    if c <= n as u64 { c as u32 } else { n }
}

/// Each ramp-up cap is at least the one before it, and the last step reaches `n`.
pub proof fn lemma_ramp_caps_grow(n: nat, step: nat)
    requires
        1 <= step < RAMP_STEPS,
    ensures
        ramp_cap(n, step) <= ramp_cap(n, step + 1),
        ramp_cap(n, RAMP_STEPS as nat) == n,
{
    assert((n + 4) / 5 * step <= (n + 4) / 5 * (step + 1)) by (nonlinear_arith);
    assert((n + 4) / 5 * 5 >= n) by (nonlinear_arith);
}

/// The length of one ramp-up step, in nanoseconds: a fifth of the duration.
pub fn ramp_step_nanos(duration_secs: u32) -> (r: u64)
    ensures
        r == duration_secs as nat * 1_000_000_000 / RAMP_STEPS as nat,
{
    let total: u64 = duration_secs as u64 * 1_000_000_000;
    total / 5
}

/// Whether a sustained mode dispatches another request.
pub fn keep_dispatching(elapsed_ns: u64, limit_ns: u64, cancelled: bool) -> (r: bool)
    ensures
        r == (elapsed_ns < limit_ns && !cancelled),
{
    elapsed_ns < limit_ns && !cancelled
}

/// Whether a wave failed: more than 30% of its completed requests were errors.
pub open spec fn wave_failed(completed: nat, errors: nat) -> bool {
    completed > 0 && errors * 10 > completed * 3
}

/// The concurrency of the next stress wave, or none when the test stops: on
/// cancellation, on a failed wave, or once `STRESS_MAX_USERS` is reached;
/// otherwise concurrency doubles.
pub open spec fn next_wave(current: nat, completed: nat, errors: nat, cancelled: bool) -> Option<nat> {
    if cancelled || wave_failed(completed, errors) || current >= STRESS_MAX_USERS {
        None
    } else {
        Some(current * 2)
    }
}

/// Decides what follows a stress wave run at `current` concurrency.
pub fn next_wave_users(current: u64, completed: u64, errors: u64, cancelled: bool) -> (r: Option<u64>)
    ensures
        match r {
            Some(v) => next_wave(current as nat, completed as nat, errors as nat, cancelled) == Some(v as nat),
            None => next_wave(current as nat, completed as nat, errors as nat, cancelled) is None,
        },
{
    if cancelled {
        return None;
    }
    if completed > 0 && errors as u128 * 10 > completed as u128 * 3 {
        return None;
    }
    if current >= STRESS_MAX_USERS {
        return None;
    }
    Some(current * 2)
}

/// A stress test ends: concurrency never exceeds twice `STRESS_MAX_USERS` and
/// strictly grows from wave to wave.
pub proof fn lemma_stress_waves_bounded(current: nat, completed: nat, errors: nat, cancelled: bool)
    requires
        current > 0,
    ensures
        next_wave(current, completed, errors, cancelled) matches Some(v) ==> current < v
            && v < 2 * STRESS_MAX_USERS,
{
}

/// The controller's timeout for a run whose requests time out after `timeout_ms`:
/// twice that, plus thirty seconds of warm-up allowance; it saturates at
/// `u64::MAX` milliseconds.
pub fn global_timeout_ms(timeout_ms: u64) -> (r: u64)
    ensures
        r == if timeout_ms * 2 + 30_000 <= u64::MAX { timeout_ms * 2 + 30_000 } else { u64::MAX as int },
{
    if timeout_ms <= (u64::MAX - 30_000) / 2 {
        timeout_ms * 2 + 30_000
    } else {
        u64::MAX
    }
}

/// A request of a stress wave that did not succeed: it left no outcome (its body
/// read was cut short), or its outcome is not a success.
pub open spec fn wave_failure(o: Option<RequestResult>) -> bool {
    match o {
        Some(r) => !r.success,
        None => true,
    }
}

/// How many requests of `outcomes` did not succeed.
pub open spec fn wave_failures(outcomes: Seq<Option<RequestResult>>) -> nat
    decreases outcomes.len(),
{
    if outcomes.len() == 0 {
        0
    } else {
        wave_failures(outcomes.drop_last()) + if wave_failure(outcomes.last()) { 1nat } else { 0nat }
    }
}

/// The figures a stress wave is judged by: how many of its requests completed,
/// and how many of those did not succeed.
pub fn wave_tally(outcomes: &Vec<Option<RequestResult>>) -> (r: (u64, u64))
    ensures
        r.0 == outcomes@.len(),
        r.1 == wave_failures(outcomes@),
{
    let n = outcomes.len();
    let mut failures: u64 = 0;
    let mut i: usize = 0;
    while i < n
        invariant
            n == outcomes@.len(),
            i <= n,
            failures == wave_failures(outcomes@.take(i as int)),
            failures <= i,
        decreases n - i,
    {
        proof {
            assert(outcomes@.take(i + 1).drop_last() == outcomes@.take(i as int));
        }
        let failed = match &outcomes[i] {
            Some(r) => !r.success,
            None => true,
        };
        if failed {
            failures = failures + 1;
        }
        i = i + 1;
    }
    proof {
        assert(outcomes@.take(n as int) == outcomes@);
    }
    (n as u64, failures)
}

/// How many dispatch times were written (are non-zero).
pub open spec fn nonzero_count(s: Seq<u64>) -> nat
    decreases s.len(),
{
    if s.len() == 0 { 0 } else { nonzero_count(s.drop_last()) + if s.last() > 0 { 1nat } else { 0nat } }
}

/// The earliest written dispatch time; `u64::MAX` when none was written.
pub open spec fn nonzero_min(s: Seq<u64>) -> u64
    decreases s.len(),
{
    if s.len() == 0 {
        u64::MAX
    } else {
        let m = nonzero_min(s.drop_last());
        if s.last() > 0 && s.last() < m { s.last() } else { m }
    }
}

/// The latest written dispatch time; zero when none was written.
pub open spec fn nonzero_max(s: Seq<u64>) -> u64
    decreases s.len(),
{
    if s.len() == 0 {
        0
    } else {
        let m = nonzero_max(s.drop_last());
        if s.last() > m { s.last() } else { m }
    }
}

/// The burst dispatch spread: the gap between the first and the last recorded
/// dispatch (zero entries were never written), or zero with fewer than two.
pub open spec fn spread_of(s: Seq<u64>) -> nat {
    if nonzero_count(s) >= 2 { (nonzero_max(s) - nonzero_min(s)) as nat } else { 0 }
}

proof fn lemma_nonzero_bounds(s: Seq<u64>)
    ensures
        nonzero_count(s) > 0 ==> nonzero_min(s) <= nonzero_max(s),
        nonzero_count(s) == 0 ==> nonzero_max(s) == 0,
    decreases s.len(),
{
    if s.len() > 0 {
        lemma_nonzero_bounds(s.drop_last());
    }
}

/// The spread of the dispatch times of a burst, in nanoseconds.
pub fn dispatch_spread_ns(dispatch_ns: &Vec<u64>) -> (r: u64)
    ensures
        r == spread_of(dispatch_ns@),
        r <= nonzero_max(dispatch_ns@),
{
    let n = dispatch_ns.len();
    let mut count: usize = 0;
    let mut lo: u64 = u64::MAX;
    let mut hi: u64 = 0;
    let mut i: usize = 0;
    while i < n
        invariant
            n == dispatch_ns@.len(),
            i <= n,
            count == nonzero_count(dispatch_ns@.take(i as int)),
            count <= i,
            lo == nonzero_min(dispatch_ns@.take(i as int)),
            hi == nonzero_max(dispatch_ns@.take(i as int)),
        decreases n - i,
    {
        let ghost s = dispatch_ns@.take(i + 1);
        proof {
            assert(s.drop_last() == dispatch_ns@.take(i as int));
        }
        let v = dispatch_ns[i];
        if v > 0 {
            count = count + 1;
            if v < lo {
                lo = v;
            }
        }
        if v > hi {
            hi = v;
        }
        i = i + 1;
    }
    proof {
        assert(dispatch_ns@.take(n as int) == dispatch_ns@);
        lemma_nonzero_bounds(dispatch_ns@);
    }
    if count >= 2 { hi - lo } else { 0 }
}

/// The dispatch spread is never more than the latest dispatch time.
pub proof fn lemma_spread_within_latest(s: Seq<u64>)
    ensures
        spread_of(s) <= nonzero_max(s),
{
    lemma_nonzero_bounds(s);
}

} // verus!
