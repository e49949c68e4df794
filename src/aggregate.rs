//! Turning the outcomes of a run into its summary.
use vstd::prelude::*;
use vstd::multiset::Multiset;
use crate::histogram::{
    at_or_above_recorded, new_histogram, quantile_of, record_value, recorded, sigfig_of,
    value_at_permille, LatencyHistogram,
};
use crate::outcome::{is_cancelled, opt_view, RequestResult, StatusKey};
use crate::tally::{bump_code, bump_text, bumped, lemma_bumped_tally, lemma_tally_same, tally_of, text_keys};
use crate::text::same_text;
use vstd::arithmetic::div_mod::lemma_div_is_ordered;

verus! {

/// Race detection compares bodies by this many leading characters.
pub const FINGERPRINT_CHARS: usize = 200;

/// The outcome enters latency, success and error figures: it was not cancelled.
pub open spec fn counted(r: RequestResult) -> bool {
    !is_cancelled(r)
}

/// A latency as the histogram records it: at least one microsecond.
pub open spec fn clamp1(x: u64) -> u64 {
    if x == 0 { 1 } else { x }
}

pub open spec fn success_total(rs: Seq<RequestResult>) -> nat
    decreases rs.len(),
{
    if rs.len() == 0 { 0 } else {
        success_total(rs.drop_last()) + if counted(rs.last()) && rs.last().success { 1nat } else { 0nat }
    }
}

pub open spec fn failure_total(rs: Seq<RequestResult>) -> nat
    decreases rs.len(),
{
    if rs.len() == 0 { 0 } else {
        failure_total(rs.drop_last()) + if counted(rs.last()) && !rs.last().success { 1nat } else { 0nat }
    }
}

pub open spec fn cancelled_total(rs: Seq<RequestResult>) -> nat
    decreases rs.len(),
{
    if rs.len() == 0 { 0 } else {
        cancelled_total(rs.drop_last()) + if !counted(rs.last()) { 1nat } else { 0nat }
    }
}

/// The sum of the counted latencies.
pub open spec fn latency_sum(rs: Seq<RequestResult>) -> nat
    decreases rs.len(),
{
    if rs.len() == 0 { 0 } else {
        latency_sum(rs.drop_last()) + if counted(rs.last()) { rs.last().latency_us as nat } else { 0nat }
    }
}

/// The least counted latency, if any outcome is counted.
pub open spec fn latency_lo(rs: Seq<RequestResult>) -> Option<u64>
    decreases rs.len(),
{
    if rs.len() == 0 {
        None
    } else {
        let p = latency_lo(rs.drop_last());
        let x = rs.last().latency_us;
        if counted(rs.last()) {
            match p {
                Some(m) => Some(if m <= x { m } else { x }),
                None => Some(x),
            }
        } else {
            p
        }
    }
}

/// The greatest counted latency, if any outcome is counted.
pub open spec fn latency_hi(rs: Seq<RequestResult>) -> Option<u64>
    decreases rs.len(),
{
    if rs.len() == 0 {
        None
    } else {
        let p = latency_hi(rs.drop_last());
        let x = rs.last().latency_us;
        if counted(rs.last()) {
            match p {
                Some(m) => Some(if m >= x { m } else { x }),
                None => Some(x),
            }
        } else {
            p
        }
    }
}

/// The latencies the histogram holds: every counted one, at least one microsecond.
pub open spec fn samples(rs: Seq<RequestResult>) -> Multiset<u64>
    decreases rs.len(),
{
    if rs.len() == 0 {
        Multiset::empty()
    } else if counted(rs.last()) {
        samples(rs.drop_last()).insert(clamp1(rs.last().latency_us))
    } else {
        samples(rs.drop_last())
    }
}

/// The body of a counted outcome that has a non-empty one.
pub open spec fn considered_body(r: RequestResult) -> Option<Seq<char>> {
    match opt_view(r.response_body) {
        Some(b) => if counted(r) && b.len() > 0 { Some(b) } else { None },
        None => None,
    }
}

/// The leading characters by which bodies are compared.
pub open spec fn fingerprint(b: Seq<char>) -> Seq<char> {
    if b.len() <= FINGERPRINT_CHARS { b } else { b.take(FINGERPRINT_CHARS as int) }
}

pub open spec fn body_total(rs: Seq<RequestResult>) -> nat
    decreases rs.len(),
{
    if rs.len() == 0 { 0 } else {
        body_total(rs.drop_last()) + if considered_body(rs.last()) is Some { 1nat } else { 0nat }
    }
}

/// The distinct fingerprints of the considered bodies.
pub open spec fn fingerprints(rs: Seq<RequestResult>) -> Set<Seq<char>>
    decreases rs.len(),
{
    if rs.len() == 0 {
        Set::empty()
    } else {
        match considered_body(rs.last()) {
            Some(b) => fingerprints(rs.drop_last()).insert(fingerprint(b)),
            None => fingerprints(rs.drop_last()),
        }
    }
}

/// How many counted failures carry error kind `k`.
pub open spec fn error_tally(rs: Seq<RequestResult>, k: Seq<char>) -> nat
    decreases rs.len(),
{
    if rs.len() == 0 { 0 } else {
        error_tally(rs.drop_last(), k) + if counted(rs.last()) && !rs.last().success
            && opt_view(rs.last().error) == Some(k) { 1nat } else { 0nat }
    }
}

/// How many counted outcomes have a status in class `c` (`c` hundreds).
pub open spec fn class_tally(rs: Seq<RequestResult>, c: u16) -> nat
    decreases rs.len(),
{
    if rs.len() == 0 { 0 } else {
        class_tally(rs.drop_last(), c) + match rs.last().status_code {
            Some(s) => if counted(rs.last()) && s / 100 == c { 1nat } else { 0nat },
            None => 0nat,
        }
    }
}

/// How many counted outcomes have status `s`.
pub open spec fn code_tally(rs: Seq<RequestResult>, s: u16) -> nat
    decreases rs.len(),
{
    if rs.len() == 0 { 0 } else {
        code_tally(rs.drop_last(), s) + if counted(rs.last()) && rs.last().status_code == Some(s) {
            1nat
        } else {
            0nat
        }
    }
}

pub open spec fn fingerprint_views(v: Seq<String>) -> Seq<Seq<char>> {
    v.map_values(|s: String| s@)
}

/// The counts kept while outcomes are read one by one.
struct Tallies {
    success: u64,
    errors: u64,
    cancelled: u64,
    lo: Option<u64>,
    hi: Option<u64>,
    sum: u128,
    hist: LatencyHistogram,
    bodies: u64,
    prints: Vec<String>,
    error_kinds: Vec<(String, u64)>,
    classes: Vec<(u16, u64)>,
    codes: Vec<(u16, u64)>,
}

/// Sizes that every figure of `rs` stays within.
proof fn lemma_totals_bounded(rs: Seq<RequestResult>)
    ensures
        success_total(rs) + failure_total(rs) + cancelled_total(rs) == rs.len(),
        body_total(rs) <= rs.len(),
        latency_sum(rs) <= rs.len() * 0xFFFF_FFFF_FFFF_FFFFnat,
        forall|k: Seq<char>| #[trigger] error_tally(rs, k) <= rs.len(),
        forall|c: u16| #[trigger] class_tally(rs, c) <= rs.len(),
        forall|s: u16| #[trigger] code_tally(rs, s) <= rs.len(),
    decreases rs.len(),
{
    if rs.len() > 0 {
        let init = rs.drop_last();
        lemma_totals_bounded(init);
        assert(latency_sum(rs) <= rs.len() * 0xFFFF_FFFF_FFFF_FFFFnat) by (nonlinear_arith)
            requires
                latency_sum(rs) <= latency_sum(init) + 0xFFFF_FFFF_FFFF_FFFFnat,
                latency_sum(init) <= init.len() * 0xFFFF_FFFF_FFFF_FFFFnat,
                init.len() + 1 == rs.len(),
        ;
        assert forall|k: Seq<char>| #[trigger] error_tally(rs, k) <= rs.len() by {
            assert(error_tally(init, k) <= init.len());
        }
        assert forall|c: u16| #[trigger] class_tally(rs, c) <= rs.len() by {
            assert(class_tally(init, c) <= init.len());
        }
        assert forall|s: u16| #[trigger] code_tally(rs, s) <= rs.len() by {
            assert(code_tally(init, s) <= init.len());
        }
    }
}

/// Every latency the histogram holds lies between the least counted latency and
/// the greatest one (at least one microsecond); it holds one per counted outcome.
proof fn lemma_samples_within(rs: Seq<RequestResult>)
    ensures
        samples(rs).len() == success_total(rs) + failure_total(rs),
        (samples(rs).len() == 0) == (latency_lo(rs) is None),
        (latency_lo(rs) is None) == (latency_hi(rs) is None),
        latency_lo(rs) matches Some(lo) ==> lo <= latency_hi(rs)->0,
        forall|v: u64| #[trigger] samples(rs).count(v) > 0 ==> latency_lo(rs)->0 <= v
            && v <= clamp1(latency_hi(rs)->0),
    decreases rs.len(),
{
    if rs.len() > 0 {
        let init = rs.drop_last();
        lemma_samples_within(init);
        assert forall|v: u64| #[trigger] samples(rs).count(v) > 0 implies latency_lo(rs)->0 <= v
            && v <= clamp1(latency_hi(rs)->0) by {
            if counted(rs.last()) {
                if v != clamp1(rs.last().latency_us) {
                    assert(samples(init).count(v) > 0);
                }
            } else {
                assert(samples(init).count(v) > 0);
            }
        }
    }
}

impl Tallies {
    /// The counts describe the outcomes `rs`.
    spec fn describe(&self, rs: Seq<RequestResult>) -> bool {
        &&& self.success == success_total(rs)
        &&& self.errors == failure_total(rs)
        &&& self.cancelled == cancelled_total(rs)
        &&& self.lo == latency_lo(rs)
        &&& self.hi == latency_hi(rs)
        &&& self.sum == latency_sum(rs)
        &&& recorded(self.hist) == samples(rs)
        &&& sigfig_of(self.hist) == 3
        &&& self.bodies == body_total(rs)
        &&& fingerprint_views(self.prints@).no_duplicates()
        &&& fingerprint_views(self.prints@).to_set() == fingerprints(rs)
        &&& self.prints@.len() <= self.bodies
        &&& tally_of(text_keys(self.error_kinds@), |k: Seq<char>| error_tally(rs, k))
        &&& tally_of(self.classes@, |c: u16| class_tally(rs, c))
        &&& tally_of(self.codes@, |s: u16| code_tally(rs, s))
    }

    fn new() -> (t: Tallies)
        ensures
            t.describe(Seq::empty()),
    {
        let hist = match new_histogram(3) {
            Ok(h) => h,
            // made for every sigfig up to 5
            Err(_) => vstd::pervasive::unreached(),
        };
        let t = Tallies {
            success: 0,
            errors: 0,
            cancelled: 0,
            lo: None,
            hi: None,
            sum: 0,
            hist,
            bodies: 0,
            prints: Vec::new(),
            error_kinds: Vec::new(),
            classes: Vec::new(),
            codes: Vec::new(),
        };
        proof {
            assert(fingerprint_views(t.prints@) =~= Seq::<Seq<char>>::empty());
            assert(text_keys(t.error_kinds@) =~= Seq::<(Seq<char>, u64)>::empty());
            assert(fingerprints(Seq::<RequestResult>::empty()) =~= Set::<Seq<char>>::empty());
            assert(Seq::<Seq<char>>::empty().to_set() =~= Set::<Seq<char>>::empty());
        }
        t
    }

    /// Whether `fp` is already among the fingerprints.
    fn has_print(&self, fp: &String) -> (r: bool)
        ensures
            r == fingerprint_views(self.prints@).contains(fp@),
    {
        let n = self.prints.len();
        let mut j: usize = 0;
        while j < n
            invariant
                n == self.prints@.len(),
                j <= n,
                forall|i: int| 0 <= i < j ==> self.prints@[i]@ != fp@,
            decreases n - j,
        {
            if self.prints[j] == *fp {
                assert(fingerprint_views(self.prints@)[j as int] == fp@);
                return true;
            }
            j = j + 1;
        }
        proof {
            if fingerprint_views(self.prints@).contains(fp@) {
                let i = choose|i: int| 0 <= i < n && fingerprint_views(self.prints@)[i] == fp@;
                assert(self.prints@[i]@ == fp@);
            }
        }
        false
    }

    /// Reads one more outcome.
    fn add(&mut self, r: &RequestResult, Ghost(rs): Ghost<Seq<RequestResult>>)
        requires
            old(self).describe(rs),
            rs.len() < usize::MAX,
        ensures
            final(self).describe(rs.push(*r)),
    {
        let ghost rs2 = rs.push(*r);
        proof {
            assert(rs2.drop_last() == rs);
            assert(rs2.last() == *r);
            lemma_totals_bounded(rs);
        }
        let cancel = match &r.error {
            Some(e) => same_text(e.as_str(), "Cancelled"),
            None => false,
        };
        if cancel {
            self.cancelled = self.cancelled + 1;
            proof {
                lemma_tally_same(text_keys(self.error_kinds@), |k: Seq<char>| error_tally(rs, k), |k: Seq<char>| error_tally(rs2, k));
                lemma_tally_same(self.classes@, |c: u16| class_tally(rs, c), |c: u16| class_tally(rs2, c));
                lemma_tally_same(self.codes@, |s: u16| code_tally(rs, s), |s: u16| code_tally(rs2, s));
            }
            return;
        }
        let x = r.latency_us;
        self.lo = match self.lo {
            Some(m) => Some(if m <= x { m } else { x }),
            None => Some(x),
        };
        self.hi = match self.hi {
            Some(m) => Some(if m >= x { m } else { x }),
            None => Some(x),
        };
        proof {
            assert(latency_sum(rs) + x <= u128::MAX) by (nonlinear_arith)
                requires
                    latency_sum(rs) <= rs.len() * 0xFFFF_FFFF_FFFF_FFFFnat,
                    rs.len() < 0x1_0000_0000_0000_0000nat,
                    x <= 0xFFFF_FFFF_FFFF_FFFFnat,
            ;
        }
        self.sum = self.sum + x as u128;
        let _ = record_value(&mut self.hist, if x == 0 { 1 } else { x });
        if r.success {
            self.success = self.success + 1;
            proof {
                lemma_tally_same(text_keys(self.error_kinds@), |k: Seq<char>| error_tally(rs, k), |k: Seq<char>| error_tally(rs2, k));
            }
        } else {
            self.errors = self.errors + 1;
            match &r.error {
                Some(e) => {
                    let ghost before = text_keys(self.error_kinds@);
                    proof {
                        assert forall|j: int| 0 <= j < self.error_kinds@.len() && self.error_kinds@[j].0@ == e@
                            implies self.error_kinds@[j].1 < u64::MAX by {
                            assert(before[j].1 == error_tally(rs, before[j].0));
                        }
                        assert forall|a: int, b: int| 0 <= a < b < self.error_kinds@.len()
                            implies self.error_kinds@[a].0@ != self.error_kinds@[b].0@ by {
                            assert(before[a].0 != before[b].0);
                        }
                    }
                    bump_text(&mut self.error_kinds, e);
                    proof {
                        lemma_bumped_tally(before, text_keys(self.error_kinds@), e@, |k: Seq<char>| error_tally(rs, k), |k: Seq<char>| error_tally(rs2, k));
                    }
                },
                None => {
                    proof {
                        lemma_tally_same(text_keys(self.error_kinds@), |k: Seq<char>| error_tally(rs, k), |k: Seq<char>| error_tally(rs2, k));
                    }
                },
            }
        }
        match r.status_code {
            Some(s) => {
                let ghost c0 = self.classes@;
                let ghost s0 = self.codes@;
                proof {
                    assert forall|j: int| 0 <= j < c0.len() && c0[j].0 == s / 100 implies c0[j].1 < u64::MAX by {
                        assert(c0[j].1 == class_tally(rs, c0[j].0));
                    }
                    assert forall|j: int| 0 <= j < s0.len() && s0[j].0 == s implies s0[j].1 < u64::MAX by {
                        assert(s0[j].1 == code_tally(rs, s0[j].0));
                    }
                }
                bump_code(&mut self.classes, s / 100);
                bump_code(&mut self.codes, s);
                proof {
                    lemma_bumped_tally(c0, self.classes@, s / 100, |c: u16| class_tally(rs, c), |c: u16| class_tally(rs2, c));
                    lemma_bumped_tally(s0, self.codes@, s, |t: u16| code_tally(rs, t), |t: u16| code_tally(rs2, t));
                }
            },
            None => {
                proof {
                    lemma_tally_same(self.classes@, |c: u16| class_tally(rs, c), |c: u16| class_tally(rs2, c));
                    lemma_tally_same(self.codes@, |s: u16| code_tally(rs, s), |s: u16| code_tally(rs2, s));
                }
            },
        }
        match &r.response_body {
            Some(b) => {
                let text = b.as_str();
                if !text.is_empty() {
                    self.bodies = self.bodies + 1;
                    let n = text.unicode_len();
                    let k = if n <= FINGERPRINT_CHARS { n } else { FINGERPRINT_CHARS };
                    let fp = text.substring_char(0, k).to_owned();
                    proof {
                        assert(n <= FINGERPRINT_CHARS ==> b@.subrange(0, k as int) == b@);
                        assert(fp@ == fingerprint(b@));
                        assert(considered_body(*r) == Some(b@));
                    }
                    let ghost v0 = fingerprint_views(self.prints@);
                    if !self.has_print(&fp) {
                        let ghost fpv = fp@;
                        self.prints.push(fp);
                        proof {
                            assert(fingerprint_views(self.prints@) == v0.push(fpv));
                            v0.lemma_push_to_set_commute(fpv);
                        }
                    } else {
                        proof {
                            assert(v0.to_set().insert(fp@) =~= v0.to_set());
                        }
                    }
                }
            },
            None => {},
        }
    }
}

/// The summary of one run.
///
/// Latencies are in microseconds, durations in microseconds or nanoseconds as
/// named. The response consistency is given by `consistency_fraction`.
#[derive(Clone, Debug)]
pub struct TestResult {
    pub total_requests: u64,
    pub success_count: u64,
    pub error_count: u64,
    pub cancelled_count: u64,
    pub total_duration_us: u64,
    /// The spread between the first and the last burst dispatch.
    pub burst_dispatch_ns: u64,
    pub warmup_time_us: u64,
    pub latency_min_us: u64,
    pub latency_max_us: u64,
    /// The sum of the counted latencies; their mean is this over
    /// `success_count + error_count`.
    pub latency_sum_us: u128,
    pub latency_p50_us: u64,
    pub latency_p90_us: u64,
    pub latency_p95_us: u64,
    pub latency_p99_us: u64,
    pub latency_p999_us: u64,
    pub race_conditions_detected: u64,
    pub unique_responses: u64,
    /// How many non-empty bodies the race figures looked at.
    pub bodies_considered: u64,
    /// Error kinds with their counts; no kind occurs twice.
    pub error_types: Vec<(String, u64)>,
    /// Every outcome, in the order they completed.
    pub timeline: Vec<RequestResult>,
    /// Status classes (`2` for `2xx`) with their counts.
    pub status_classes: Vec<(u16, u64)>,
    /// Exact status codes with their counts.
    pub status_codes: Vec<(u16, u64)>,
    pub was_cancelled: bool,
}

/// The most a percentile can exceed the greatest latency `m`: the histogram
/// records at least one microsecond and keeps three significant digits.
pub open spec fn precision_bound(m: u64) -> int {
    clamp1(m) + clamp1(m) / 1000
}

impl TestResult {
    /// Every request is a success, an error or cancelled.
    pub open spec fn counts_balanced(&self) -> bool {
        self.total_requests == self.success_count + self.error_count + self.cancelled_count
    }

    /// The percentiles rise from the least latency to the greatest, within the
    /// histogram's precision.
    pub open spec fn percentiles_ordered(&self) -> bool {
        &&& self.latency_min_us <= self.latency_p50_us
        &&& self.latency_p50_us <= self.latency_p90_us
        &&& self.latency_p90_us <= self.latency_p95_us
        &&& self.latency_p95_us <= self.latency_p99_us
        &&& self.latency_p99_us <= self.latency_p999_us
        &&& self.latency_p999_us <= precision_bound(self.latency_max_us)
    }

    /// Each distinct body beyond the first counts as one detected race.
    pub open spec fn races_counted(&self) -> bool {
        self.race_conditions_detected == if self.unique_responses > 1 {
            self.unique_responses - 1
        } else {
            0
        }
    }

    /// There are no more distinct bodies than bodies.
    pub open spec fn bodies_bounded(&self) -> bool {
        self.unique_responses <= self.bodies_considered
    }

    /// What holds of the summary of every run.
    pub open spec fn well_formed(&self) -> bool {
        &&& self.counts_balanced()
        &&& self.percentiles_ordered()
        &&& self.races_counted()
        &&& self.bodies_bounded()
    }

    /// The summary's figures are those of the outcomes `rs` over a run of
    /// `duration_us`, before burst telemetry or cancellation is attached.
    pub open spec fn summarizes(&self, rs: Seq<RequestResult>, duration_us: u64) -> bool {
        &&& self.total_requests == rs.len()
        &&& self.success_count == success_total(rs)
        &&& self.error_count == failure_total(rs)
        &&& self.cancelled_count == cancelled_total(rs)
        &&& self.total_duration_us == duration_us
        &&& self.burst_dispatch_ns == 0
        &&& self.warmup_time_us == 0
        &&& self.latency_min_us == (match latency_lo(rs) { Some(m) => m, None => 0 })
        &&& self.latency_max_us == (match latency_hi(rs) { Some(m) => m, None => 0 })
        &&& self.latency_sum_us == latency_sum(rs)
        &&& self.latency_p50_us == quantile_of(samples(rs), 3, 500)
        &&& self.latency_p90_us == quantile_of(samples(rs), 3, 900)
        &&& self.latency_p95_us == quantile_of(samples(rs), 3, 950)
        &&& self.latency_p99_us == quantile_of(samples(rs), 3, 990)
        &&& self.latency_p999_us == quantile_of(samples(rs), 3, 999)
        &&& samples(rs).len() == 0 ==> self.latency_p50_us == 0 && self.latency_p90_us == 0
            && self.latency_p95_us == 0 && self.latency_p99_us == 0 && self.latency_p999_us == 0
        &&& self.unique_responses == fingerprints(rs).len()
        &&& self.bodies_considered == body_total(rs)
        &&& tally_of(text_keys(self.error_types@), |k: Seq<char>| error_tally(rs, k))
        &&& tally_of(self.status_classes@, |c: u16| class_tally(rs, c))
        &&& tally_of(self.status_codes@, |s: u16| code_tally(rs, s))
        &&& self.timeline@ == rs
        &&& !self.was_cancelled
    }
}

impl TestResult {
    /// The summary of a run in which nothing was sent.
    pub fn empty_result(cancelled: bool) -> (r: TestResult)
        ensures
            r.is_blank(),
            r.total_duration_us == 0,
            r.error_types@.len() == 0,
            r.was_cancelled == cancelled,
            r.well_formed(),
    {
        let mut r = aggregate_results(Vec::new(), 0);
        r.was_cancelled = cancelled;
        r
    }

    /// The summary reported when a run outlives its global timeout of
    /// `global_timeout_ms`: nothing is counted, the run is marked cancelled and
    /// `Global timeout` is the only error kind, seen once. The duration saturates
    /// at `u64::MAX` microseconds.
    pub fn global_timeout_result(global_timeout_ms: u64) -> (r: TestResult)
        ensures
            r.is_blank(),
            r.total_duration_us == if global_timeout_ms <= u64::MAX / 1000 {
                global_timeout_ms * 1000
            } else {
                u64::MAX as int
            },
            text_keys(r.error_types@) == seq![("Global timeout"@, 1u64)],
            r.was_cancelled,
            r.well_formed(),
    {
        let duration_us = if global_timeout_ms <= u64::MAX / 1000 {
            global_timeout_ms * 1000
        } else {
            u64::MAX
        };
        let mut r = aggregate_results(Vec::new(), duration_us);
        r.was_cancelled = true;
        r.error_types = vec![(String::from_str("Global timeout"), 1)];
        proof {
            assert(text_keys(r.error_types@) =~= seq![("Global timeout"@, 1u64)]);
        }
        r
    }

    /// Nothing was sent, so every figure is zero and every list empty (the
    /// duration, the error kinds and the cancellation flag aside).
    pub open spec fn is_blank(&self) -> bool {
        &&& self.total_requests == 0
        &&& self.success_count == 0
        &&& self.error_count == 0
        &&& self.cancelled_count == 0
        &&& self.burst_dispatch_ns == 0
        &&& self.warmup_time_us == 0
        &&& self.latency_min_us == 0
        &&& self.latency_max_us == 0
        &&& self.latency_sum_us == 0
        &&& self.latency_p50_us == 0
        &&& self.latency_p90_us == 0
        &&& self.latency_p95_us == 0
        &&& self.latency_p99_us == 0
        &&& self.latency_p999_us == 0
        &&& self.race_conditions_detected == 0
        &&& self.unique_responses == 0
        &&& self.bodies_considered == 0
        &&& self.timeline@.len() == 0
        &&& self.status_classes@.len() == 0
        &&& self.status_codes@.len() == 0
    }

    /// The summary of no outcomes is blank.
    proof fn lemma_blank_of_empty(&self, d: u64)
        requires
            self.summarizes(Seq::empty(), d),
            self.races_counted(),
            self.latency_p50_us == 0,
            self.latency_p90_us == 0,
            self.latency_p95_us == 0,
            self.latency_p99_us == 0,
            self.latency_p999_us == 0,
        ensures
            self.is_blank(),
            self.error_types@.len() == 0,
    {
        let e = Seq::<RequestResult>::empty();
        assert(fingerprints(e) =~= Set::<Seq<char>>::empty());
        assert(samples(e) =~= Multiset::empty());
        if self.error_types@.len() > 0 {
            assert(text_keys(self.error_types@)[0].1 > 0);
        }
        if self.status_classes@.len() > 0 {
            assert(self.status_classes@[0].1 > 0);
        }
        if self.status_codes@.len() > 0 {
            assert(self.status_codes@[0].1 > 0);
        }
    }

    /// The share of considered bodies that agree, as `(num, den)`: the response
    /// consistency is `100 * num / den` percent. With no bodies it is `1 / 1`.
    pub fn consistency_fraction(&self) -> (r: (u64, u64))
        ensures
            0 < r.1,
            r.0 <= r.1,
            self.bodies_considered == 0 ==> r.0 == r.1,
            self.bodies_considered > 0 && self.race_conditions_detected <= self.bodies_considered ==> r.0
                == self.bodies_considered - self.race_conditions_detected && r.1 == self.bodies_considered,
    {
        if self.bodies_considered == 0 {
            (1, 1)
        } else if self.race_conditions_detected <= self.bodies_considered {
            (self.bodies_considered - self.race_conditions_detected, self.bodies_considered)
        } else {
            (0, self.bodies_considered)
        }
    }

    /// Attaches what the run itself measured: the warm-up time, the burst dispatch
    /// spread, whether it was cancelled, and the requests that cancellation
    /// dropped while their body was read, which left no outcome.
    ///
    /// Returns false, and changes nothing, when the counts would no longer fit.
    pub fn finish_run(&mut self, warmup_time_us: u64, burst_dispatch_ns: u64, was_cancelled: bool, dropped: u64) -> (r: bool)
        ensures
            r == (old(self).total_requests + dropped <= u64::MAX && old(self).cancelled_count + dropped
                <= u64::MAX),
            !r ==> *final(self) == *old(self),
            old(self).well_formed() ==> final(self).well_formed(),
            r ==> {
                &&& final(self).total_requests == old(self).total_requests + dropped
                &&& final(self).cancelled_count == old(self).cancelled_count + dropped
                &&& final(self).warmup_time_us == warmup_time_us
                &&& final(self).burst_dispatch_ns == burst_dispatch_ns
                &&& final(self).was_cancelled == was_cancelled
                &&& final(self).success_count == old(self).success_count
                &&& final(self).error_count == old(self).error_count
                &&& final(self).total_duration_us == old(self).total_duration_us
                &&& final(self).latency_min_us == old(self).latency_min_us
                &&& final(self).latency_max_us == old(self).latency_max_us
                &&& final(self).latency_sum_us == old(self).latency_sum_us
                &&& final(self).latency_p50_us == old(self).latency_p50_us
                &&& final(self).latency_p90_us == old(self).latency_p90_us
                &&& final(self).latency_p95_us == old(self).latency_p95_us
                &&& final(self).latency_p99_us == old(self).latency_p99_us
                &&& final(self).latency_p999_us == old(self).latency_p999_us
                &&& final(self).race_conditions_detected == old(self).race_conditions_detected
                &&& final(self).unique_responses == old(self).unique_responses
                &&& final(self).bodies_considered == old(self).bodies_considered
                &&& final(self).error_types == old(self).error_types
                &&& final(self).timeline == old(self).timeline
                &&& final(self).status_classes == old(self).status_classes
                &&& final(self).status_codes == old(self).status_codes
            },
    {
        if dropped > u64::MAX - self.total_requests || dropped > u64::MAX - self.cancelled_count {
            return false;
        }
        self.total_requests = self.total_requests + dropped;
        self.cancelled_count = self.cancelled_count + dropped;
        self.warmup_time_us = warmup_time_us;
        self.burst_dispatch_ns = burst_dispatch_ns;
        self.was_cancelled = was_cancelled;
        true
    }

    /// The status distribution as one list: the classes (`2xx`) first, then the
    /// exact codes (`200`). The two kinds of key never collide.
    pub fn status_distribution(&self) -> (r: Vec<(String, u64)>)
        ensures
            r@.len() == self.status_classes@.len() + self.status_codes@.len(),
            forall|j: int| 0 <= j < self.status_classes@.len() ==> r@[j].0@ == StatusKey::Class(
                self.status_classes@[j].0,
            ).label_spec() && r@[j].1 == self.status_classes@[j].1,
            forall|j: int| 0 <= j < self.status_codes@.len() ==> r@[self.status_classes@.len() + j].0@
                == StatusKey::Exact(self.status_codes@[j].0).label_spec() && r@[self.status_classes@.len()
                + j].1 == self.status_codes@[j].1,
    {
        let mut out: Vec<(String, u64)> = Vec::new();
        let nc = self.status_classes.len();
        let mut i: usize = 0;
        while i < nc
            invariant
                nc == self.status_classes@.len(),
                i <= nc,
                out@.len() == i,
                forall|j: int| 0 <= j < i ==> out@[j].0@ == StatusKey::Class(self.status_classes@[j].0).label_spec()
                    && out@[j].1 == self.status_classes@[j].1,
            decreases nc - i,
        {
            let (c, k) = self.status_classes[i];
            out.push((StatusKey::Class(c).label(), k));
            i = i + 1;
        }
        let ns = self.status_codes.len();
        let mut i: usize = 0;
        while i < ns
            invariant
                nc == self.status_classes@.len(),
                ns == self.status_codes@.len(),
                i <= ns,
                out@.len() == nc + i,
                forall|j: int| 0 <= j < nc ==> out@[j].0@ == StatusKey::Class(self.status_classes@[j].0).label_spec()
                    && out@[j].1 == self.status_classes@[j].1,
                forall|j: int| 0 <= j < i ==> out@[nc + j].0@ == StatusKey::Exact(self.status_codes@[j].0).label_spec()
                    && out@[nc + j].1 == self.status_codes@[j].1,
            decreases ns - i,
        {
            let (c, k) = self.status_codes[i];
            out.push((StatusKey::Exact(c).label(), k));
            i = i + 1;
        }
        out
    }
}

/// In a well-formed summary the races never outnumber the considered bodies, so
/// the response consistency `consistency_fraction` gives lies between 0 and 100
/// percent, and is 100 percent when no body was considered.
pub proof fn lemma_consistency_in_range(r: TestResult)
    requires
        r.well_formed(),
    ensures
        r.race_conditions_detected <= r.bodies_considered,
        r.bodies_considered > 0 ==> r.race_conditions_detected < r.bodies_considered,
{
}

/// Summarizes the outcomes of a run that took `total_duration_us`.
///
/// Cancelled outcomes count only as cancelled; the others enter the success and
/// error counts, the latency figures and the status distribution, and failures
/// enter the error kinds. Bodies are compared by their leading
/// `FINGERPRINT_CHARS` characters.
pub fn aggregate_results(results: Vec<RequestResult>, total_duration_us: u64) -> (r: TestResult)
    ensures
        r.summarizes(results@, total_duration_us),
        r.well_formed(),
        results@.len() == 0 ==> r.is_blank() && r.error_types@.len() == 0,
{
    let mut t = Tallies::new();
    let n = results.len();
    let mut i: usize = 0;
    while i < n
        invariant
            n == results@.len(),
            i <= n,
            t.describe(results@.take(i as int)),
        decreases n - i,
    {
        proof {
            assert(results@.take(i + 1) == results@.take(i as int).push(results@[i as int]));
        }
        t.add(&results[i], Ghost(results@.take(i as int)));
        i = i + 1;
    }
    let ghost rs = results@;
    proof {
        assert(rs.take(n as int) == rs);
        lemma_samples_within(rs);
        lemma_totals_bounded(rs);
        fingerprint_views(t.prints@).unique_seq_to_set();
    }
    let p50 = value_at_permille(&t.hist, 500);
    let p90 = value_at_permille(&t.hist, 900);
    let p95 = value_at_permille(&t.hist, 950);
    let p99 = value_at_permille(&t.hist, 990);
    let p999 = value_at_permille(&t.hist, 999);
    let min = match t.lo {
        Some(m) => m,
        None => 0,
    };
    let max = match t.hi {
        Some(m) => m,
        None => 0,
    };
    proof {
        let m = recorded(t.hist);
        if m.len() > 0 {
            assert(at_or_above_recorded(m, 3, p50));
            let v = choose|v: u64| #[trigger] m.count(v) > 0 && v <= p50 && (3u8 == 3 ==> p50 <= v + v / 1000);
            assert(min <= v);
            assert(at_or_above_recorded(m, 3, p999));
            let w = choose|w: u64| #[trigger] m.count(w) > 0 && w <= p999 && (3u8 == 3 ==> p999 <= w + w / 1000);
            assert(w <= clamp1(max));
            lemma_div_is_ordered(w as int, clamp1(max) as int, 1000);
        }
        assert(p50 <= quantile_of(m, 3, 900));
        assert(p90 <= quantile_of(m, 3, 950));
        assert(p95 <= quantile_of(m, 3, 990));
        assert(p99 <= quantile_of(m, 3, 999));
    }
    let unique = t.prints.len() as u64;
    let race = if unique > 1 { unique - 1 } else { 0 };
    let r = TestResult {
        total_requests: n as u64,
        success_count: t.success,
        error_count: t.errors,
        cancelled_count: t.cancelled,
        total_duration_us,
        burst_dispatch_ns: 0,
        warmup_time_us: 0,
        latency_min_us: min,
        latency_max_us: max,
        latency_sum_us: t.sum,
        latency_p50_us: p50,
        latency_p90_us: p90,
        latency_p95_us: p95,
        latency_p99_us: p99,
        latency_p999_us: p999,
        race_conditions_detected: race,
        unique_responses: unique,
        bodies_considered: t.bodies,
        error_types: t.error_kinds,
        timeline: results,
        status_classes: t.classes,
        status_codes: t.codes,
        was_cancelled: false,
    };
    proof {
        if n == 0 {
            assert(rs =~= Seq::<RequestResult>::empty());
            assert(samples(rs) =~= Multiset::empty());
            r.lemma_blank_of_empty(total_duration_us);
        }
    }
    r
}

} // verus!
