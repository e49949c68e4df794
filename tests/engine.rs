use spamapi::{
    aggregate_results, body_preview, build_error_outcome, cancelled_outcome, dispatch_spread_ns,
    global_timeout_ms, history_limit, keep_dispatching, next_wave_users, ramp_step_nanos,
    ramp_step_users, response_outcome, select_method, sustained_duration_secs,
    transport_error_outcome, wave_tally, warmup_degraded, warmup_probe_count, HttpMethod, RequestResult, RunSlot, StatusKey,
    TestResult, BODY_PREVIEW_BYTES,
};

fn ok(id: u32, latency_us: u64, body: &str) -> RequestResult {
    response_outcome(id, 200, latency_us, 1_000, body.as_bytes())
}

fn count_of<K: PartialEq>(t: &[(K, u64)], k: &K) -> u64 {
    t.iter().find(|(x, _)| x == k).map(|(_, c)| *c).unwrap_or(0)
}

fn error_count(r: &TestResult, k: &str) -> u64 {
    r.error_types.iter().find(|(x, _)| x == k).map(|(_, c)| *c).unwrap_or(0)
}

fn balanced(r: &TestResult) -> bool {
    r.total_requests == r.success_count + r.error_count + r.cancelled_count
}

fn ordered(r: &TestResult) -> bool {
    let m = r.latency_max_us.max(1);
    r.latency_min_us <= r.latency_p50_us
        && r.latency_p50_us <= r.latency_p90_us
        && r.latency_p90_us <= r.latency_p95_us
        && r.latency_p95_us <= r.latency_p99_us
        && r.latency_p99_us <= r.latency_p999_us
        && r.latency_p999_us <= m + m / 1000
}

#[test]
fn burst_all_ok_summary() {
    let rs: Vec<RequestResult> = (0..50).map(|i| ok(i, 1_000 + i as u64, "OK")).collect();
    let r = aggregate_results(rs, 2_000_000);
    assert_eq!(r.total_requests, 50);
    assert_eq!(r.success_count, 50);
    assert_eq!(r.error_count, 0);
    assert_eq!(r.cancelled_count, 0);
    assert_eq!(count_of(&r.status_classes, &2), 50);
    assert_eq!(count_of(&r.status_codes, &200), 50);
    let dist = r.status_distribution();
    assert_eq!(dist, vec![("2xx".to_string(), 50), ("200".to_string(), 50)]);
    assert_eq!(r.unique_responses, 1);
    assert_eq!(r.race_conditions_detected, 0);
    assert_eq!(r.consistency_fraction(), (50, 50));
    assert_eq!(r.timeline.len(), 50);
    assert!(!r.was_cancelled);
}

#[test]
fn burst_varied_bodies_summary() {
    let rs: Vec<RequestResult> = (0..20).map(|i| ok(i, 500, &format!("REQ-{}", i * 7919))).collect();
    let r = aggregate_results(rs, 1_000);
    assert_eq!(r.unique_responses, 20);
    assert_eq!(r.race_conditions_detected, 19);
    let (num, den) = r.consistency_fraction();
    assert_eq!((num, den), (1, 20));
    assert!(((num as f64 / den as f64 * 100.0) - 5.0).abs() < 1e-9);
}

#[test]
fn fingerprint_uses_leading_chars_only() {
    let a = format!("{}{}", "x".repeat(200), "tail-one");
    let b = format!("{}{}", "x".repeat(200), "tail-two");
    let r = aggregate_results(vec![ok(0, 5, &a), ok(1, 5, &b), ok(2, 5, "other")], 10);
    assert_eq!(r.unique_responses, 2);
    assert_eq!(r.race_conditions_detected, 1);
    assert_eq!(r.bodies_considered, 3);
    assert_eq!(r.consistency_fraction(), (2, 3));
}

#[test]
fn cancelled_outcomes_only_counted_as_cancelled() {
    let rs = vec![
        ok(0, 100, "A"),
        cancelled_outcome(1, 9_999_999, 5),
        response_outcome(2, 503, 300, 7, b""),
        cancelled_outcome(3, 0, 0),
    ];
    let r = aggregate_results(rs, 1_000_000);
    assert_eq!(r.total_requests, 4);
    assert_eq!(r.success_count, 1);
    assert_eq!(r.error_count, 1);
    assert_eq!(r.cancelled_count, 2);
    assert!(balanced(&r));
    assert_eq!(r.latency_min_us, 100);
    assert_eq!(r.latency_max_us, 300);
    assert_eq!(r.latency_sum_us, 400);
    assert_eq!(error_count(&r, "HTTP 503"), 1);
    assert_eq!(error_count(&r, "Cancelled"), 0);
    assert_eq!(r.error_types.len(), 1);
    assert_eq!(count_of(&r.status_classes, &5), 1);
    assert_eq!(count_of(&r.status_codes, &503), 1);
    assert_eq!(r.timeline.len(), 4);
}

#[test]
fn percentiles_exact_on_small_values() {
    let rs: Vec<RequestResult> = (1..=100).map(|i| ok(i as u32, i, "")).collect();
    let r = aggregate_results(rs, 1);
    assert_eq!(r.latency_min_us, 1);
    assert_eq!(r.latency_max_us, 100);
    assert_eq!(r.latency_p50_us, 50);
    assert_eq!(r.latency_p90_us, 90);
    assert_eq!(r.latency_p95_us, 95);
    assert_eq!(r.latency_p99_us, 99);
    assert_eq!(r.latency_p999_us, 100);
    assert!(ordered(&r));
    assert_eq!(r.bodies_considered, 0);
    assert_eq!(r.consistency_fraction(), (1, 1));
}

#[test]
fn percentiles_ordered_on_wide_values() {
    let lat = [0u64, 3, 17, 2_500, 48_000, 1_000_000, 7_777_777, 123_456_789, 5, 5];
    let rs: Vec<RequestResult> = lat.iter().enumerate().map(|(i, &l)| ok(i as u32, l, "b")).collect();
    let r = aggregate_results(rs, 1);
    assert_eq!(r.latency_min_us, 0);
    assert_eq!(r.latency_max_us, 123_456_789);
    assert!(ordered(&r));
    assert!(r.latency_p999_us >= 123_456_789);
}

#[test]
fn errors_tallied_by_kind() {
    let rs = vec![
        transport_error_outcome(0, 10, 1, true, false, "x".to_string()),
        transport_error_outcome(1, 20, 1, false, true, "y".to_string()),
        transport_error_outcome(2, 30, 1, false, false, "dns failure".to_string()),
        transport_error_outcome(3, 40, 1, true, true, "z".to_string()),
        build_error_outcome(4, "bad header"),
    ];
    let r = aggregate_results(rs, 10);
    assert_eq!(r.error_count, 5);
    assert_eq!(error_count(&r, "Timeout"), 2);
    assert_eq!(error_count(&r, "Connection refused"), 1);
    assert_eq!(error_count(&r, "dns failure"), 1);
    assert_eq!(error_count(&r, "Build error: bad header"), 1);
    assert_eq!(r.error_types.len(), 4);
    assert!(r.status_classes.is_empty());
    assert!(r.status_codes.is_empty());
    assert!(balanced(&r));
}

#[test]
fn empty_aggregate_is_blank() {
    let r = aggregate_results(Vec::new(), 0);
    assert_eq!(r.total_requests, 0);
    assert_eq!(r.latency_min_us, 0);
    assert_eq!(r.latency_p50_us, 0);
    assert_eq!(r.latency_p999_us, 0);
    assert_eq!(r.consistency_fraction(), (1, 1));
}

#[test]
fn empty_result_marks_cancellation() {
    let r = TestResult::empty_result(true);
    assert!(r.was_cancelled);
    assert_eq!(r.total_requests, 0);
    assert_eq!(r.consistency_fraction(), (1, 1));
    assert!(!TestResult::empty_result(false).was_cancelled);
}

#[test]
fn global_timeout_summary() {
    let g = global_timeout_ms(1_000);
    assert_eq!(g, 32_000);
    let r = TestResult::global_timeout_result(g);
    assert_eq!(r.error_types, vec![("Global timeout".to_string(), 1)]);
    assert!(r.was_cancelled);
    assert_eq!(r.total_requests, 0);
    assert_eq!(r.total_duration_us, 32_000_000);
    assert!(balanced(&r));
}

#[test]
fn finish_run_keeps_balance() {
    let mut r = aggregate_results(vec![ok(0, 10, "a"), cancelled_outcome(1, 0, 0)], 10);
    assert!(r.finish_run(1_500, 42_000, true, 3));
    assert_eq!(r.total_requests, 5);
    assert_eq!(r.cancelled_count, 4);
    assert_eq!(r.warmup_time_us, 1_500);
    assert_eq!(r.burst_dispatch_ns, 42_000);
    assert!(r.was_cancelled);
    assert!(balanced(&r));
}

#[test]
fn finish_run_refuses_overflow() {
    let mut r = aggregate_results(vec![ok(0, 10, "a")], 10);
    assert!(!r.finish_run(1, 2, true, u64::MAX));
    assert_eq!(r.total_requests, 1);
    assert_eq!(r.cancelled_count, 0);
    assert_eq!(r.warmup_time_us, 0);
    assert!(!r.was_cancelled);
}

#[test]
fn all_cancelled_has_zero_percentiles() {
    let r = aggregate_results(vec![cancelled_outcome(0, 500, 1), cancelled_outcome(1, 700, 1)], 10);
    assert_eq!(r.cancelled_count, 2);
    assert_eq!(r.latency_p50_us, 0);
    assert_eq!(r.latency_p999_us, 0);
    assert_eq!(r.latency_min_us, 0);
    assert!(balanced(&r));
}

#[test]
fn wave_tally_counts_failures() {
    let outcomes = vec![
        Some(ok(0, 1, "a")),
        None,
        Some(response_outcome(2, 500, 1, 1, b"")),
        Some(cancelled_outcome(3, 1, 1)),
        Some(ok(4, 1, "b")),
    ];
    assert_eq!(wave_tally(&outcomes), (5, 3));
    assert_eq!(wave_tally(&Vec::new()), (0, 0));
}

#[test]
fn global_timeout_saturates() {
    assert_eq!(global_timeout_ms(u64::MAX), u64::MAX);
    let r = TestResult::global_timeout_result(u64::MAX);
    assert_eq!(r.total_duration_us, u64::MAX);
    assert_eq!(r.consistency_fraction(), (1, 1));
}

#[test]
fn response_outcome_success_and_failure() {
    let r = response_outcome(7, 204, 55, 99, b"done");
    assert!(r.success);
    assert_eq!(r.status_code, Some(204));
    assert_eq!(r.error, None);
    assert_eq!(r.response_size_bytes, 4);
    assert_eq!(r.response_body.as_deref(), Some("done"));
    assert_eq!(r.id, 7);
    assert_eq!(r.latency_us, 55);
    assert_eq!(r.timestamp_ms, 99);
    let f = response_outcome(8, 404, 1, 2, b"");
    assert!(!f.success);
    assert_eq!(f.error.as_deref(), Some("HTTP 404"));
    assert_eq!(f.response_body, None);
    let g = response_outcome(9, 300, 1, 2, b"x");
    assert_eq!(g.error.as_deref(), Some("HTTP 300"));
    let h = response_outcome(10, 199, 1, 2, b"x");
    assert_eq!(h.error.as_deref(), Some("HTTP 199"));
}

#[test]
fn body_preview_truncates_and_decodes() {
    let big = vec![b'a'; 2_000];
    let p = body_preview(&big).unwrap();
    assert_eq!(p.len(), BODY_PREVIEW_BYTES);
    assert_eq!(body_preview(b""), None);
    let bad = [b'o', b'k', 0xFF, b'!'];
    assert_eq!(body_preview(&bad).unwrap(), "ok\u{FFFD}!");
}

#[test]
fn cancelled_and_build_error_outcomes() {
    let c = cancelled_outcome(3, 12, 34);
    assert_eq!(c.error.as_deref(), Some("Cancelled"));
    assert!(!c.success);
    assert_eq!(c.latency_us, 12);
    let b = build_error_outcome(4, "invalid header");
    assert_eq!(b.error.as_deref(), Some("Build error: invalid header"));
    assert_eq!(b.latency_us, 0);
    assert_eq!(b.timestamp_ms, 0);
}

#[test]
fn transport_error_kinds() {
    let t = transport_error_outcome(1, 5, 6, true, false, "raw".to_string());
    assert_eq!(t.error.as_deref(), Some("Timeout"));
    let c = transport_error_outcome(1, 5, 6, false, true, "raw".to_string());
    assert_eq!(c.error.as_deref(), Some("Connection refused"));
    let o = transport_error_outcome(1, 5, 6, false, false, "raw".to_string());
    assert_eq!(o.error.as_deref(), Some("raw"));
    assert_eq!(o.status_code, None);
    assert_eq!(o.response_size_bytes, 0);
}

#[test]
fn method_selection_ignores_case() {
    assert_eq!(select_method("get"), HttpMethod::Get);
    assert_eq!(select_method("post"), HttpMethod::Post);
    assert_eq!(select_method("Put"), HttpMethod::Put);
    assert_eq!(select_method("DELETE"), HttpMethod::Delete);
    assert_eq!(select_method("pAtCh"), HttpMethod::Patch);
    assert_eq!(select_method("OPTIONS"), HttpMethod::Get);
    assert_eq!(select_method(""), HttpMethod::Get);
}

#[test]
fn status_key_labels() {
    assert_eq!(StatusKey::Class(2).label(), "2xx");
    assert_eq!(StatusKey::Class(5).label(), "5xx");
    assert_eq!(StatusKey::Exact(200).label(), "200");
    assert_eq!(StatusKey::Exact(0).label(), "0");
    assert_eq!(StatusKey::Exact(65535).label(), "65535");
}

#[test]
fn dispatch_spread_ignores_unwritten_slots() {
    assert_eq!(dispatch_spread_ns(&vec![0, 5_000, 0, 12_000, 7_000]), 7_000);
    assert_eq!(dispatch_spread_ns(&vec![0, 5_000, 0]), 0);
    assert_eq!(dispatch_spread_ns(&vec![]), 0);
    assert_eq!(dispatch_spread_ns(&vec![9, 9]), 0);
}

#[test]
fn ramp_up_caps() {
    let caps: Vec<u32> = (1..=5).map(|k| ramp_step_users(12, k)).collect();
    assert_eq!(caps, vec![3, 6, 9, 12, 12]);
    let caps: Vec<u32> = (1..=5).map(|k| ramp_step_users(100, k)).collect();
    assert_eq!(caps, vec![20, 40, 60, 80, 100]);
    assert_eq!(ramp_step_users(1, 1), 1);
    assert_eq!(ramp_step_users(u32::MAX, 5), u32::MAX);
    assert_eq!(ramp_step_nanos(10), 2_000_000_000);
    assert_eq!(ramp_step_nanos(3), 600_000_000);
}

#[test]
fn stress_wave_decisions() {
    assert_eq!(next_wave_users(100, 50, 15, false), Some(200));
    assert_eq!(next_wave_users(100, 50, 16, false), None);
    assert_eq!(next_wave_users(100, 0, 0, false), Some(200));
    assert_eq!(next_wave_users(100, 50, 0, true), None);
    assert_eq!(next_wave_users(10_000, 50, 0, false), None);
    assert_eq!(next_wave_users(9_999, 50, 0, false), Some(19_998));
}

#[test]
fn sustained_and_warmup_defaults() {
    assert_eq!(sustained_duration_secs(None), 10);
    assert_eq!(sustained_duration_secs(Some(3)), 3);
    assert_eq!(warmup_probe_count(50), 50);
    assert_eq!(warmup_probe_count(5_000), 1_000);
    assert!(warmup_degraded(4, 10));
    assert!(!warmup_degraded(5, 10));
    assert!(!warmup_degraded(0, 0));
    assert!(keep_dispatching(1, 2, false));
    assert!(!keep_dispatching(2, 2, false));
    assert!(!keep_dispatching(1, 2, true));
}

#[test]
fn history_limit_default() {
    assert_eq!(history_limit(None), 50);
    assert_eq!(history_limit(Some(7)), 7);
}

#[test]
fn run_slot_single_flight() {
    let mut slot: RunSlot<u32> = RunSlot::new();
    assert_eq!(*slot.active(), None);
    assert!(slot.can_begin());
    let (prev, a) = slot.begin(10);
    assert_eq!(prev, None);
    let (prev, b) = slot.begin(20);
    assert_eq!(prev, Some(10));
    assert_ne!(a, b);
    // the pre-empted run ends: the newer handle stays for a stop request
    slot.finish(a);
    assert_eq!(*slot.active(), Some(20));
    slot.finish(b);
    assert_eq!(*slot.active(), None);
}
