//! A load-generation engine for a single HTTP endpoint: request configuration,
//! curl-command parsing, per-request outcome classification, mode scheduling
//! decisions and the aggregation of outcomes into run statistics.
mod aggregate;
mod config;
mod curl;
mod histogram;
mod history;
mod outcome;
mod schedule;
mod tally;
mod text;

pub use aggregate::{aggregate_results, precision_bound, TestResult, FINGERPRINT_CHARS};
pub use config::{set_header, TestConfig, TestMode};
pub use curl::{parse_curl, tokenize_curl};
pub use history::{
    history_limit, HistoryEntry, RunSlot, SaveHistoryPayload, ScenarioEntry, DEFAULT_HISTORY_LIMIT,
};
pub use outcome::{
    body_preview, build_error_outcome, cancelled_outcome, response_outcome, select_method,
    transport_error_outcome, HttpMethod, RequestResult, StatusKey, BODY_PREVIEW_BYTES,
};
pub use schedule::{
    dispatch_spread_ns, global_timeout_ms, keep_dispatching, next_wave_users, ramp_step_nanos,
    ramp_step_users, sustained_duration_secs, wave_tally, warmup_degraded, warmup_probe_count,
    DEFAULT_DURATION_SECS,
    MAX_WARMUP_CONNECTIONS, RAMP_STEPS, STRESS_MAX_USERS, STRESS_WAVE_SECS,
};
