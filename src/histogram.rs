//! The latency histogram, kept by the `hdrhistogram` crate.
use vstd::prelude::*;
use vstd::multiset::Multiset;
use hdrhistogram::{CreationError, Histogram, RecordError};

verus! {

/// A histogram of `u64` samples; Verus sees only what the functions below state
/// of it.
#[verifier::external_body]
pub struct LatencyHistogram {
    inner: Histogram<u64>,
}

#[verifier::external_type_specification]
#[verifier::external_body]
pub struct ExCreationError(CreationError);

#[verifier::external_type_specification]
#[verifier::external_body]
pub struct ExRecordError(RecordError);

/// The values recorded into a histogram, each as often as it was recorded.
pub uninterp spec fn recorded(h: LatencyHistogram) -> Multiset<u64>;

/// The number of significant decimal digits a histogram was made with.
pub uninterp spec fn sigfig_of(h: LatencyHistogram) -> u8;

/// What `Histogram::value_at_quantile` gives at quantile `permille / 1000`, for
/// a histogram of the given significant digits holding the given values.
pub uninterp spec fn quantile_of(values: Multiset<u64>, sigfig: u8, permille: u32) -> u64;

/// `r` is at or above some value of `values`; with three significant digits, by
/// at most a thousandth of that value.
pub open spec fn at_or_above_recorded(values: Multiset<u64>, sigfig: u8, r: u64) -> bool {
    exists|v: u64| #[trigger] values.count(v) > 0 && v <= r && (sigfig == 3 ==> r <= v + v / 1000)
}

/// Relies on `Histogram::new`: an empty, auto-resizing histogram; it is made for
/// every `sigfig` up to 5.
#[verifier::external_body]
pub(crate) fn new_histogram(sigfig: u8) -> (r: Result<LatencyHistogram, CreationError>)
    ensures
        sigfig <= 5 ==> r is Ok,
        r matches Ok(h) ==> recorded(h) =~= Multiset::empty() && sigfig_of(h) == sigfig,
{
    Histogram::<u64>::new(sigfig).map(|inner| LatencyHistogram { inner })
}

/// Relies on `Histogram::record`: the value is counted once more. It succeeds,
/// since every `LatencyHistogram` comes from `Histogram::new`, which resizes to
/// take any value; resizing fails only where `usize` is narrower than 32 bits.
#[verifier::external_body]
pub(crate) fn record_value(h: &mut LatencyHistogram, value: u64) -> (r: Result<(), RecordError>)
    ensures
        r is Ok,
        sigfig_of(*final(h)) == sigfig_of(*old(h)),
        recorded(*final(h)) == recorded(*old(h)).insert(value),
{
    h.inner.record(value)
}

/// Relies on `Histogram::value_at_quantile` at quantile `permille / 1000`, handed
/// over as the seconds in `permille` milliseconds: zero
/// for an empty histogram; else the highest value equivalent to a recorded value,
/// which with three significant digits lies within a thousandth above it; and
/// never more than at a higher quantile.
#[verifier::external_body]
pub(crate) fn value_at_permille(h: &LatencyHistogram, permille: u32) -> (r: u64)
    requires
        0 < permille <= 1000,
    ensures
        r == quantile_of(recorded(*h), sigfig_of(*h), permille),
        recorded(*h).len() == 0 ==> r == 0,
        recorded(*h).len() > 0 ==> at_or_above_recorded(recorded(*h), sigfig_of(*h), r),
        forall|p: u32| permille <= p <= 1000 ==> r <= #[trigger] quantile_of(recorded(*h), sigfig_of(*h), p),
{
    h.inner.value_at_quantile(std::time::Duration::from_millis(u64::from(permille)).as_secs_f64())
}

} // verus!
