//! The records of past runs and saved scenarios kept by the host.
use vstd::prelude::*;

verus! {

/// How many history entries are listed when no limit is given.
pub const DEFAULT_HISTORY_LIMIT: u32 = 50;

/// One stored run.
#[derive(Clone, Debug)]
pub struct HistoryEntry {
    pub id: i64,
    pub timestamp: String,
    pub url: String,
    pub method: String,
    pub mode: String,
    pub virtual_users: u32,
    pub config_json: String,
    pub result_json: String,
}

/// One saved scenario.
#[derive(Clone, Debug)]
pub struct ScenarioEntry {
    pub id: i64,
    pub name: String,
    pub steps_json: String,
}

/// A run to be stored, as the host hands it over.
#[derive(Clone, Debug)]
pub struct SaveHistoryPayload {
    pub timestamp: String,
    pub url: String,
    pub method: String,
    pub mode: String,
    pub virtual_users: u32,
    pub config_json: String,
    pub result_json: String,
}

/// The number of history entries to list.
pub fn history_limit(limit: Option<u32>) -> (r: u32)
    ensures
        r == match limit { Some(l) => l, None => DEFAULT_HISTORY_LIMIT },
{
    match limit {
        Some(l) => l,
        None => DEFAULT_HISTORY_LIMIT,
    }
}

/// The single-flight slot of the run controller: it holds the cancel handle of
/// the run in flight, if any, and the number of the last run that began.
pub struct RunSlot<T> {
    active: Option<T>,
    run: u64,
}

impl<T> RunSlot<T> {
    /// The handle of the run in flight.
    pub closed spec fn active_spec(&self) -> Option<T> {
        self.active
    }

    /// The number of the last run that began; zero before any.
    pub closed spec fn run_spec(&self) -> u64 {
        self.run
    }

    pub fn new() -> (r: Self)
        ensures
            r.active_spec() is None,
            r.run_spec() == 0,
    {
        RunSlot { active: None, run: 0 }
    }

    /// Installs the handle of a new run and numbers the run. Hands back the
    /// handle it replaces, which the caller cancels before the new run starts,
    /// and the new run's number, which the caller gives back to `finish`.
    pub fn begin(&mut self, handle: T) -> (r: (Option<T>, u64))
        requires
            old(self).run_spec() < u64::MAX,
        ensures
            final(self).active_spec() == Some(handle),
            final(self).run_spec() == r.1,
            r.1 == old(self).run_spec() + 1,
            r.0 == old(self).active_spec(),
    {
        let previous = self.active.take();
        self.active = Some(handle);
        self.run = self.run + 1;
        (previous, self.run)
    }

    /// Ends run number `run`, however it ended: its handle leaves the slot. A run
    /// that was pre-empted leaves the handle of the run that replaced it in place.
    pub fn finish(&mut self, run: u64)
        ensures
            final(self).run_spec() == old(self).run_spec(),
            final(self).active_spec() == if old(self).run_spec() == run {
                None
            } else {
                old(self).active_spec()
            },
    {
        if self.run == run {
            self.active = None;
        }
    }

    /// Whether another run can be numbered.
    pub fn can_begin(&self) -> (r: bool)
        ensures
            r == (self.run_spec() < u64::MAX),
    {
        self.run < u64::MAX
    }

    /// The handle to cancel on a stop request; stopping with none is no error.
    pub fn active(&self) -> (r: &Option<T>)
        ensures
            *r == self.active_spec(),
    {
        &self.active
    }
}

/// A pre-empted run that ends does not disturb the run that replaced it: the
/// slot still holds the newer handle, which a stop request then cancels.
pub proof fn lemma_preempted_finish_keeps_newer<T>(
    s1: RunSlot<T>,
     s2: RunSlot<T>,
    s3: RunSlot<T>,
    a: u64,
    b: u64,
    hb: T,
)
    requires
        s1.run_spec() == a,
        s2.active_spec() == Some(hb),
        s2.run_spec() == b,
        b == s1.run_spec() + 1,
        s3.run_spec() == s2.run_spec(),
        s3.active_spec() == if s2.run_spec() == a { None } else { s2.active_spec() },
    ensures
        s3.active_spec() == Some(hb),
{
}

} // verus!
