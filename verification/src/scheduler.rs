use vstd::prelude::*;
use crate::errors::ScheduleError;
use crate::registry::{JobHandle, JobRegistry};

verus! {

/// The window, in seconds, across which bootstrap job starts are spread.
pub const BOOTSTRAP_WINDOW_SECS: u64 = 1800;

/// The orchestrating facade over the job registry. Starting, replacing and
/// stopping a tenant's recurring job all go through it; the caller spawns
/// the actual task and hands its handle in.
pub struct Scheduler {
    /// The per-tenant job registry.
    pub registry: JobRegistry,
}

impl Scheduler {
    /// A scheduler with no running jobs.
    pub fn new() -> (r: Scheduler)
        ensures
            r.registry.wf(),
            forall|t: u64| !r.registry.spec_contains(t),
    {
        Scheduler { registry: JobRegistry::new() }
    }

    /// The start-or-restart decision: a tenant with no configured polling
    /// interval cannot be started; otherwise the configured hours are used.
    pub fn plan_start(schedule: Option<u64>) -> (r: Result<u64, ScheduleError>)
        ensures
            r is Ok <==> schedule is Some,
            r is Ok ==> r->Ok_0 == schedule->0,
            r is Err ==> r == Result::<u64, ScheduleError>::Err(
                ScheduleError::NoScheduleConfigured,
            ),
    {
        match schedule {
            Option::Some(hours) => Result::Ok(hours),
            Option::None => Result::Err(ScheduleError::NoScheduleConfigured),
        }
    }

    /// Registers a freshly spawned job for `tenant`, cancelling and returning
    /// the replaced job if one was running.
    pub fn register_job(&mut self, tenant: u64, job: JobHandle) -> (replaced: Option<JobHandle>)
        requires
            old(self).registry.wf(),
        ensures
            final(self).registry.wf(),
            final(self).registry.has_job(tenant, job),
            final(self).registry.spec_contains(tenant),
            forall|j: JobHandle| final(self).registry.has_job(tenant, j) ==> j == job,
            forall|t: u64, j: JobHandle|
                t != tenant ==> (final(self).registry.has_job(t, j) <==> old(
                    self,
                ).registry.has_job(t, j)),
            forall|t: u64|
                t != tenant ==> (final(self).registry.spec_contains(t) <==> old(
                    self,
                ).registry.spec_contains(t)),
            replaced is Some <==> old(self).registry.spec_contains(tenant),
            replaced is Some ==> old(self).registry.has_job(tenant, replaced->0),
    {
        self.registry.register(tenant, job)
    }

    /// Stops `tenant`'s job: removes and cancels it. Idempotent — stopping a
    /// tenant with no running job changes nothing and is not an error.
    pub fn remove(&mut self, tenant: u64)
        requires
            old(self).registry.wf(),
        ensures
            final(self).registry.wf(),
            !final(self).registry.spec_contains(tenant),
            forall|t: u64, j: JobHandle|
                t != tenant ==> (final(self).registry.has_job(t, j) <==> old(
                    self,
                ).registry.has_job(t, j)),
            forall|t: u64|
                t != tenant ==> (final(self).registry.spec_contains(t) <==> old(
                    self,
                ).registry.spec_contains(t)),
            !old(self).registry.spec_contains(tenant) ==> *final(self) == *old(self),
    {
        self.registry.remove(tenant);
    }

    /// A point-in-time check with no ordering guarantee relative to
    /// concurrent registrations.
    pub fn is_running(&self, tenant: u64) -> (r: bool)
        ensures
            r == self.registry.spec_contains(tenant),
    {
        self.registry.is_running(tenant)
    }
}

/// The set-schedule gate: a polling interval may only be configured for a
/// tenant that already has a destination channel; without one the change
/// is rejected.
pub fn schedule_change_allowed(destination: Option<u64>) -> (r: bool)
    ensures
        r == (destination is Some),
{
    match destination {
        Option::Some(_) => true,
        Option::None => false,
    }
}

/// One planned job start of the bootstrap sequence.
pub struct PlannedStart {
    /// The tenant whose job is to be started.
    pub tenant: u64,
    /// The tenant's configured polling interval, in hours.
    pub hours: u64,
    /// How long to wait after this start before the next one.
    pub delay_secs: u64,
}

/// The bootstrap starts planned from the first `n` store rows: one start per
/// tenant with a configured interval, in store order, each spaced by `delay`.
pub open spec fn spec_bootstrap_prefix(
    rows: Seq<(u64, Option<u64>)>,
    delay: u64,
    n: int,
) -> Seq<PlannedStart>
    decreases n,
{
    if n <= 0 {
        Seq::empty()
    } else {
        let rest = spec_bootstrap_prefix(rows, delay, n - 1);
        match rows[n - 1].1 {
            Option::Some(h) => rest.push(
                PlannedStart { tenant: rows[n - 1].0, hours: h, delay_secs: delay },
            ),
            Option::None => rest,
        }
    }
}

/// The delay between two bootstrap starts: the fixed window divided by the
/// number of store rows (meaningful when there is at least one row).
pub open spec fn spec_bootstrap_delay(rows: Seq<(u64, Option<u64>)>) -> u64 {
    (BOOTSTRAP_WINDOW_SECS as int / rows.len() as int) as u64
}

/// Plans the bootstrap sequence from the store's `(tenant, interval)` rows:
/// every tenant with a configured interval gets one start, in store order,
/// and starts are spaced evenly across the fixed window so registrations do
/// not burst. One tenant's missing interval does not block the others.
pub fn bootstrap_plan(rows: &Vec<(u64, Option<u64>)>) -> (r: Vec<PlannedStart>)
    ensures
        r@ == spec_bootstrap_prefix(
            rows@,
            spec_bootstrap_delay(rows@),
            rows@.len() as int,
        ),
{
    let mut r: Vec<PlannedStart> = Vec::new();
    let total = rows.len();
    if total == 0 {
        return r;
    }
    let delay: u64 = BOOTSTRAP_WINDOW_SECS / (total as u64);
    assert(delay == spec_bootstrap_delay(rows@));
    let mut i: usize = 0;
    while i < total
        invariant
            i <= total,
            total == rows@.len(),
            delay == spec_bootstrap_delay(rows@),
            r@ == spec_bootstrap_prefix(rows@, delay, i as int),
        decreases total - i,
    {
        let (tenant, schedule) = rows[i];
        match schedule {
            Option::Some(h) => {
                r.push(PlannedStart { tenant, hours: h, delay_secs: delay });
            },
            Option::None => {},
        }
        i = i + 1;
    }
    r
}

} // verus!
