use vstd::prelude::*;

verus! {

/// The step a recurring job is at within one tick.
#[derive(Debug, PartialEq, Eq, Structural)]
pub enum TickPhase {
    /// Verifying that the tenant is still known to the platform.
    CheckingMembership,
    /// Running the change detector and notification dispatch.
    Detecting,
    /// Persisting the tenant's "last ran at" timestamp.
    Persisting,
}

/// The state of one tenant's recurring job.
#[derive(Debug, PartialEq, Eq, Structural)]
pub enum JobState {
    /// Waiting for the next tick.
    Idle,
    /// Executing a tick.
    Ticking(TickPhase),
    /// Terminated; the job performs no further work.
    Cancelled,
}

/// What the job's driver observed since the last step.
#[derive(Debug, PartialEq, Eq, Structural)]
pub enum JobEvent {
    /// The interval timer fired.
    IntervalElapsed,
    /// The membership check answered: is the tenant still present?
    Membership(bool),
    /// The detection-and-notification cycle finished: did it succeed?
    DetectionOutcome(bool),
    /// The "last ran at" write finished: did it succeed?
    PersistOutcome(bool),
}

/// What the job's driver must do next.
#[derive(Debug, PartialEq, Eq, Structural)]
pub enum JobAction {
    /// Wait the given number of seconds, then report `IntervalElapsed`.
    Sleep(u64),
    /// Ask the store whether the tenant is still present.
    CheckMembership,
    /// Run the change detector and dispatch notifications.
    RunDetection,
    /// Persist the tenant's "last ran at" timestamp.
    PersistTimestamp,
    /// Remove this job from the registry; the job is over.
    Deregister,
    /// Nothing; the event does not apply to the current state.
    Hold,
}

/// The job transition relation. One tick runs membership check, detection,
/// and persistence strictly in that order; the next tick is scheduled
/// relative to completion of the previous one, so stalled ticks never queue
/// up. A lost membership is a normal termination; a failed detection cycle
/// or a failed persistence write ends the job until an operator restarts it.
pub open spec fn spec_job_step(state: JobState, event: JobEvent, interval_secs: u64) -> (
    JobState,
    JobAction,
) {
    match (state, event) {
        (JobState::Idle, JobEvent::IntervalElapsed) => (
            JobState::Ticking(TickPhase::CheckingMembership),
            JobAction::CheckMembership,
        ),
        (JobState::Ticking(TickPhase::CheckingMembership), JobEvent::Membership(present)) => {
            if present {
                (JobState::Ticking(TickPhase::Detecting), JobAction::RunDetection)
            } else {
                (JobState::Cancelled, JobAction::Deregister)
            }
        },
        (JobState::Ticking(TickPhase::Detecting), JobEvent::DetectionOutcome(ok)) => {
            if ok {
                (JobState::Ticking(TickPhase::Persisting), JobAction::PersistTimestamp)
            } else {
                (JobState::Cancelled, JobAction::Deregister)
            }
        },
        (JobState::Ticking(TickPhase::Persisting), JobEvent::PersistOutcome(ok)) => {
            if ok {
                (JobState::Idle, JobAction::Sleep(interval_secs))
            } else {
                (JobState::Cancelled, JobAction::Deregister)
            }
        },
        _ => (state, JobAction::Hold),
    }
}

/// One step of the recurring job's state machine.
pub fn job_step(state: JobState, event: JobEvent, interval_secs: u64) -> (r: (JobState, JobAction))
    ensures
        r == spec_job_step(state, event, interval_secs),
{
    match (state, event) {
        (JobState::Idle, JobEvent::IntervalElapsed) => (
            JobState::Ticking(TickPhase::CheckingMembership),
            JobAction::CheckMembership,
        ),
        (JobState::Ticking(TickPhase::CheckingMembership), JobEvent::Membership(present)) => {
            if present {
                (JobState::Ticking(TickPhase::Detecting), JobAction::RunDetection)
            } else {
                (JobState::Cancelled, JobAction::Deregister)
            }
        },
        (JobState::Ticking(TickPhase::Detecting), JobEvent::DetectionOutcome(ok)) => {
            if ok {
                (JobState::Ticking(TickPhase::Persisting), JobAction::PersistTimestamp)
            } else {
                (JobState::Cancelled, JobAction::Deregister)
            }
        },
        (JobState::Ticking(TickPhase::Persisting), JobEvent::PersistOutcome(ok)) => {
            if ok {
                (JobState::Idle, JobAction::Sleep(interval_secs))
            } else {
                (JobState::Cancelled, JobAction::Deregister)
            }
        },
        (s, _) => (s, JobAction::Hold),
    }
}

/// The tick interval in seconds for a schedule of `hours` hours, saturating
/// at the largest representable value.
pub fn interval_secs(hours: u64) -> (r: u64)
    ensures
        hours * 3600 <= u64::MAX ==> r == hours * 3600,
        hours * 3600 > u64::MAX ==> r == u64::MAX,
{
    if hours <= u64::MAX / 3600 {
        hours * 3600
    } else {
        proof {
            assert(hours >= u64::MAX / 3600 + 1);
            assert(hours * 3600 >= (u64::MAX / 3600 + 1) * 3600) by (nonlinear_arith)
                requires
                    hours >= u64::MAX / 3600 + 1,
            ;
        }
        u64::MAX
    }
}

/// A job starts Idle and waits one full interval before its first tick:
/// starting a job causes no immediate burst of work.
pub fn job_start(hours: u64) -> (r: (JobState, JobAction))
    ensures
        r.0 == JobState::Idle,
        hours * 3600 <= u64::MAX ==> r.1 == JobAction::Sleep((hours * 3600) as u64),
        hours * 3600 > u64::MAX ==> r.1 == JobAction::Sleep(u64::MAX),
{
    (JobState::Idle, JobAction::Sleep(interval_secs(hours)))
}

/// Within one tick the steps run strictly in order: detection is entered
/// only from a positive membership check, persistence only from a
/// successful detection, and the job returns to Idle only through a
/// successful persistence.
pub proof fn lemma_tick_order(s: JobState, e: JobEvent, interval_secs: u64)
    ensures
        (spec_job_step(s, e, interval_secs).0 == JobState::Ticking(TickPhase::Detecting) && s
            != JobState::Ticking(TickPhase::Detecting)) ==> (s == JobState::Ticking(
            TickPhase::CheckingMembership,
        ) && e == JobEvent::Membership(true)),
        (spec_job_step(s, e, interval_secs).0 == JobState::Ticking(TickPhase::Persisting) && s
            != JobState::Ticking(TickPhase::Persisting)) ==> (s == JobState::Ticking(
            TickPhase::Detecting,
        ) && e == JobEvent::DetectionOutcome(true)),
        (spec_job_step(s, e, interval_secs).0 == JobState::Idle && s != JobState::Idle) ==> (s
            == JobState::Ticking(TickPhase::Persisting) && e == JobEvent::PersistOutcome(true)),
{
}

/// A cancelled job never works again: every event leaves it cancelled and
/// demands nothing of the driver beyond deregistration already performed.
pub proof fn lemma_cancelled_is_terminal(event: JobEvent, interval_secs: u64)
    ensures
        spec_job_step(JobState::Cancelled, event, interval_secs).0 == JobState::Cancelled,
        spec_job_step(JobState::Cancelled, event, interval_secs).1 == JobAction::Hold,
{
}

} // verus!
