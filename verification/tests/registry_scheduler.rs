use item_tracker::errors::ScheduleError;
use item_tracker::gate::FetchGate;
use item_tracker::job::{job_start, job_step, JobAction, JobEvent, JobState, TickPhase};
use item_tracker::registry::JobHandle;
use item_tracker::scheduler::{bootstrap_plan, schedule_change_allowed, Scheduler};

fn spawn_job(rt: &tokio::runtime::Runtime, job_id: u64) -> JobHandle {
    JobHandle::new(job_id, rt.spawn(async {}))
}

#[test]
fn at_most_one_job_per_tenant() {
    let rt = tokio::runtime::Runtime::new().unwrap();
    let mut s = Scheduler::new();
    assert!(!s.is_running(42));
    let replaced = s.register_job(42, spawn_job(&rt, 1));
    assert!(replaced.is_none());
    assert!(s.is_running(42));
    assert_eq!(s.registry.len(), 1);
    // a restart replaces: the old job comes back cancelled, never a second live one
    let replaced = s.register_job(42, spawn_job(&rt, 2));
    assert!(replaced.is_some());
    assert_eq!(replaced.unwrap().job_id, 1);
    assert!(s.is_running(42));
    assert_eq!(s.registry.len(), 1);
    // an unrelated tenant gets its own slot
    let replaced = s.register_job(7, spawn_job(&rt, 3));
    assert!(replaced.is_none());
    assert_eq!(s.registry.len(), 2);
}

#[test]
fn repeated_restarts_keep_one_entry() {
    let rt = tokio::runtime::Runtime::new().unwrap();
    let mut s = Scheduler::new();
    for k in 0..10u64 {
        s.register_job(42, spawn_job(&rt, k));
        assert_eq!(s.registry.len(), 1);
    }
    assert!(s.is_running(42));
}

#[test]
fn concurrent_restarts_keep_at_most_one_job() {
    let rt = tokio::runtime::Runtime::new().unwrap();
    let s = std::sync::Arc::new(std::sync::Mutex::new(Scheduler::new()));
    rt.block_on(async {
        let mut handles = Vec::new();
        for k in 0..32u64 {
            let s2 = s.clone();
            handles.push(tokio::spawn(async move {
                let job = JobHandle::new(k, tokio::spawn(async {}));
                let tenant = if k % 2 == 0 { 42 } else { 7 };
                s2.lock().unwrap().register_job(tenant, job);
            }));
        }
        for h in handles {
            h.await.unwrap();
        }
    });
    let guard = s.lock().unwrap();
    // two tenants were hammered from 32 tasks: at most one job each survives
    assert_eq!(guard.registry.len(), 2);
    assert!(guard.is_running(42));
    assert!(guard.is_running(7));
}

#[test]
fn interval_saturates_instead_of_overflowing() {
    let (_, action) = job_start(u64::MAX);
    assert_eq!(action, JobAction::Sleep(u64::MAX));
}

#[test]
fn stop_is_idempotent() {
    let rt = tokio::runtime::Runtime::new().unwrap();
    let mut s = Scheduler::new();
    s.register_job(42, spawn_job(&rt, 1));
    s.remove(42);
    assert!(!s.is_running(42));
    // stopping again: no error, no panic, nothing changes
    s.remove(42);
    assert!(!s.is_running(42));
    // stopping a tenant that never ran is a no-op too
    s.remove(99);
    assert!(!s.is_running(99));
}

#[test]
fn plan_start_needs_a_schedule() {
    assert_eq!(Scheduler::plan_start(Some(6)), Ok(6));
    assert_eq!(Scheduler::plan_start(None), Err(ScheduleError::NoScheduleConfigured));
    assert_eq!(
        ScheduleError::NoScheduleConfigured.message(),
        "No schedule set for this server."
    );
}

#[test]
fn schedule_change_needs_a_destination() {
    assert!(schedule_change_allowed(Some(5)));
    assert!(!schedule_change_allowed(None));
}

#[test]
fn bootstrap_plan_spaces_configured_tenants() {
    let rows: Vec<(u64, Option<u64>)> = vec![(1, Some(6)), (2, None), (3, Some(12))];
    let plan = bootstrap_plan(&rows);
    assert_eq!(plan.len(), 2);
    assert_eq!(plan[0].tenant, 1);
    assert_eq!(plan[0].hours, 6);
    assert_eq!(plan[0].delay_secs, 600);
    assert_eq!(plan[1].tenant, 3);
    assert_eq!(plan[1].hours, 12);
    assert_eq!(plan[1].delay_secs, 600);
    let empty: Vec<(u64, Option<u64>)> = vec![];
    assert_eq!(bootstrap_plan(&empty).len(), 0);
}

#[test]
fn job_waits_one_full_interval_before_first_tick() {
    let (state, action) = job_start(6);
    assert_eq!(state, JobState::Idle);
    assert_eq!(action, JobAction::Sleep(6 * 3600));
}

#[test]
fn job_tick_runs_check_detect_persist_in_order() {
    let interval = 6 * 3600;
    let (s, a) = job_step(JobState::Idle, JobEvent::IntervalElapsed, interval);
    assert_eq!(s, JobState::Ticking(TickPhase::CheckingMembership));
    assert_eq!(a, JobAction::CheckMembership);
    let (s, a) = job_step(s, JobEvent::Membership(true), interval);
    assert_eq!(s, JobState::Ticking(TickPhase::Detecting));
    assert_eq!(a, JobAction::RunDetection);
    let (s, a) = job_step(s, JobEvent::DetectionOutcome(true), interval);
    assert_eq!(s, JobState::Ticking(TickPhase::Persisting));
    assert_eq!(a, JobAction::PersistTimestamp);
    let (s, a) = job_step(s, JobEvent::PersistOutcome(true), interval);
    assert_eq!(s, JobState::Idle);
    assert_eq!(a, JobAction::Sleep(interval));
}

#[test]
fn job_terminates_on_lost_membership_and_failures() {
    let interval = 3600;
    let ticking = JobState::Ticking(TickPhase::CheckingMembership);
    let (s, a) = job_step(ticking, JobEvent::Membership(false), interval);
    assert_eq!(s, JobState::Cancelled);
    assert_eq!(a, JobAction::Deregister);
    let (s, a) = job_step(
        JobState::Ticking(TickPhase::Detecting),
        JobEvent::DetectionOutcome(false),
        interval,
    );
    assert_eq!(s, JobState::Cancelled);
    assert_eq!(a, JobAction::Deregister);
    let (s, a) = job_step(
        JobState::Ticking(TickPhase::Persisting),
        JobEvent::PersistOutcome(false),
        interval,
    );
    assert_eq!(s, JobState::Cancelled);
    assert_eq!(a, JobAction::Deregister);
    // cancelled is terminal
    let (s, a) = job_step(JobState::Cancelled, JobEvent::IntervalElapsed, interval);
    assert_eq!(s, JobState::Cancelled);
    assert_eq!(a, JobAction::Hold);
}

#[test]
fn job_holds_on_mismatched_events() {
    let (s, a) = job_step(JobState::Idle, JobEvent::Membership(true), 60);
    assert_eq!(s, JobState::Idle);
    assert_eq!(a, JobAction::Hold);
}

#[test]
fn fetch_gate_bounds_outstanding_calls() {
    let mut g = FetchGate::new(3);
    assert!(g.try_acquire());
    assert!(g.try_acquire());
    assert!(g.try_acquire());
    assert!(!g.try_acquire());
    g.release();
    assert!(g.try_acquire());
    assert!(!g.try_acquire());
}
