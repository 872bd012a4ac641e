use pvf_prepare_worker::monitor::cpu_monitor_step;
use pvf_prepare_worker::monitor::MonitorStep;
use pvf_prepare_worker::monitor::OutcomeCell;
use pvf_prepare_worker::monitor::WaitOutcome;

#[test]
fn first_writer_wins_the_race() {
    let mut cell = OutcomeCell::new();
    assert_eq!(cell.read(), WaitOutcome::Pending);
    assert!(cell.try_complete(WaitOutcome::Finished));
    assert!(!cell.try_complete(WaitOutcome::TimedOut));
    assert_eq!(cell.read(), WaitOutcome::Finished);
}

#[test]
fn timeout_first_is_kept_over_a_late_finish() {
    let mut cell = OutcomeCell::new();
    assert!(cell.try_complete(WaitOutcome::TimedOut));
    assert!(!cell.try_complete(WaitOutcome::Finished));
    assert_eq!(cell.read(), WaitOutcome::TimedOut);
}

#[test]
fn a_resolved_outcome_is_never_pending() {
    let mut cell = OutcomeCell::new();
    cell.try_complete(WaitOutcome::Finished);
    assert_ne!(cell.read(), WaitOutcome::Pending);
}

#[test]
fn monitor_reports_timeout_at_the_deadline() {
    assert_eq!(cpu_monitor_step(1_000, 1_000, false), MonitorStep::ReportTimeout(1_000));
    assert_eq!(cpu_monitor_step(1_001, 1_000, false), MonitorStep::ReportTimeout(1_001));
    // A completion signal arriving only after the budget is spent does not
    // rescue the job.
    assert_eq!(cpu_monitor_step(1_000, 1_000, true), MonitorStep::ReportTimeout(1_000));
}

#[test]
fn monitor_cancels_when_the_job_finished_in_time() {
    assert_eq!(cpu_monitor_step(999, 1_000, true), MonitorStep::Cancelled);
}

#[test]
fn monitor_sleeps_for_the_remaining_budget() {
    assert_eq!(cpu_monitor_step(300, 1_000, false), MonitorStep::Sleep(700));
    assert_eq!(cpu_monitor_step(0, 1_000, false), MonitorStep::Sleep(1_000));
}
