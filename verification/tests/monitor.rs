use base64::Engine;
use synth_table::get_glue_data::{GlueDatabase, GlueTable};
use synth_table::get_processing_job::{
    get_script, should_clean_up, JobMonitor, JobOutcome, MonitorStep, PowerState,
};
use synth_table::progress_tracker::{classify_status, JobState, ProgressTracker};

fn sample_table() -> GlueTable {
    let db = GlueDatabase::new(
        "eu-west-1".to_string(),
        "111122223333".to_string(),
        "sales".to_string(),
    );
    GlueTable::new(db, "orders".to_string(), "s3://bucket/prefix/".to_string())
}

#[test]
fn done_in_any_case_completes() {
    assert_eq!(classify_status("done"), JobState::Completed);
    assert_eq!(classify_status("Done"), JobState::Completed);
    assert_eq!(classify_status("DONE "), JobState::Completed);
}

#[test]
fn failed_text_fails() {
    assert_eq!(classify_status("job failed: disk full"), JobState::Failed);
}

#[test]
fn progress_text_keeps_running_and_is_surfaced_verbatim() {
    assert_eq!(classify_status("50% complete"), JobState::Running);
    let mut tracker = ProgressTracker::new(10, &sample_table());
    assert_eq!(tracker.update_progress("50% complete"), JobState::Running);
    let message = tracker.progress_message("50% complete");
    assert_eq!(message, "Generating synthetic data for sales.orders: \n \t \t 50% complete");
    assert!(message.ends_with("50% complete"));
}

#[test]
fn done_must_be_the_whole_line() {
    assert_eq!(classify_status("well done"), JobState::Running);
    assert_eq!(classify_status("done and dusted"), JobState::Running);
}

#[test]
fn tracker_latches_once_terminal() {
    let mut tracker = ProgressTracker::new(10, &sample_table());
    assert_eq!(tracker.update_progress("done"), JobState::Completed);
    assert_eq!(tracker.update_progress("something failed"), JobState::Completed);
    assert_eq!(tracker.job_state(), JobState::Completed);
}

#[test]
fn monitor_reads_status_only_while_running() {
    let mut monitor = JobMonitor::new();
    assert_eq!(monitor.observe_power(PowerState::Pending), MonitorStep::Wait);
    assert_eq!(monitor.observe_power(PowerState::Running), MonitorStep::ReadStatus);
    assert_eq!(monitor.record_status(JobState::Running), MonitorStep::Wait);
    assert_eq!(monitor.observe_power(PowerState::Running), MonitorStep::ReadStatus);
    assert_eq!(
        monitor.record_status(JobState::Completed),
        MonitorStep::Halt(JobOutcome::Succeeded)
    );
    // Terminal is final: no later power reading asks for a status read.
    assert_eq!(
        monitor.observe_power(PowerState::Running),
        MonitorStep::Halt(JobOutcome::Succeeded)
    );
    assert_eq!(
        monitor.record_status(JobState::Failed),
        MonitorStep::Halt(JobOutcome::Succeeded)
    );
}

#[test]
fn failed_status_halts_without_cleanup() {
    let mut monitor = JobMonitor::new();
    assert_eq!(monitor.observe_power(PowerState::Running), MonitorStep::ReadStatus);
    assert_eq!(monitor.record_status(JobState::Failed), MonitorStep::Halt(JobOutcome::JobFailed));
    assert!(!should_clean_up(JobOutcome::JobFailed));
    assert!(should_clean_up(JobOutcome::Succeeded));
}

#[test]
fn unexpected_power_state_halts_unclassified() {
    let mut monitor = JobMonitor::new();
    assert_eq!(
        monitor.observe_power(PowerState::Other),
        MonitorStep::Halt(JobOutcome::UnknownPowerState)
    );
    assert!(!should_clean_up(JobOutcome::UnknownPowerState));
}

#[test]
fn startup_payload_is_the_encoded_substituted_script() {
    let table = sample_table();
    let bash = "#!/bin/bash\n# <your project>\npython3 - <<'EOF'\n<your python script>\nEOF\n# <your database>.<your table>\n";
    let python = "print('generate')";
    let expected_plain = "#!/bin/bash\n# SynthTable\npython3 - <<'EOF'\nprint('generate')\nEOF\n# sales.orders\n";
    let expected = base64::engine::general_purpose::STANDARD.encode(expected_plain);
    assert_eq!(get_script(&table, bash, python), expected);
}
