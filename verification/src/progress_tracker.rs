//! Classification of job progress from status-channel text.
//!
//! The remote job reports progress as free text. A line equal to the sentinel
//! `done` — compared without regard to ASCII case, after trimming — means the
//! job completed; a line containing `failed` means it failed; anything else is
//! progress to show the operator. The spinner that displays the text lives in
//! the binary; the classification and its latch live here.
use crate::get_glue_data::GlueTable;
use crate::text::{
    contains_ignore_case, eq_ignore_ascii_case_str, spec_contains, spec_to_lower, spec_trim,
    trim_str,
};
use vstd::prelude::*;
use vstd::string::StringExecFns;

verus! {

/// The state of the data-generation job as read from its status channel.
#[derive(Debug, Clone, Copy, PartialEq, Eq, Structural)]
pub enum JobState {
    Running,
    Completed,
    Failed,
}

/// How one status line is classified: the trimmed line equal to `done` (any
/// ASCII case) completes the job, a line containing `failed` (any ASCII case)
/// fails it, and any other line leaves it running.
pub open spec fn spec_classify_status(line: Seq<char>) -> JobState {
    if spec_to_lower(spec_trim(line)) == spec_to_lower("done"@) {
        JobState::Completed
    } else if spec_contains(spec_to_lower(line), spec_to_lower("failed"@)) {
        JobState::Failed
    } else {
        JobState::Running
    }
}

pub fn classify_status(line: &str) -> (r: JobState)
    ensures
        r == spec_classify_status(line@),
{
    let trimmed = trim_str(line);
    if eq_ignore_ascii_case_str(trimmed, "done") {
        JobState::Completed
    } else if contains_ignore_case(line, "failed") {
        JobState::Failed
    } else {
        JobState::Running
    }
}

/// Tracks the job state across polls and words the progress line shown for
/// the table being generated.
pub struct ProgressTracker {
    pub database_name: String,
    pub table_name: String,
    pub delay_secs: u8,
    pub state: JobState,
}

impl ProgressTracker {
    pub fn new(delay_secs: u8, glue_table: &GlueTable) -> (r: ProgressTracker)
        ensures
            r.delay_secs == delay_secs,
            r.database_name@ == glue_table.database.name@,
            r.table_name@ == glue_table.name@,
            r.state == JobState::Running,
    {
        ProgressTracker {
            database_name: glue_table.database().name().clone(),
            table_name: glue_table.name().clone(),
            delay_secs,
            state: JobState::Running,
        }
    }

    pub fn job_state(&self) -> (r: JobState)
        ensures
            r == self.state,
    {
        self.state
    }

    fn set_state(&mut self, state: JobState)
        ensures
            final(self).state == state,
            final(self).database_name == old(self).database_name,
            final(self).table_name == old(self).table_name,
            final(self).delay_secs == old(self).delay_secs,
    {
        self.state = state;
    }

    /// Fold the most recent status line into the tracked state. While the job
    /// is running the line decides the new state; a terminal state is a
    /// latch that no further line can move.
    pub fn update_progress(&mut self, last_log_line: &str) -> (r: JobState)
        ensures
            old(self).state == JobState::Running ==> final(self).state == spec_classify_status(
                last_log_line@,
            ),
            old(self).state != JobState::Running ==> final(self).state == old(self).state,
            r == final(self).state,
            final(self).database_name == old(self).database_name,
            final(self).table_name == old(self).table_name,
            final(self).delay_secs == old(self).delay_secs,
    {
        match self.state {
            JobState::Running => {
                let next = classify_status(last_log_line);
                self.set_state(next);
                next
            },
            JobState::Completed => JobState::Completed,
            JobState::Failed => JobState::Failed,
        }
    }

    /// The line shown to the operator while the job is still running.
    pub fn progress_message(&self, last_log_line: &str) -> (r: String)
        ensures
            r@ == "Generating synthetic data for "@ + self.database_name@ + "."@
                + self.table_name@ + ": \n \t \t "@ + last_log_line@,
    {
        let mut r = String::from_str("Generating synthetic data for ");
        r.append(self.database_name.as_str());
        r.append(".");
        r.append(self.table_name.as_str());
        r.append(": \n \t \t ");
        r.append(last_log_line);
        r
    }
}

} // verus!
