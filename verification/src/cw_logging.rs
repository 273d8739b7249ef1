//! Naming of the job's status channel.
//!
//! The remote job, its startup script and this tool all write to one log
//! group named after the project, and to a stream derived deterministically
//! from the table being processed. The calls that create the group and
//! stream and carry events are made by the binary; the naming contract that
//! lets the writers and the reader meet lives here.
use crate::PROJECT_NAME;
use vstd::prelude::*;
use vstd::string::StringExecFns;

verus! {

/// Coordinates of the job's status stream.
#[derive(Clone)]
pub struct CWLogSender {
    pub region_name: String,
    pub log_group_name: String,
    pub log_stream_name: String,
}

impl CWLogSender {
    /// The log group is always the fixed project name; the stream name is
    /// handed in, derived from the table the job processes.
    pub fn new(region_name: String, log_stream_name: String) -> (r: CWLogSender)
        ensures
            r.region_name@ == region_name@,
            r.log_group_name@ == PROJECT_NAME@,
            r.log_stream_name@ == log_stream_name@,
    {
        CWLogSender {
            region_name,
            log_group_name: String::from_str(PROJECT_NAME),
            log_stream_name,
        }
    }
}

} // verus!
