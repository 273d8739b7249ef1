//! Orchestration core for provisioning a transient compute environment that
//! runs a synthetic-data job against a selected catalog table.
//!
//! The library holds the decision logic: finding a private subnet with a route
//! through a NAT gateway, planning the create/teardown of the scoped identity,
//! templating least-privilege policy documents, and classifying job progress.
//! The surrounding control-plane calls are made by the binary around it.
use vstd::prelude::*;

pub mod cw_logging;
pub mod get_glue_data;
pub mod progress_tracker;
pub mod get_processing_job;
pub mod manage_iam;
pub mod text;

verus! {

/// Fixed name under which every run's role, instance profile, log group and
/// resource tags are created; only one job's identity exists at a time.
pub const PROJECT_NAME: &'static str = "SynthTable";

} // verus!
