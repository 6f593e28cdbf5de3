//! The canonical representation of one executed CI job.

use vstd::prelude::*;

verus! {

/// One observed execution of a named CI job: which workflow it belongs to,
/// its name within that workflow, and its wall-clock runtime in whole
/// seconds. A job with no completed runtime must not appear in an input
/// collection: absence, not zero, signals "not run".
#[derive(Clone, Debug, PartialEq, Eq)]
pub struct JobRecord {
    pub workflow_name: String,
    pub job_name: String,
    pub duration_seconds: u64,
}

/// Mathematical model of a `JobRecord`.
#[verifier::ext_equal]
pub ghost struct JobRecordView {
    pub workflow_name: Seq<char>,
    pub job_name: Seq<char>,
    pub duration_seconds: u64,
}

impl View for JobRecord {
    type V = JobRecordView;

    open spec fn view(&self) -> JobRecordView {
        JobRecordView {
            workflow_name: self.workflow_name@,
            job_name: self.job_name@,
            duration_seconds: self.duration_seconds,
        }
    }
}

impl JobRecord {
    /// Builds a record from its parts.
    pub fn new(workflow_name: String, job_name: String, duration_seconds: u64) -> (r: JobRecord)
        ensures
            r@.workflow_name == workflow_name@,
            r@.job_name == job_name@,
            r@.duration_seconds == duration_seconds,
    {
        JobRecord { workflow_name, job_name, duration_seconds }
    }
}

} // verus!
