//! Batch processing: job kinds and statuses with their stored names, job
//! records, the retry policy, and the scheduler's decisions. The job queue
//! itself lives in the database and is driven by the caller.
use vstd::prelude::*;
use vstd::string::StringExecFns;

use crate::clock::UtcTime;
use crate::retry::{backoff, backoff_secs, two_pow};
use crate::text::concat2;

verus! {

/// Settings of the batch service.
#[derive(Clone, Debug)]
pub struct BatchProcessingConfig {
    /// Most items one batch processes.
    pub batch_size: usize,
    pub database_url: String,
    /// Retries before a job fails for good.
    pub max_retries: u32,
    /// Delay before the first retry, in seconds.
    pub retry_delay_secs: u64,
    pub enable_archival: bool,
    /// Cron schedule of the archival job.
    pub archival_schedule: String,
    pub enable_cleanup: bool,
    pub cleanup_schedule: String,
    pub enable_stats_aggregation: bool,
    pub stats_aggregation_schedule: String,
    /// Records older than this many days are archived.
    pub archival_retention_days: i32,
    /// Finished jobs older than this many days are removed.
    pub cleanup_retention_days: i32,
}

impl Default for BatchProcessingConfig {
    fn default() -> (c: Self)
        ensures
            c.batch_size == 1000,
            c.database_url@ == "postgresql://localhost/batch_processing"@,
            c.max_retries == 3,
            c.retry_delay_secs == 60,
            c.enable_archival,
            c.archival_schedule@ == "0 2 * * *"@,
            c.enable_cleanup,
            c.cleanup_schedule@ == "0 3 * * *"@,
            c.enable_stats_aggregation,
            c.stats_aggregation_schedule@ == "0 * * * *"@,
            c.archival_retention_days == 90,
            c.cleanup_retention_days == 30,
    {
        BatchProcessingConfig {
            batch_size: 1000,
            database_url: String::from_str("postgresql://localhost/batch_processing"),
            max_retries: 3,
            retry_delay_secs: 60,
            enable_archival: true,
            archival_schedule: String::from_str("0 2 * * *"),
            enable_cleanup: true,
            cleanup_schedule: String::from_str("0 3 * * *"),
            enable_stats_aggregation: true,
            stats_aggregation_schedule: String::from_str("0 * * * *"),
            archival_retention_days: 90,
            cleanup_retention_days: 30,
        }
    }
}

impl BatchProcessingConfig {
    /// Seconds to wait before retry number `attempt`: the base delay
    /// doubled `attempt` times.
    pub fn get_retry_delay(&self, attempt: u32) -> (r: u64)
        requires
            two_pow(attempt as nat) <= u64::MAX,
            backoff(self.retry_delay_secs, attempt) <= u64::MAX,
        ensures
            r == backoff(self.retry_delay_secs, attempt),
    {
        backoff_secs(self.retry_delay_secs, attempt)
    }

    /// The status a failed job takes after attempt number `attempt`:
    /// retried while attempts remain, failed for good after that.
    pub fn status_after_failure(&self, attempt: u32) -> (r: JobStatus)
        ensures
            r == (if attempt < self.max_retries { JobStatus::Retrying } else { JobStatus::Failed }),
    {
        if attempt < self.max_retries {
            JobStatus::Retrying
        } else {
            JobStatus::Failed
        }
    }

    /// The recurring jobs the scheduler starts, in this order: archival,
    /// cleanup, stats aggregation, each when enabled.
    pub fn scheduled_jobs(&self) -> (r: Vec<JobType>)
        ensures
            r@ == enabled_jobs(*self),
    {
        let mut r: Vec<JobType> = Vec::new();
        if self.enable_archival {
            r.push(JobType::Archival);
        }
        if self.enable_cleanup {
            r.push(JobType::Cleanup);
        }
        if self.enable_stats_aggregation {
            r.push(JobType::StatsAggregation);
        }
        r
    }
}

/// The jobs that the configuration enables, in scheduling order.
pub open spec fn enabled_jobs(c: BatchProcessingConfig) -> Seq<JobType> {
    (if c.enable_archival { seq![JobType::Archival] } else { Seq::empty() }) + (if c.enable_cleanup {
        seq![JobType::Cleanup]
    } else {
        Seq::empty()
    }) + (if c.enable_stats_aggregation {
        seq![JobType::StatsAggregation]
    } else {
        Seq::empty()
    })
}

/// Errors of the batch service.
#[derive(Debug, Clone, PartialEq, Eq)]
pub enum Error {
    /// The database refused; its message.
    DatabaseError(String),
    JobNotFound(String),
    InvalidJobType(String),
    JobFailed(String),
    ExecutionError(String),
    ConfigurationError(String),
    SchedulingError(String),
    /// JSON could not be read or written; its message.
    SerializationError(String),
    InternalError(String),
}

/// The message of an error.
pub open spec fn error_message(e: Error) -> Seq<char> {
    match e {
        Error::DatabaseError(m) => "Database error: "@ + m@,
        Error::JobNotFound(m) => "Job not found: "@ + m@,
        Error::InvalidJobType(m) => "Invalid job type: "@ + m@,
        Error::JobFailed(m) => "Job failed: "@ + m@,
        Error::ExecutionError(m) => "Job execution error: "@ + m@,
        Error::ConfigurationError(m) => "Configuration error: "@ + m@,
        Error::SchedulingError(m) => "Scheduling error: "@ + m@,
        Error::SerializationError(m) => "Serialization error: "@ + m@,
        Error::InternalError(m) => "Internal error: "@ + m@,
    }
}

impl Error {
    /// The error's message.
    pub fn to_string(&self) -> (r: String)
        ensures
            r@ == error_message(*self),
    {
        match self {
            Error::DatabaseError(m) => concat2("Database error: ", m.as_str()),
            Error::JobNotFound(m) => concat2("Job not found: ", m.as_str()),
            Error::InvalidJobType(m) => concat2("Invalid job type: ", m.as_str()),
            Error::JobFailed(m) => concat2("Job failed: ", m.as_str()),
            Error::ExecutionError(m) => concat2("Job execution error: ", m.as_str()),
            Error::ConfigurationError(m) => concat2("Configuration error: ", m.as_str()),
            Error::SchedulingError(m) => concat2("Scheduling error: ", m.as_str()),
            Error::SerializationError(m) => concat2("Serialization error: ", m.as_str()),
            Error::InternalError(m) => concat2("Internal error: ", m.as_str()),
        }
    }
}

/// Kinds of batch jobs.
#[derive(Clone, Copy, Debug, Eq, PartialEq, Structural)]
pub enum JobType {
    Archival,
    Cleanup,
    StatsAggregation,
}

/// The stored name of a job kind.
pub open spec fn job_type_name(t: JobType) -> Seq<char> {
    match t {
        JobType::Archival => "archival"@,
        JobType::Cleanup => "cleanup"@,
        JobType::StatsAggregation => "stats_aggregation"@,
    }
}

impl JobType {
    /// The stored name of the job kind.
    pub fn as_str(&self) -> (r: &'static str)
        ensures
            r@ == job_type_name(*self),
    {
        match self {
            JobType::Archival => "archival",
            JobType::Cleanup => "cleanup",
            JobType::StatsAggregation => "stats_aggregation",
        }
    }

    /// The stored name, as a `String`.
    pub fn to_string(&self) -> (r: String)
        ensures
            r@ == job_type_name(*self),
    {
        String::from_str(self.as_str())
    }

    /// The job kind with stored name `s`.
    pub fn from_str(s: &str) -> (r: Result<JobType, Error>)
        ensures
            match r {
                Ok(t) => job_type_name(t) == s@,
                Err(e) => (forall|t: JobType| job_type_name(t) != s@) && (e matches Error::InvalidJobType(
                    m,
                ) && m@ == s@),
            },
    {
        if crate::table::str_eq(s, "archival") {
            Ok(JobType::Archival)
        } else if crate::table::str_eq(s, "cleanup") {
            Ok(JobType::Cleanup)
        } else if crate::table::str_eq(s, "stats_aggregation") {
            Ok(JobType::StatsAggregation)
        } else {
            proof {
                assert forall|t: JobType| job_type_name(t) != s@ by {
                    match t {
                        JobType::Archival => {},
                        JobType::Cleanup => {},
                        JobType::StatsAggregation => {},
                    }
                }
            }
            Err(Error::InvalidJobType(String::from_str(s)))
        }
    }
}

/// Execution status of a job.
#[derive(Clone, Copy, Debug, Eq, PartialEq, Structural)]
pub enum JobStatus {
    Pending,
    Running,
    Completed,
    Failed,
    Retrying,
    Cancelled,
}

/// The stored name of a status.
pub open spec fn job_status_name(s: JobStatus) -> Seq<char> {
    match s {
        JobStatus::Pending => "pending"@,
        JobStatus::Running => "running"@,
        JobStatus::Completed => "completed"@,
        JobStatus::Failed => "failed"@,
        JobStatus::Retrying => "retrying"@,
        JobStatus::Cancelled => "cancelled"@,
    }
}

/// Completed, failed and cancelled jobs are finished.
pub open spec fn job_status_final(s: JobStatus) -> bool {
    s == JobStatus::Completed || s == JobStatus::Failed || s == JobStatus::Cancelled
}

impl JobStatus {
    /// The stored name of the status.
    pub fn as_str(&self) -> (r: &'static str)
        ensures
            r@ == job_status_name(*self),
    {
        match self {
            JobStatus::Pending => "pending",
            JobStatus::Running => "running",
            JobStatus::Completed => "completed",
            JobStatus::Failed => "failed",
            JobStatus::Retrying => "retrying",
            JobStatus::Cancelled => "cancelled",
        }
    }

    /// The job is finished.
    pub fn is_final(&self) -> (r: bool)
        ensures
            r == job_status_final(*self),
    {
        match self {
            JobStatus::Completed | JobStatus::Failed | JobStatus::Cancelled => true,
            _ => false,
        }
    }

    /// The stored name, as a `String`.
    pub fn to_string(&self) -> (r: String)
        ensures
            r@ == job_status_name(*self),
    {
        String::from_str(self.as_str())
    }

    /// The status with stored name `s`; an unknown name is reported as an
    /// invalid job type.
    pub fn from_str(s: &str) -> (r: Result<JobStatus, Error>)
        ensures
            match r {
                Ok(t) => job_status_name(t) == s@,
                Err(e) => (forall|t: JobStatus| job_status_name(t) != s@) && (e matches Error::InvalidJobType(
                    m,
                ) && m@ == s@),
            },
    {
        if crate::table::str_eq(s, "pending") {
            Ok(JobStatus::Pending)
        } else if crate::table::str_eq(s, "running") {
            Ok(JobStatus::Running)
        } else if crate::table::str_eq(s, "completed") {
            Ok(JobStatus::Completed)
        } else if crate::table::str_eq(s, "failed") {
            Ok(JobStatus::Failed)
        } else if crate::table::str_eq(s, "retrying") {
            Ok(JobStatus::Retrying)
        } else if crate::table::str_eq(s, "cancelled") {
            Ok(JobStatus::Cancelled)
        } else {
            proof {
                assert forall|t: JobStatus| job_status_name(t) != s@ by {
                    match t {
                        JobStatus::Pending => {},
                        JobStatus::Running => {},
                        JobStatus::Completed => {},
                        JobStatus::Failed => {},
                        JobStatus::Retrying => {},
                        JobStatus::Cancelled => {},
                    }
                }
            }
            Err(Error::InvalidJobType(String::from_str(s)))
        }
    }
}

/// Status record of one execution of a job. Times are UTC instants.
#[derive(Clone, Debug)]
pub struct JobStatusRecord {
    pub job_id: String,
    pub status: JobStatus,
    pub attempt: u32,
    pub items_processed: usize,
    pub error_message: Option<String>,
    pub started_at: Option<UtcTime>,
    pub completed_at: Option<UtcTime>,
    pub next_retry_at: Option<UtcTime>,
}

impl JobStatusRecord {
    /// A pending job that has not run yet.
    pub fn new(job_id: String) -> (r: Self)
        ensures
            r.job_id == job_id,
            r.status == JobStatus::Pending,
            r.attempt == 0,
            r.items_processed == 0,
            r.error_message is None,
            r.started_at is None && r.completed_at is None && r.next_retry_at is None,
    {
        JobStatusRecord {
            job_id,
            status: JobStatus::Pending,
            attempt: 0,
            items_processed: 0,
            error_message: None,
            started_at: None,
            completed_at: None,
            next_retry_at: None,
        }
    }
}

/// A batch job. Its parameters are a JSON document, kept as text.
#[derive(Clone, Debug)]
pub struct BatchJob {
    /// A random UUID.
    pub id: String,
    pub job_type: JobType,
    pub batch_size: usize,
    /// Parameters, as JSON text.
    pub parameters: String,
    pub items_processed: usize,
    pub total_items: Option<usize>,
}

impl BatchJob {
    /// A new job of kind `job_type`, with no parameters (`{}`).
    pub fn new(job_type: JobType, batch_size: usize) -> (r: Self)
        ensures
            r.id@.len() == 36,
            r.job_type == job_type,
            r.batch_size == batch_size,
            r.parameters@ == "{}"@,
            r.items_processed == 0,
            r.total_items is None,
    {
        BatchJob {
            id: crate::clock::new_uuid(),
            job_type,
            batch_size,
            parameters: String::from_str("{}"),
            items_processed: 0,
            total_items: None,
        }
    }

    /// A new job of kind `job_type` with the JSON `parameters`.
    pub fn with_parameters(job_type: JobType, batch_size: usize, parameters: String) -> (r: Self)
        ensures
            r.id@.len() == 36,
            r.job_type == job_type,
            r.batch_size == batch_size,
            r.parameters == parameters,
            r.items_processed == 0,
            r.total_items is None,
    {
        BatchJob {
            id: crate::clock::new_uuid(),
            job_type,
            batch_size,
            parameters,
            items_processed: 0,
            total_items: None,
        }
    }
}

/// What starting the scheduler does: refused while it runs, otherwise it
/// runs from then on.
pub fn start_scheduler(running: bool) -> (r: Result<bool, Error>)
    ensures
        running ==> (r matches Err(Error::SchedulingError(m)) && m@ == "Scheduler is already running"@),
        !running ==> r == Ok::<bool, Error>(true),
{
    if running {
        return Err(Error::SchedulingError(String::from_str("Scheduler is already running")));
    }
    Ok(true)
}

/// A failed job is retried exactly while it has attempts left: after
/// `max_retries` attempts it fails for good, and a failed job is finished
/// whereas a retrying one is not.
pub proof fn law_retry_until_exhausted(c: BatchProcessingConfig, attempt: u32)
    ensures
        attempt < c.max_retries ==> !job_status_final(JobStatus::Retrying),
        attempt >= c.max_retries ==> job_status_final(JobStatus::Failed),
{
}

/// Names round-trip: every status and job kind reads back from its stored
/// name, and no two share a name.
pub proof fn law_names_round_trip(a: JobStatus, b: JobStatus, s: JobType, t: JobType)
    ensures
        job_status_name(a) == job_status_name(b) ==> a == b,
        job_type_name(s) == job_type_name(t) ==> s == t,
{
    reveal_strlit("pending");
    reveal_strlit("running");
    reveal_strlit("completed");
    reveal_strlit("failed");
    reveal_strlit("retrying");
    reveal_strlit("cancelled");
    reveal_strlit("archival");
    reveal_strlit("cleanup");
    reveal_strlit("stats_aggregation");
    if job_status_name(a) == job_status_name(b) {
        assert(job_status_name(a)[0] == job_status_name(b)[0]);
        assert(job_status_name(a)[1] == job_status_name(b)[1]);
    }
    if job_type_name(s) == job_type_name(t) {
        assert(job_type_name(s)[0] == job_type_name(t)[0]);
    }
}

} // verus!
