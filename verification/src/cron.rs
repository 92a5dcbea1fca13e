//! The one-shot scheduler: a scan stage that turns the current timestamp
//! into a job description, and an execute stage that turns the job into a
//! completion signal. One tick runs scan then execute, once, synchronously
//! relative to its caller; the decision to invoke a tick at all belongs to
//! the caller of this module.

use vstd::prelude::*;
use crate::error::Error;
use crate::processor::Processor;

verus! {

/// Timestamps are carried as the `time` crate's plain date-time; the crate
/// only passes them through to the scanner.
#[verifier::external_type_specification]
#[verifier::external_body]
pub struct ExPrimitiveDateTime(time::PrimitiveDateTime);

/// Relies on the `Clone` of the date-time value, which is plain `Copy`
/// data: the clone is the same value.
pub assume_specification[ <time::PlainDateTime as Clone>::clone ](v: &time::PrimitiveDateTime) -> (r: time::PrimitiveDateTime)
    ensures
        r == *v,
;

/// What a finished job reports: its identifier and when it completed.
#[derive(Debug, Clone)]
pub struct JobCompleteSignal<Id> {
    pub id: Id,
    pub complete_time: time::PrimitiveDateTime,
}

/// Outcome of executing a job.
pub type JobResult<Id> = Result<JobCompleteSignal<Id>, Error>;

/// A job driven by the one-shot scheduler: its two pluggable stages, and
/// how many ticks of the outer clock elapse between invocations.
pub trait OneGoScheduledJob: Sized {
    /// Executes one job description.
    type Executor: Processor<Self, JobResult<()>>;

    /// Scans for due work at a timestamp.
    type Scanner: Processor<time::PrimitiveDateTime, Result<Self, Error>>;

    /// After each `clock_loops` intervals, the job is executed.
    fn clock_loops() -> u64;
}

/// Whether a tick of the outer clock is one on which the job runs: every
/// `clock_loops`-th tick. The caller makes this decision; the scheduler
/// itself only ever runs scan-then-execute once.
pub fn should_run(tick: u64, clock_loops: u64) -> (r: bool)
    requires
        1 <= clock_loops,
    ensures
        r == (tick % clock_loops == 0),
{
    tick % clock_loops == 0
}

/// One scheduling tick: run the scanner on the current timestamp and, on
/// success, run the executor on the job it produced. A failure of either
/// stage is the tick's failure.
pub fn cron_one_go<T: OneGoScheduledJob>(
    scanner: &T::Scanner,
    executor: &T::Executor,
    now: time::PrimitiveDateTime,
) -> (r: Result<(), Error>)
{
    let jobs = match scanner.process(now) {
        Ok(j) => j,
        Err(e) => {
            return Err(e);
        },
    };
    match executor.process(jobs) {
        Ok(_) => Ok(()),
        Err(e) => Err(e),
    }
}

} // verus!
