use kanaeru::cron::{cron_one_go, should_run, JobCompleteSignal, JobResult, OneGoScheduledJob};
use kanaeru::error::Error;
use kanaeru::processor::Processor;

#[derive(Debug, Clone, PartialEq, Eq)]
struct SweepJob {
    batch: u32,
}

struct SweepScanner {
    due: bool,
}

impl Processor<time::PrimitiveDateTime, Result<SweepJob, Error>> for SweepScanner {
    fn process(&self, _now: time::PrimitiveDateTime) -> Result<SweepJob, Error> {
        if self.due {
            Ok(SweepJob { batch: 3 })
        } else {
            Err(Error::NotFound)
        }
    }
}

struct SweepExecutor;

impl Processor<SweepJob, JobResult<()>> for SweepExecutor {
    fn process(&self, job: SweepJob) -> JobResult<()> {
        if job.batch > 0 {
            Ok(JobCompleteSignal { id: (), complete_time: noon() })
        } else {
            Err(Error::InvalidInput)
        }
    }
}

impl OneGoScheduledJob for SweepJob {
    type Executor = SweepExecutor;
    type Scanner = SweepScanner;

    fn clock_loops() -> u64 {
        3
    }
}

fn noon() -> time::PrimitiveDateTime {
    time::Date::from_calendar_date(2024, time::Month::January, 2)
        .unwrap()
        .with_hms(12, 0, 0)
        .unwrap()
}

#[test]
fn tick_runs_scan_then_execute() {
    let r = cron_one_go::<SweepJob>(&SweepScanner { due: true }, &SweepExecutor, noon());
    assert!(r.is_ok());
}

#[test]
fn scan_failure_fails_the_tick() {
    let r = cron_one_go::<SweepJob>(&SweepScanner { due: false }, &SweepExecutor, noon());
    assert!(matches!(r, Err(Error::NotFound)));
}

#[test]
fn should_run_selects_every_nth_tick() {
    assert!(should_run(0, SweepJob::clock_loops()));
    assert!(!should_run(1, SweepJob::clock_loops()));
    assert!(!should_run(2, SweepJob::clock_loops()));
    assert!(should_run(3, SweepJob::clock_loops()));
    assert!(should_run(0, 1));
    assert!(should_run(17, 1));
}
