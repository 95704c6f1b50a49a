use legeo::job::{backoff_delay, CopyJob, JobSummary, BACKOFF_BASE_MS, BACKOFF_MAX_MS};
use legeo::message::{DbFault, IoFault, MailboxFault, TileError};

fn job() -> CopyJob {
    CopyJob {
        minzoom: 0,
        maxzoom: 22,
        concurrency: 4,
        retry: 2,
        timeout: Some(5000),
        part: None,
        max_failures: None,
    }
}

#[test]
fn job_validity() {
    assert!(job().is_valid());
    assert!(CopyJob { minzoom: 22, ..job() }.is_valid());
    assert!(!CopyJob { minzoom: 23, ..job() }.is_valid());
    assert!(!CopyJob { concurrency: 0, ..job() }.is_valid());
    assert!(CopyJob { concurrency: 1, ..job() }.is_valid());
    assert!(CopyJob { part: Some((0, 1)), ..job() }.is_valid());
    assert!(CopyJob { part: Some((3, 4)), ..job() }.is_valid());
    assert!(!CopyJob { part: Some((4, 4)), ..job() }.is_valid());
    assert!(!CopyJob { part: Some((0, 0)), ..job() }.is_valid());
    assert!(CopyJob { retry: 0, timeout: None, ..job() }.is_valid());
}

#[test]
fn job_takes_the_tiles_of_its_part() {
    let whole = job();
    assert!(whole.takes(0));
    assert!(whole.takes(u128::MAX));
    let part = CopyJob { part: Some((1, 4)), ..job() };
    assert!(!part.takes(0));
    assert!(part.takes(1));
    assert!(!part.takes(2));
    assert!(!part.takes(3));
    assert!(!part.takes(4));
    assert!(part.takes(5));
    assert!(part.takes((1u128 << 72) + 1));
    let only = CopyJob { part: Some((0, 1)), ..job() };
    assert!(only.takes(0));
    assert!(only.takes(17));
}

#[test]
fn job_threshold() {
    assert!(!job().gives_up_at(0));
    assert!(!job().gives_up_at(u128::MAX));
    let strict = CopyJob { max_failures: Some(0), ..job() };
    assert!(!strict.gives_up_at(0));
    assert!(strict.gives_up_at(1));
    let lax = CopyJob { max_failures: Some(10), ..job() };
    assert!(!lax.gives_up_at(10));
    assert!(lax.gives_up_at(11));
}

#[test]
fn backoff_doubles_up_to_its_limit() {
    assert_eq!(BACKOFF_BASE_MS, 100);
    assert_eq!(BACKOFF_MAX_MS, 60_000);
    assert_eq!(backoff_delay(0), 100);
    assert_eq!(backoff_delay(1), 100);
    assert_eq!(backoff_delay(2), 200);
    assert_eq!(backoff_delay(3), 400);
    assert_eq!(backoff_delay(4), 800);
    assert_eq!(backoff_delay(9), 25_600);
    assert_eq!(backoff_delay(10), 51_200);
    assert_eq!(backoff_delay(11), 60_000);
    assert_eq!(backoff_delay(12), 60_000);
    assert_eq!(backoff_delay(u32::MAX), 60_000);
}

#[test]
fn exit_code_is_zero_within_tolerance() {
    let clean =
        JobSummary { copied: 9, skipped_not_found: 3, failed: 0, retried: 4, elapsed_ms: 1 };
    assert_eq!(clean.exit_code(0), 0);
    let some = JobSummary { failed: 2, ..clean };
    assert_eq!(some.exit_code(0), 1);
    assert_eq!(some.exit_code(1), 1);
    assert_eq!(some.exit_code(2), 0);
    assert_eq!(some.exit_code(3), 0);
}

#[test]
fn faults_that_are_repeated() {
    assert!(TileError::TransientIO.is_retryable());
    assert!(TileError::Timeout.is_retryable());
    assert!(!TileError::NotFound.is_retryable());
    assert!(!TileError::PermanentIO.is_retryable());
}

#[test]
fn faults_of_the_operating_system() {
    assert_eq!(TileError::from_fault(IoFault::NotFound), TileError::NotFound);
    assert_eq!(TileError::from_fault(IoFault::TimedOut), TileError::Timeout);
    assert_eq!(TileError::from_fault(IoFault::Interrupted), TileError::TransientIO);
    assert_eq!(TileError::from_fault(IoFault::WouldBlock), TileError::TransientIO);
    assert_eq!(TileError::from_fault(IoFault::Other), TileError::PermanentIO);
}

#[test]
fn faults_of_a_database() {
    assert_eq!(TileError::from_db_fault(DbFault::NoRows), TileError::NotFound);
    assert_eq!(TileError::from_db_fault(DbFault::Busy), TileError::TransientIO);
    assert_eq!(TileError::from_db_fault(DbFault::Locked), TileError::TransientIO);
    assert_eq!(TileError::from_db_fault(DbFault::Other), TileError::PermanentIO);
}

#[test]
fn faults_of_a_mailbox() {
    assert_eq!(TileError::from_mailbox_fault(MailboxFault::TimedOut), TileError::Timeout);
    assert_eq!(TileError::from_mailbox_fault(MailboxFault::Closed), TileError::PermanentIO);
}
