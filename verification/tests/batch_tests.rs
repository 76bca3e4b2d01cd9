use deepboot::actions::{handle_action, BackendKind};
use deepboot::batch::{ActionOutcome, BatchProcessor, BatchResult};
use deepboot::models::{Action, ActionFailure, ErrorKind, StartupEntry, StartupSource};

fn entry(name: &str) -> StartupEntry {
    StartupEntry::new(
        name.to_string(),
        format!("{}.exe", name),
        StartupSource::RegistryRun,
        true,
    )
}

fn failure(msg: &str) -> ActionFailure {
    ActionFailure { kind: ErrorKind::BackendUnavailable, message: msg.to_string() }
}

#[test]
fn batch_attempts_every_entry() {
    let entries = vec![entry("One"), entry("Two"), entry("Three")];
    let outcomes: Vec<ActionOutcome> =
        vec![Err(failure("boom1")), Ok(()), Err(failure("boom3"))];
    let result = BatchProcessor::new(None).process_batch(&entries, Action::Disable, &outcomes);
    assert_eq!(result.total, 3);
    assert_eq!(result.success, 1);
    assert_eq!(result.failed, 2);
    assert_eq!(result.errors, vec!["One: boom1".to_string(), "Three: boom3".to_string()]);
}

#[test]
fn empty_batch_has_no_division_by_zero() {
    let result = BatchResult { total: 0, success: 0, failed: 0, errors: vec![] };
    assert_eq!(result.success_rate_tenths(), 0);
}

#[test]
fn success_rate_rounds_to_tenths() {
    let result = BatchResult { total: 3, success: 1, failed: 2, errors: vec![] };
    // one third, on the tenths-of-a-percent scale: 33.33..% -> 333
    assert_eq!(result.success_rate_tenths(), 333);
    // two thirds round up: 66.66..% -> 667
    let high = BatchResult { total: 3, success: 2, failed: 1, errors: vec![] };
    assert_eq!(high.success_rate_tenths(), 667);
    let full = BatchResult { total: 4, success: 4, failed: 0, errors: vec![] };
    assert_eq!(full.success_rate_tenths(), 1000);
}

#[test]
fn summary_reads_as_shown() {
    let result = BatchResult { total: 2, success: 1, failed: 1, errors: vec![] };
    assert_eq!(
        result.summary(),
        "Batch operation completed: 1 successful, 1 failed out of 2 total (50.0% success rate)"
    );
}

#[test]
fn enable_is_always_rejected() {
    let entries = vec![entry("Anything")];
    let result = BatchProcessor::new(None).process_batch(&entries, Action::Enable, &vec![]);
    assert_eq!(result.total, 1);
    assert_eq!(result.success, 0);
    assert_eq!(result.failed, 1);
    assert_eq!(result.errors, vec!["Anything: Enable action not yet implemented".to_string()]);
    match handle_action(&entries[0], Action::Enable) {
        Err(f) => {
            assert_eq!(f.kind, ErrorKind::NotSupported);
            assert_eq!(f.message, "Enable action not yet implemented");
        },
        Ok(_) => panic!("enable must be rejected"),
    }
}

#[test]
fn dispatch_picks_the_owning_backend() {
    let task = StartupEntry::new("t".into(), "c".into(), StartupSource::TaskScheduler, true);
    let service = StartupEntry::new("s".into(), "c".into(), StartupSource::Service, true);
    let run = StartupEntry::new("r".into(), "c".into(), StartupSource::RegistryRunOnce, true);
    let q = handle_action(&task, Action::Disable).unwrap();
    assert_eq!(q.backend, BackendKind::TaskScheduler);
    assert_eq!(q.action, Action::Disable);
    let q = handle_action(&service, Action::Remove).unwrap();
    assert_eq!(q.backend, BackendKind::Service);
    let q = handle_action(&run, Action::Remove).unwrap();
    assert_eq!(q.backend, BackendKind::Registry);
}

#[test]
fn all_success_batch() {
    let entries = vec![entry("A"), entry("B")];
    let outcomes: Vec<ActionOutcome> = vec![Ok(()), Ok(())];
    let result = BatchProcessor::new(None).process_batch(&entries, Action::Remove, &outcomes);
    assert_eq!(result.total, 2);
    assert_eq!(result.success, 2);
    assert_eq!(result.failed, 0);
    assert!(result.errors.is_empty());
    assert_eq!(
        result.summary(),
        "Batch operation completed: 2 successful, 0 failed out of 2 total (100.0% success rate)"
    );
}
