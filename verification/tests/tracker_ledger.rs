use wadup::job::{JobInfo, JobResult, JobTracking};
use wadup::ledger::{AdmissionLedger, AdmitDecision};
use wadup::tracker::Tracker;

fn announce(id: u128) -> JobTracking {
    JobTracking::JobInfo(JobInfo { id, module_name: "m.wasm".to_string(), file_path: None })
}

fn result(id: u128) -> JobTracking {
    JobTracking::JobResult(JobResult { id, message: None, error: None })
}

#[test]
fn empty_world_never_signals_shutdown() {
    // no announcement ever arrives: the quiescence rule must not fire,
    // the pool winds down by channel closure instead
    let mut t = Tracker::new();
    assert_eq!(t.outstanding_count(), 0);
    assert!(!t.on_event(&result(1)));
    assert!(!t.on_event(&result(2)));
    assert_eq!(t.outstanding_count(), 0);
}

#[test]
fn single_job_shuts_down_after_its_result() {
    let mut t = Tracker::new();
    assert!(!t.on_event(&announce(7)));
    assert_eq!(t.outstanding_count(), 1);
    assert!(t.on_event(&result(7)));
    assert_eq!(t.outstanding_count(), 0);
}

#[test]
fn carve_fan_out_shuts_down_only_when_all_jobs_resulted() {
    // two initial jobs; the first spawns two more (announced before its
    // own result arrives); total four jobs, shutdown at the last result
    let mut t = Tracker::new();
    assert!(!t.on_event(&announce(1)));
    assert!(!t.on_event(&announce(2)));
    assert!(!t.on_event(&announce(3)));
    assert!(!t.on_event(&announce(4)));
    assert_eq!(t.outstanding_count(), 4);
    assert!(!t.on_event(&result(1)));
    assert!(!t.on_event(&result(3)));
    assert!(!t.on_event(&result(4)));
    assert!(t.on_event(&result(2)));
}

#[test]
fn duplicate_announce_counts_once() {
    let mut t = Tracker::new();
    assert!(!t.on_event(&announce(9)));
    assert!(!t.on_event(&announce(9)));
    assert_eq!(t.outstanding_count(), 1);
    assert!(t.on_event(&result(9)));
}

#[test]
fn result_for_unknown_id_does_not_disturb_others() {
    let mut t = Tracker::new();
    assert!(!t.on_event(&announce(1)));
    assert!(!t.on_event(&announce(2)));
    // a result for an id never announced removes nothing
    assert!(!t.on_event(&result(99)));
    assert_eq!(t.outstanding_count(), 2);
    assert!(!t.on_event(&result(1)));
    assert!(t.on_event(&result(2)));
}

#[test]
fn ledger_admission_and_release_balance() {
    let mut l = AdmissionLedger::new(100);
    let t1 = match l.try_admit(60) {
        AdmitDecision::Admitted(t) => t,
        _ => panic!("expected admission"),
    };
    assert_eq!(t1.bytes(), 60);
    assert_eq!(l.mapped_bytes(), 60);
    // every admission is matched by exactly one release of the same bytes
    l.release(t1);
    assert_eq!(l.mapped_bytes(), 0);
}

#[test]
fn ledger_rejects_file_larger_than_budget() {
    let mut l = AdmissionLedger::new(8);
    assert!(matches!(l.try_admit(9), AdmitDecision::TooLarge));
    assert_eq!(l.mapped_bytes(), 0);
}

#[test]
fn ledger_back_pressure_scenario() {
    // budget 8, three files of 5 bytes each: the second admission must
    // wait until the first file's bytes are released
    let mut l = AdmissionLedger::new(8);
    let t1 = match l.try_admit(5) {
        AdmitDecision::Admitted(t) => t,
        _ => panic!("expected admission"),
    };
    assert_eq!(l.mapped_bytes(), 5);
    assert!(matches!(l.try_admit(5), AdmitDecision::MustWait));
    assert!(l.mapped_bytes() <= 8);
    l.release(t1);
    let t2 = match l.try_admit(5) {
        AdmitDecision::Admitted(t) => t,
        _ => panic!("expected admission"),
    };
    assert_eq!(l.mapped_bytes(), 5);
    assert!(matches!(l.try_admit(5), AdmitDecision::MustWait));
    l.release(t2);
    let t3 = match l.try_admit(5) {
        AdmitDecision::Admitted(t) => t,
        _ => panic!("expected admission"),
    };
    assert!(l.mapped_bytes() <= 8);
    l.release(t3);
    assert_eq!(l.mapped_bytes(), 0);
}
