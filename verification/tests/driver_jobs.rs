use wadup::driver::{failed_file_results, fresh_distinct_ids, ids_all_distinct, plan_jobs};
use wadup::job::{fuel_used, job_outcome, job_result_error, job_result_success};

#[test]
fn fresh_ids_are_distinct() {
    let ids = fresh_distinct_ids(50).unwrap();
    assert_eq!(ids.len(), 50);
    for a in 0..ids.len() {
        for b in (a + 1)..ids.len() {
            assert_ne!(ids[a], ids[b]);
        }
    }
}

#[test]
fn planned_file_jobs_cover_every_module_once() {
    let modules = vec!["a.wasm".to_string(), "b.wasm".to_string(), "c.wasm".to_string()];
    let ids = fresh_distinct_ids(modules.len()).unwrap();
    let path = "input/one.bin".to_string();
    let infos = plan_jobs(&modules, &ids, Some(&path));
    assert_eq!(infos.len(), 3);
    for (k, info) in infos.iter().enumerate() {
        // each id appears in exactly one announcement of the batch
        assert_eq!(info.id, ids[k]);
        assert_eq!(info.module_name, modules[k]);
        assert_eq!(info.file_path.as_deref(), Some("input/one.bin"));
    }
}

#[test]
fn planned_carve_jobs_have_no_file_path() {
    let modules = vec!["a.wasm".to_string(), "b.wasm".to_string()];
    let ids = vec![11u128, 22u128];
    let infos = plan_jobs(&modules, &ids, None);
    assert_eq!(infos.len(), 2);
    assert!(infos.iter().all(|i| i.file_path.is_none()));
    assert_eq!(infos[0].id, 11);
    assert_eq!(infos[1].id, 22);
}

#[test]
fn failed_file_answers_every_announcement() {
    let modules = vec!["a.wasm".to_string(), "b.wasm".to_string()];
    let ids = vec![1u128, 2u128];
    let infos = plan_jobs(&modules, &ids, None);
    let error = "file larger than maximum mapped memory".to_string();
    let results = failed_file_results(&infos, &error);
    assert_eq!(results.len(), infos.len());
    for (k, r) in results.iter().enumerate() {
        assert_eq!(r.id, infos[k].id);
        assert!(r.message.is_none());
        assert_eq!(r.error.as_deref(), Some(error.as_str()));
    }
}

#[test]
fn job_results_carry_exactly_one_outcome() {
    let ok = job_result_success(5, "done".to_string());
    assert_eq!(ok.id, 5);
    assert_eq!(ok.message.as_deref(), Some("done"));
    assert!(ok.error.is_none());
    let bad = job_result_error(6, "fuel exhausted: all fuel consumed".to_string());
    assert_eq!(bad.id, 6);
    assert!(bad.message.is_none());
    // a failed job reports a non-empty error text
    assert!(!bad.error.as_deref().unwrap().is_empty());
}

#[test]
fn distinctness_check_decides_exactly() {
    assert!(ids_all_distinct(&vec![]));
    assert!(ids_all_distinct(&vec![7u128]));
    assert!(ids_all_distinct(&vec![1u128, 2, 3]));
    assert!(!ids_all_distinct(&vec![1u128, 2, 1]));
    assert!(!ids_all_distinct(&vec![5u128, 5]));
}

#[test]
fn a_trap_fails_the_job() {
    // fuel exhaustion (or any other sandbox trap) must come back as a
    // failed result carrying the trap's description
    let r = job_outcome(9, Some("all fuel consumed by WebAssembly".to_string()), "unused".to_string());
    assert_eq!(r.id, 9);
    assert!(r.message.is_none());
    let text = r.error.expect("a trap must populate the error");
    assert!(!text.is_empty());
    assert!(text.contains("fuel"));
}

#[test]
fn a_normal_return_succeeds_with_the_report() {
    let r = job_outcome(10, None, "memory used: 0, table used: 0, fuel used: 17".to_string());
    assert_eq!(r.id, 10);
    assert!(r.error.is_none());
    assert_eq!(r.message.as_deref(), Some("memory used: 0, table used: 0, fuel used: 17"));
}

#[test]
fn fuel_used_is_budget_minus_remainder() {
    assert_eq!(fuel_used(10_000, 9_000), 1_000);
    assert_eq!(fuel_used(10_000, 0), 10_000);
    assert_eq!(fuel_used(5, 5), 0);
}
