use std::sync::atomic::{AtomicBool, Ordering};
use std::sync::Arc;

use clean_files::cleaner::{is_affirmative, is_yes, Batch, Cleaner, ItemOutcome, PathState, SkipReason};
use clean_files::scanner::Markers;
use clean_files::types::{CleanStats, CleanTarget, ScanResult};

fn markers(package_json: bool, cargo_toml: bool, pom_xml: bool) -> Markers {
    Markers { package_json, cargo_toml, pom_xml, build_gradle: false, build_gradle_kts: false }
}

fn healthy(m: Markers) -> PathState {
    PathState { exists: true, is_dir: true, writable: true, has_parent: true, markers: m }
}

fn result(kind: CleanTarget, size: u64, files: usize) -> ScanResult {
    ScanResult { path: format!("/w/{}", size), target_type: kind, size, file_count: files }
}

/// Runs a batch in order, as the command does: stops at the first item for
/// which `interrupted_before` is true; `removal_ok` says how each removal went.
fn run_sequential(
    cleaner: &Cleaner,
    items: &[ScanResult],
    states: &[PathState],
    removal_ok: &[bool],
    interrupted_before: &dyn Fn(usize) -> bool,
) -> CleanStats {
    let mut batch = Batch::new(items.len());
    for (i, r) in items.iter().enumerate() {
        if interrupted_before(i) {
            break;
        }
        let removed = cleaner.should_remove(r, &states[i]) && removal_ok[i];
        let outcome = cleaner.outcome(r, &states[i], removed);
        batch.record(r, outcome);
    }
    batch.finish()
}

#[test]
fn verification_reports_each_failed_check_in_order() {
    let c = Cleaner::new(false, false);
    let r = result(CleanTarget::NodeModules, 1, 1);
    let ok = healthy(markers(true, false, false));
    assert_eq!(c.verify_before_delete(&r, &ok), Ok(()));
    let gone = PathState { exists: false, is_dir: false, writable: false, ..ok };
    assert_eq!(c.verify_before_delete(&r, &gone), Err(SkipReason::Missing));
    let file = PathState { is_dir: false, ..ok };
    assert_eq!(c.verify_before_delete(&r, &file), Err(SkipReason::NotADirectory));
    let locked = PathState { writable: false, ..ok };
    assert_eq!(c.verify_before_delete(&r, &locked), Err(SkipReason::NotWritable));
    let no_marker = healthy(markers(false, true, true));
    assert_eq!(c.verify_before_delete(&r, &no_marker), Err(SkipReason::MarkerMissing));
    let at_root = PathState { has_parent: false, ..no_marker };
    assert_eq!(c.verify_before_delete(&r, &at_root), Ok(()));
}

#[test]
fn marker_per_kind() {
    let c = Cleaner::new(false, false);
    let none = healthy(markers(false, false, false));
    let py = result(CleanTarget::PythonCache, 1, 1);
    assert_eq!(c.verify_before_delete(&py, &none), Ok(()));
    let rust = result(CleanTarget::RustTarget, 1, 1);
    assert_eq!(c.verify_before_delete(&rust, &none), Err(SkipReason::MarkerMissing));
    assert_eq!(c.verify_before_delete(&rust, &healthy(markers(false, true, false))), Ok(()));
    let java = result(CleanTarget::JavaTarget, 1, 1);
    assert_eq!(c.verify_before_delete(&java, &healthy(markers(false, true, false))), Err(SkipReason::MarkerMissing));
    assert_eq!(c.verify_before_delete(&java, &healthy(markers(false, false, true))), Ok(()));
    let gradle = Markers { build_gradle: true, ..markers(false, false, false) };
    assert_eq!(c.verify_before_delete(&java, &healthy(gradle)), Ok(()));

    let build = ScanResult {
        path: "/w/app/build".to_string(),
        target_type: CleanTarget::JavaTarget,
        size: 1,
        file_count: 1,
    };
    let pom_only = healthy(markers(false, false, true));
    assert_eq!(c.verify_before_delete(&build, &pom_only), Err(SkipReason::MarkerMissing));
    assert!(!c.should_remove(&build, &pom_only));
    assert_eq!(c.outcome(&build, &pom_only, false), ItemOutcome::Skipped);
    let kts = Markers { build_gradle_kts: true, ..markers(false, false, false) };
    assert_eq!(c.verify_before_delete(&build, &healthy(kts)), Ok(()));
    let bare = ScanResult { path: "build".to_string(), ..build.clone() };
    assert_eq!(c.verify_before_delete(&bare, &pom_only), Err(SkipReason::MarkerMissing));
    let java_target = ScanResult { path: "/w/app/target".to_string(), ..build.clone() };
    assert_eq!(c.verify_before_delete(&java_target, &pom_only), Ok(()));
    let rebuild = ScanResult { path: "/w/app/rebuild".to_string(), ..build };
    assert_eq!(c.verify_before_delete(&rebuild, &pom_only), Ok(()));
}

#[test]
fn removed_marker_means_skipped_not_failed() {
    let c = Cleaner::new(false, false);
    let r = result(CleanTarget::NodeModules, 40, 4);
    let state = healthy(markers(false, false, false));
    assert!(!c.should_remove(&r, &state));
    assert_eq!(c.outcome(&r, &state, false), ItemOutcome::Skipped);
    let stats = run_sequential(&c, &[r], &[state], &[true], &|_| false);
    assert_eq!(stats.skipped_dirs, 1);
    assert_eq!(stats.failed_dirs, 0);
    assert_eq!(stats.total_dirs, 0);
    assert_eq!(stats.total_size, 0);
}

#[test]
fn failed_removal_is_counted_as_failed() {
    let c = Cleaner::new(false, false);
    let r = result(CleanTarget::RustTarget, 40, 4);
    let state = healthy(markers(false, true, false));
    assert!(c.should_remove(&r, &state));
    assert_eq!(c.outcome(&r, &state, false), ItemOutcome::Failed);
    assert_eq!(c.outcome(&r, &state, true), ItemOutcome::Freed);
    let stats = run_sequential(&c, &[r], &[state], &[false], &|_| false);
    assert_eq!(stats.failed_dirs, 1);
    assert_eq!(stats.total_dirs, 0);
    assert_eq!(stats.skipped_dirs, 0);
}

#[test]
fn dry_run_removes_nothing_and_counts_everything() {
    let c = Cleaner::new(true, false);
    assert!(!c.inspects());
    let items = vec![
        result(CleanTarget::NodeModules, 12, 1),
        result(CleanTarget::RustTarget, 30, 3),
        result(CleanTarget::PythonCache, 8, 2),
    ];
    let gone = PathState { exists: false, ..healthy(markers(false, false, false)) };
    let states = vec![gone; 3];
    for r in &items {
        assert!(!c.should_remove(r, &gone));
        assert_eq!(c.outcome(r, &gone, false), ItemOutcome::Freed);
    }
    let stats = run_sequential(&c, &items, &states, &[true, true, true], &|_| false);
    assert_eq!(stats.total_size, 50);
    assert_eq!(stats.total_files, 6);
    assert_eq!(stats.total_dirs, 3);
    assert_eq!(stats.failed_dirs, 0);
    assert_eq!(stats.skipped_dirs, 0);
}

#[test]
fn interrupt_after_first_of_five() {
    let flag = Arc::new(AtomicBool::new(false));
    let c = Cleaner::new(false, false).with_interrupt_flag(flag.clone());
    let items: Vec<ScanResult> = (1..=5).map(|i| result(CleanTarget::PythonCache, i, 1)).collect();
    let states = vec![healthy(markers(false, false, false)); 5];
    let mut batch = Batch::new(items.len());
    for (i, r) in items.iter().enumerate() {
        if !batch.may_start(c.is_interrupted()) {
            break;
        }
        let removed = c.should_remove(r, &states[i]);
        batch.record(r, c.outcome(r, &states[i], removed));
        if i == 0 {
            flag.store(true, Ordering::SeqCst);
        }
    }
    assert_eq!(batch.processed(), 1);
    let stats = batch.finish();
    assert_eq!(stats.total_dirs, 1);
    assert_eq!(stats.skipped_dirs, 4);
    assert_eq!(stats.failed_dirs, 0);
}

#[test]
fn may_start_only_before_interrupt_and_while_items_remain() {
    let mut batch = Batch::new(1);
    assert!(batch.may_start(false));
    assert!(!batch.may_start(true));
    batch.record(&result(CleanTarget::NodeModules, 1, 1), ItemOutcome::Freed);
    assert!(!batch.may_start(false));
}

#[test]
fn every_item_is_accounted_for() {
    let c = Cleaner::new(false, false);
    let items: Vec<ScanResult> = (1..=6).map(|i| result(CleanTarget::NodeModules, i, 1)).collect();
    let good = healthy(markers(true, false, false));
    let bad = healthy(markers(false, false, false));
    let states = [good, bad, good, good, bad, good];
    let removal = [true, true, false, true, true, true];
    for stop in 0..=6 {
        let stats = run_sequential(&c, &items, &states, &removal, &|i| i >= stop);
        assert_eq!(stats.total_dirs + stats.failed_dirs + stats.skipped_dirs, 6);
    }
}

#[test]
fn order_of_outcomes_does_not_change_totals() {
    let items = vec![
        (result(CleanTarget::NodeModules, 100, 1), ItemOutcome::Freed),
        (result(CleanTarget::RustTarget, 50, 1), ItemOutcome::Freed),
        (result(CleanTarget::JavaTarget, 70, 9), ItemOutcome::Failed),
        (result(CleanTarget::PythonCache, 5, 2), ItemOutcome::Skipped),
    ];
    let mut forward = Batch::new(items.len());
    for (r, o) in &items {
        forward.record(r, *o);
    }
    let mut backward = Batch::new(items.len());
    for (r, o) in items.iter().rev() {
        backward.record(r, *o);
    }
    let a = forward.finish();
    let b = backward.finish();
    assert_eq!(a.total_size, 150);
    assert_eq!(a.total_files, 2);
    assert_eq!(a.total_dirs, 2);
    assert_eq!((a.total_size, a.total_files, a.total_dirs), (b.total_size, b.total_files, b.total_dirs));
    assert_eq!((a.node_modules, a.rust_targets, a.python_caches, a.java_targets), (b.node_modules, b.rust_targets, b.python_caches, b.java_targets));
    assert_eq!((a.failed_dirs, a.skipped_dirs), (b.failed_dirs, b.skipped_dirs));
}

#[test]
fn batch_guards_against_overflow() {
    let mut batch = Batch::new(2);
    let big = result(CleanTarget::NodeModules, u64::MAX, 1);
    assert!(batch.can_record(&big, ItemOutcome::Freed));
    batch.record(&big, ItemOutcome::Freed);
    let one = result(CleanTarget::NodeModules, 1, 1);
    assert!(!batch.can_record(&one, ItemOutcome::Freed));
    assert!(batch.can_record(&one, ItemOutcome::Skipped));
    assert_eq!(batch.stats().total_size, u64::MAX);
    assert_eq!(batch.total(), 2);
}

#[test]
fn empty_batch_finishes_empty() {
    let stats = Batch::new(0).finish();
    assert_eq!(stats.total_size, 0);
    assert_eq!(stats.total_files, 0);
    assert_eq!(stats.total_dirs + stats.failed_dirs + stats.skipped_dirs, 0);
}

#[test]
fn parallel_only_for_quiet_batches_of_several() {
    let c = Cleaner::new(false, false);
    assert!(c.uses_parallel(2));
    assert!(!c.uses_parallel(1));
    assert!(!Cleaner::new(false, true).uses_parallel(5));
    assert!(!Cleaner::new(false, false).with_parallel(false).uses_parallel(5));
}

#[test]
fn confirmation_only_outside_dry_run() {
    let c = Cleaner::new(false, false);
    assert!(c.asks_confirmation(true));
    assert!(!c.asks_confirmation(false));
    assert!(!Cleaner::new(true, false).asks_confirmation(true));
    assert!(!c.is_dry_run());
    assert!(!c.is_verbose());
    assert!(!c.is_interrupted());
}

#[test]
fn affirmative_answers() {
    assert!(is_affirmative("y"));
    assert!(is_affirmative("yes\n"));
    assert!(is_affirmative("  YES  "));
    assert!(is_affirmative("Y\r\n"));
    assert!(!is_affirmative(""));
    assert!(!is_affirmative("\n"));
    assert!(!is_affirmative("no"));
    assert!(!is_affirmative("yess"));
    assert!(is_affirmative("\u{3000}yes\u{a0}"));
    assert!(!is_affirmative("y es"));
    assert!(is_yes("yes"));
    assert!(!is_yes("YES"));
}
