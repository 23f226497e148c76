use kpm::batch::Batch;
use kpm::gateway::{find_kpm_file, load_args, unload_args};
use kpm::naming::{file_name_of, file_stem, is_package_file, KPMMGR_PATH, KPM_DIR};
use kpm::plan::{
    handle_create_event, handle_modify_event, handle_remove_event, plan_load_all, plan_purge_all,
    route_event, Action, EventKind, FsEvent,
};
use kpm::supervisor::{first_stage, is_final, next_stage, Stage};
use std::collections::BTreeSet;

fn strings(items: &[&str]) -> Vec<String> {
    items.iter().map(|s| s.to_string()).collect()
}

fn load(p: &str) -> Action {
    Action::Load(p.to_string())
}

fn unload(n: &str) -> Action {
    Action::Unload(n.to_string())
}

fn delete(p: &str) -> Action {
    Action::Delete(p.to_string())
}

/// Runs a batch, failing the steps whose positions are in `failing`, and
/// returns the actions attempted.
fn run_batch(actions: Vec<Action>, failing: &[usize]) -> (Vec<Action>, usize) {
    let mut batch = Batch::new(actions);
    let mut attempted = Vec::new();
    let mut k = 0;
    while let Some(a) = batch.current() {
        attempted.push(a.clone());
        batch.record(!failing.contains(&k));
        k += 1;
    }
    assert!(batch.is_finished());
    (attempted, batch.failures())
}

/// Carries out actions on a directory held as a set of paths; unloads of the
/// names in `refused` fail and remove nothing, the others remove the package
/// file of their module.
fn run_on_dir(dir: &mut BTreeSet<String>, actions: &[Action], refused: &[&str]) {
    for a in actions {
        match a {
            Action::Unload(name) => {
                if !refused.contains(&name.as_str()) {
                    let listing: Vec<String> = dir.iter().cloned().collect();
                    if let Some(p) = find_kpm_file(&listing, name) {
                        dir.remove(&p);
                    }
                }
            }
            Action::Delete(p) => {
                dir.remove(p);
            }
            _ => {}
        }
    }
}

#[test]
fn constants_name_the_directory_and_the_manager() {
    assert_eq!(KPM_DIR, "/data/adb/kpm");
    assert_eq!(KPMMGR_PATH, "/data/adb/ksu/bin/kpmmgr");
}

#[test]
fn file_name_is_the_last_component() {
    assert_eq!(file_name_of("/data/adb/kpm/x.kpm"), "x.kpm");
    assert_eq!(file_name_of("x.kpm"), "x.kpm");
    assert_eq!(file_name_of("/data/adb/kpm/"), "");
}

#[test]
fn stem_drops_the_last_extension_only() {
    assert_eq!(file_stem("/data/adb/kpm/x.kpm"), "x");
    assert_eq!(file_stem("/data/adb/kpm/a.b.kpm"), "a.b");
    assert_eq!(file_stem("/data/adb/kpm/noext"), "noext");
    assert_eq!(file_stem("/data/adb/kpm/.kpm"), ".kpm");
    assert_eq!(file_stem("/data/adb/kpm/x."), "x");
    assert_eq!(file_stem("/data/adb/kpm/.."), "..");
    assert_eq!(file_stem("/data/adb/kpm/"), "");
}

#[test]
fn package_files_end_in_kpm() {
    assert!(is_package_file("/data/adb/kpm/x.kpm"));
    assert!(is_package_file("y.kpm"));
    assert!(!is_package_file("/data/adb/kpm/x.txt"));
    assert!(!is_package_file("/data/adb/kpm/x.KPM"));
    assert!(!is_package_file("/data/adb/kpm/x.kpm.bak"));
    assert!(!is_package_file("/data/adb/kpm/.kpm"));
    assert!(!is_package_file("/data/adb/kpm/kpm"));
    assert!(!is_package_file("/data/adb/kpm.d/x"));
}

#[test]
fn load_arguments_are_exact() {
    assert_eq!(load_args("/data/adb/kpm/x.kpm"), strings(&["load", "/data/adb/kpm/x.kpm", ""]));
}

#[test]
fn unload_arguments_are_exact() {
    assert_eq!(unload_args("x"), strings(&["unload", "x"]));
}

#[test]
fn find_file_matches_name_exactly() {
    let listing = strings(&[
        "/data/adb/kpm/X.kpm",
        "/data/adb/kpm/x.txt",
        "/data/adb/kpm/xy.kpm",
        "/data/adb/kpm/x.kpm",
    ]);
    assert_eq!(find_kpm_file(&listing, "x"), Some("/data/adb/kpm/x.kpm".to_string()));
    assert_eq!(find_kpm_file(&listing, "X"), Some("/data/adb/kpm/X.kpm".to_string()));
    assert_eq!(find_kpm_file(&listing, "y"), None);
    assert_eq!(find_kpm_file(&Vec::new(), "x"), None);
}

#[test]
fn find_file_takes_the_first_match() {
    let listing = strings(&["/a/x.kpm", "/b/x.kpm"]);
    assert_eq!(find_kpm_file(&listing, "x"), Some("/a/x.kpm".to_string()));
}

#[test]
fn load_all_filters_by_extension() {
    let listing = strings(&["/data/adb/kpm/a.kpm", "/data/adb/kpm/b.txt", "/data/adb/kpm/c.kpm"]);
    assert_eq!(
        plan_load_all(&listing),
        vec![load("/data/adb/kpm/a.kpm"), load("/data/adb/kpm/c.kpm")]
    );
}

#[test]
fn load_all_skips_empty_names() {
    let listing = strings(&["/data/adb/kpm/", "/data/adb/kpm/a.kpm"]);
    assert_eq!(
        plan_load_all(&listing),
        vec![Action::SkipInvalid("/data/adb/kpm/".to_string()), load("/data/adb/kpm/a.kpm")]
    );
}

#[test]
fn load_all_on_empty_directory_does_nothing() {
    assert_eq!(plan_load_all(&Vec::new()), Vec::new());
}

#[test]
fn load_all_twice_attempts_the_same_loads() {
    let listing = strings(&["/data/adb/kpm/a.kpm", "/data/adb/kpm/b.txt", "/data/adb/kpm/c.kpm"]);
    let first = plan_load_all(&listing);
    let mut dir: BTreeSet<String> = listing.iter().cloned().collect();
    run_on_dir(&mut dir, &first, &[]);
    let listing_again: Vec<String> = dir.iter().cloned().collect();
    assert_eq!(listing_again, listing);
    let second = plan_load_all(&listing_again);
    assert_eq!(first, second);
    let (a1, f1) = run_batch(first, &[]);
    let (a2, f2) = run_batch(second, &[]);
    assert_eq!(a1, a2);
    assert_eq!((f1, f2), (0, 0));
}

#[test]
fn load_all_survives_a_failure_in_the_middle() {
    let listing = strings(&["/data/adb/kpm/a.kpm", "/data/adb/kpm/b.kpm", "/data/adb/kpm/c.kpm"]);
    let plan = plan_load_all(&listing);
    let (attempted, failed) = run_batch(plan, &[1]);
    assert_eq!(
        attempted,
        vec![load("/data/adb/kpm/a.kpm"), load("/data/adb/kpm/b.kpm"), load("/data/adb/kpm/c.kpm")]
    );
    assert_eq!(failed, 1);
}

#[test]
fn purge_unloads_then_deletes_each_package() {
    let listing = strings(&["/data/adb/kpm/a.kpm", "/data/adb/kpm/notes.txt", "/data/adb/kpm/b.kpm"]);
    assert_eq!(
        plan_purge_all(&listing),
        vec![
            unload("a"),
            delete("/data/adb/kpm/a.kpm"),
            unload("b"),
            delete("/data/adb/kpm/b.kpm"),
        ]
    );
}

#[test]
fn purge_empties_directory_even_when_unloads_fail() {
    let listing = strings(&[
        "/data/adb/kpm/a.kpm",
        "/data/adb/kpm/b.kpm",
        "/data/adb/kpm/c.kpm",
        "/data/adb/kpm/keep.txt",
    ]);
    let mut dir: BTreeSet<String> = listing.iter().cloned().collect();
    let plan = plan_purge_all(&listing);
    run_on_dir(&mut dir, &plan, &["a", "c"]);
    assert!(dir.iter().all(|p| !is_package_file(p)));
    assert_eq!(dir.into_iter().collect::<Vec<_>>(), strings(&["/data/adb/kpm/keep.txt"]));
}

#[test]
fn create_event_loads_a_package_file() {
    assert_eq!(
        handle_create_event(&strings(&["/data/adb/kpm/x.kpm"])),
        vec![load("/data/adb/kpm/x.kpm")]
    );
}

#[test]
fn create_event_ignores_other_files() {
    assert_eq!(handle_create_event(&strings(&["/data/adb/kpm/x.txt"])), Vec::new());
}

#[test]
fn remove_event_unloads_then_deletes() {
    assert_eq!(
        handle_remove_event(&strings(&["/data/adb/kpm/x.kpm"])),
        vec![unload("x"), delete("/data/adb/kpm/x.kpm")]
    );
}

#[test]
fn remove_event_skips_an_empty_name() {
    assert_eq!(
        handle_remove_event(&strings(&["/data/adb/kpm/"])),
        vec![Action::SkipInvalid("/data/adb/kpm/".to_string())]
    );
}

#[test]
fn modify_event_only_notes() {
    let paths = strings(&["/data/adb/kpm/x.kpm", "/data/adb/kpm/y.txt"]);
    assert_eq!(
        handle_modify_event(&paths),
        vec![
            Action::NoteModified("/data/adb/kpm/x.kpm".to_string()),
            Action::NoteModified("/data/adb/kpm/y.txt".to_string()),
        ]
    );
}

#[test]
fn events_route_by_kind() {
    let paths = strings(&["/data/adb/kpm/x.kpm", "/data/adb/kpm/y.kpm"]);
    let ev = |kind| FsEvent { kind, paths: paths.clone() };
    assert_eq!(
        route_event(&ev(EventKind::Create)),
        vec![load("/data/adb/kpm/x.kpm"), load("/data/adb/kpm/y.kpm")]
    );
    assert_eq!(
        route_event(&ev(EventKind::Remove)),
        vec![
            unload("x"),
            delete("/data/adb/kpm/x.kpm"),
            unload("y"),
            delete("/data/adb/kpm/y.kpm"),
        ]
    );
    let modified = route_event(&ev(EventKind::Modify));
    assert!(modified.iter().all(|a| matches!(a, Action::NoteModified(_))));
    assert_eq!(route_event(&ev(EventKind::Other)), Vec::new());
}

fn run_startup(safe_mode: bool, outcome: impl Fn(Stage) -> bool) -> Vec<Stage> {
    let mut stage = first_stage();
    let mut seen = vec![stage];
    while !is_final(stage) {
        stage = next_stage(safe_mode, stage, outcome(stage));
        seen.push(stage);
    }
    seen
}

#[test]
fn safe_mode_purges_once_and_installs_nothing() {
    let seen = run_startup(true, |_| true);
    assert_eq!(seen, vec![Stage::EnsureDir, Stage::Purge, Stage::Done]);
    let seen = run_startup(true, |s| s != Stage::Purge);
    assert_eq!(seen, vec![Stage::EnsureDir, Stage::Purge, Stage::Done]);
}

#[test]
fn normal_startup_reconciles_then_watches() {
    let seen = run_startup(false, |s| s != Stage::LoadAll);
    assert_eq!(seen, vec![Stage::EnsureDir, Stage::LoadAll, Stage::InstallWatcher, Stage::Done]);
}

#[test]
fn startup_fails_without_a_directory() {
    assert_eq!(run_startup(false, |_| false), vec![Stage::EnsureDir, Stage::Failed]);
    assert_eq!(run_startup(true, |_| false), vec![Stage::EnsureDir, Stage::Failed]);
}

#[test]
fn startup_fails_when_the_watcher_cannot_be_installed() {
    let seen = run_startup(false, |s| s != Stage::InstallWatcher);
    assert_eq!(seen, vec![Stage::EnsureDir, Stage::LoadAll, Stage::InstallWatcher, Stage::Failed]);
}

#[test]
fn batch_counts_attempts_and_failures() {
    let mut batch = Batch::new(vec![load("/a.kpm"), load("/b.kpm")]);
    assert_eq!(batch.attempted(), 0);
    assert!(!batch.is_finished());
    batch.record(false);
    assert_eq!(batch.current(), Some(&load("/b.kpm")));
    batch.record(true);
    assert_eq!(batch.current(), None);
    assert_eq!((batch.attempted(), batch.failures()), (2, 1));
}
