use trinity::registry::{module_name_of, LoadOutcome, WasmModules};
use trinity::watcher::{FsEventKind, ReloadScheduler};

fn outcome(name: &str, ok: bool) -> LoadOutcome<u32> {
    LoadOutcome { name: name.to_owned(), guest: if ok { Some(0) } else { None } }
}

#[test]
fn module_name_of_wasm_files() {
    assert_eq!(module_name_of("uuid.wasm"), Some("uuid".to_owned()));
    assert_eq!(module_name_of("a.b.wasm"), Some("a.b".to_owned()));
    assert_eq!(module_name_of("notes.txt"), None);
    assert_eq!(module_name_of("wasm"), None);
    assert_eq!(module_name_of(".wasm"), None);
}

#[test]
fn registry_keeps_discovery_order() {
    let (registry, warnings) = WasmModules::new(vec![
        outcome("a", true),
        outcome("b", true),
        outcome("c", true),
    ]);
    assert_eq!(registry.names(), vec!["a".to_owned(), "b".to_owned(), "c".to_owned()]);
    assert!(warnings.is_empty());
}

#[test]
fn registry_first_of_equal_names_wins_with_warning() {
    let (registry, warnings) = WasmModules::new(vec![
        outcome("dup", true),
        outcome("other", true),
        outcome("dup", true),
    ]);
    assert_eq!(registry.names(), vec!["dup".to_owned(), "other".to_owned()]);
    assert_eq!(warnings.len(), 1);
    assert!(warnings[0].contains("dup"));
}

#[test]
fn registry_skips_failed_loads_and_keeps_the_rest() {
    let (registry, warnings) = WasmModules::new(vec![
        outcome("good", true),
        outcome("bad", false),
        outcome("other", true),
    ]);
    assert_eq!(registry.names(), vec!["good".to_owned(), "other".to_owned()]);
    assert!(warnings.is_empty());
}

fn wasm_event() -> Vec<String> {
    vec!["x.wasm".to_owned()]
}

#[test]
fn ten_rapid_touches_schedule_one_reload() {
    let mut sched = ReloadScheduler::new();
    let mut scheduled = 0;
    for _ in 0..10 {
        if sched.on_event(&wasm_event(), &FsEventKind::Modify) {
            scheduled += 1;
        }
    }
    assert_eq!(scheduled, 1);
}

#[test]
fn non_artefact_paths_do_not_schedule() {
    let mut sched = ReloadScheduler::new();
    assert!(!sched.on_event(&vec!["notes.txt".to_owned()], &FsEventKind::Modify));
    assert!(!sched.on_event(&Vec::new(), &FsEventKind::Modify));
}

#[test]
fn access_events_do_not_schedule() {
    let mut sched = ReloadScheduler::new();
    assert!(!sched.on_event(&wasm_event(), &FsEventKind::Access));
    assert!(!sched.on_event(&wasm_event(), &FsEventKind::Any));
    assert!(!sched.on_event(&wasm_event(), &FsEventKind::Other));
    // A relevant kind still schedules afterwards.
    assert!(sched.on_event(&wasm_event(), &FsEventKind::Create));
}

#[test]
fn failed_rebuild_keeps_the_old_registry() {
    let mut sched = ReloadScheduler::new();
    assert!(sched.on_event(&wasm_event(), &FsEventKind::Modify));
    let (old_registry, _) = WasmModules::new(vec![outcome("a", true)]);
    let kept = sched.apply_reload(old_registry, Err::<WasmModules<u32>, _>("boom".to_owned()));
    assert_eq!(kept.names(), vec!["a".to_owned()]);
    // The flag was cleared: the next qualifying event schedules again.
    assert!(sched.on_event(&wasm_event(), &FsEventKind::Remove));
}

#[test]
fn successful_rebuild_replaces_the_registry() {
    let mut sched = ReloadScheduler::new();
    sched.on_event(&wasm_event(), &FsEventKind::Modify);
    let (old_registry, _) = WasmModules::new(vec![outcome("a", true)]);
    let (new_registry, _) = WasmModules::new(vec![outcome("b", true)]);
    let kept = sched.apply_reload(old_registry, Ok(new_registry));
    assert_eq!(kept.names(), vec!["b".to_owned()]);
}
