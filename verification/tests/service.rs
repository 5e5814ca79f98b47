use folden::config::{mapping_from_snapshot, MappingStatusStrategy};
use folden::errors::HandlerServiceError;
use folden::mapping::{HandlerMapping, Mapping};
use folden::reconciler::handle_mapping_strategy;
use folden::supervisor::{HandlerTypesRegistry, ModifyEffect};

fn s(v: &str) -> String {
    v.to_string()
}

fn registry() -> HandlerTypesRegistry {
    HandlerTypesRegistry::new(vec![s("move-to-dir"), s("run-cmd")])
}

#[test]
fn start_unregistered_fails_then_register_start_succeeds() {
    let mut mapping = Mapping::new();
    let reg = registry();
    let err = mapping.start_handler(&s("/tmp/watch"), &reg).unwrap_err();
    assert!(matches!(err, HandlerServiceError::NotRegistered));

    mapping
        .register_to_directory(&s("/tmp/watch"), &s("move-to-dir"), &s("/tmp/w.toml"), false)
        .unwrap();
    let started = mapping.start_handler(&s("/tmp/watch"), &reg).unwrap();
    assert_eq!(started.handler_type_name, "move-to-dir");
    assert_eq!(started.handler_config_path, "/tmp/w.toml");

    let status = mapping.get_directory_status(&s("/tmp/watch")).unwrap();
    assert!(status.running);
    assert_eq!(status.handler_type_name, "move-to-dir");
}

#[test]
fn start_running_fails_then_stop_start_succeeds_again() {
    let mut mapping = Mapping::new();
    let reg = registry();
    mapping
        .register_to_directory(&s("/d"), &s("move-to-dir"), &s("/d.toml"), false)
        .unwrap();
    mapping.start_handler(&s("/d"), &reg).unwrap();

    let err = mapping.start_handler(&s("/d"), &reg).unwrap_err();
    assert!(matches!(err, HandlerServiceError::AlreadyRunning));

    mapping.stop_handler(&s("/d")).unwrap();
    assert!(!mapping.get_directory_status(&s("/d")).unwrap().running);
    mapping.start_handler(&s("/d"), &reg).unwrap();
    assert!(mapping.get_directory_status(&s("/d")).unwrap().running);
}

#[test]
fn stop_not_running_fails_and_repeats_safely() {
    let mut mapping = Mapping::new();
    let err = mapping.stop_handler(&s("/nowhere")).unwrap_err();
    assert!(matches!(err, HandlerServiceError::NotRunning));

    let reg = registry();
    mapping
        .register_to_directory(&s("/d"), &s("move-to-dir"), &s("/d.toml"), false)
        .unwrap();
    mapping.start_handler(&s("/d"), &reg).unwrap();
    mapping.stop_handler(&s("/d")).unwrap();
    for _ in 0..3 {
        let err = mapping.stop_handler(&s("/d")).unwrap_err();
        assert!(matches!(err, HandlerServiceError::NotRunning));
    }
    assert!(!mapping.get_directory_status(&s("/d")).unwrap().running);
}

#[test]
fn register_conflicting_needs_overwrite() {
    let mut mapping = Mapping::new();
    mapping
        .register_to_directory(&s("/d"), &s("move-to-dir"), &s("/a.toml"), false)
        .unwrap();
    let err = mapping
        .register_to_directory(&s("/d"), &s("run-cmd"), &s("/b.toml"), false)
        .unwrap_err();
    assert!(matches!(err, HandlerServiceError::AlreadyRegistered));
    // Same type and config: re-registering is accepted without overwrite.
    mapping
        .register_to_directory(&s("/d"), &s("move-to-dir"), &s("/a.toml"), false)
        .unwrap();
    // Overwrite requested: the conflicting registration is accepted.
    mapping
        .register_to_directory(&s("/d"), &s("run-cmd"), &s("/b.toml"), true)
        .unwrap();
    let status = mapping.get_directory_status(&s("/d")).unwrap();
    assert_eq!(status.handler_type_name, "run-cmd");
    assert_eq!(status.handler_config_path, "/b.toml");
    assert!(!status.running);
}

#[test]
fn start_unknown_handler_type_fails() {
    let mut mapping = Mapping::new();
    let reg = registry();
    mapping
        .register_to_directory(&s("/d"), &s("no-such-type"), &s("/d.toml"), false)
        .unwrap();
    let err = mapping.start_handler(&s("/d"), &reg).unwrap_err();
    assert!(matches!(err, HandlerServiceError::UnknownHandlerType));
    assert!(!mapping.get_directory_status(&s("/d")).unwrap().running);
}

#[test]
fn modify_updates_and_restarts_running_worker() {
    let mut mapping = Mapping::new();
    let reg = registry();
    mapping
        .register_to_directory(&s("/d"), &s("move-to-dir"), &s("/a.toml"), false)
        .unwrap();
    let effect = mapping
        .modify_handler(&s("/d"), None, Some(&s("/b.toml")))
        .unwrap();
    assert!(matches!(effect, ModifyEffect::NoWorker));
    assert_eq!(
        mapping.get_directory_status(&s("/d")).unwrap().handler_config_path,
        "/b.toml"
    );

    mapping.start_handler(&s("/d"), &reg).unwrap();
    let effect = mapping
        .modify_handler(&s("/d"), Some(&s("run-cmd")), None)
        .unwrap();
    match effect {
        ModifyEffect::RestartWorker(h) => {
            assert_eq!(h.handler_type_name, "run-cmd");
            assert_eq!(h.handler_config_path, "/b.toml");
        }
        ModifyEffect::NoWorker => panic!("a running worker must be restarted"),
    }
    let status = mapping.get_directory_status(&s("/d")).unwrap();
    assert!(status.running);
    assert_eq!(status.handler_type_name, "run-cmd");

    let err = mapping
        .modify_handler(&s("/other"), Some(&s("run-cmd")), None)
        .unwrap_err();
    assert!(matches!(err, HandlerServiceError::NotRegistered));
}

#[test]
fn trace_requires_running_worker() {
    let mut mapping = Mapping::new();
    let reg = registry();
    assert!(matches!(
        mapping.trace_handler(&s("/d")),
        Err(HandlerServiceError::NotRunning)
    ));
    mapping
        .register_to_directory(&s("/d"), &s("move-to-dir"), &s("/d.toml"), false)
        .unwrap();
    assert!(matches!(
        mapping.trace_handler(&s("/d")),
        Err(HandlerServiceError::NotRunning)
    ));
    mapping.start_handler(&s("/d"), &reg).unwrap();
    assert!(mapping.trace_handler(&s("/d")).is_ok());
}

#[test]
fn status_of_all_directories() {
    let mut mapping = Mapping::new();
    let reg = registry();
    mapping
        .register_to_directory(&s("/a"), &s("move-to-dir"), &s("/a.toml"), false)
        .unwrap();
    mapping
        .register_to_directory(&s("/b"), &s("run-cmd"), &s("/b.toml"), false)
        .unwrap();
    mapping.start_handler(&s("/b"), &reg).unwrap();
    let all = mapping.get_all_statuses();
    assert_eq!(all.len(), 2);
    let a = all.iter().find(|e| e.0 == "/a").unwrap();
    assert!(!a.1.running);
    let b = all.iter().find(|e| e.0 == "/b").unwrap();
    assert!(b.1.running);
    assert!(mapping.get_directory_status(&s("/c")).is_none());
}

#[test]
fn snapshot_round_trip_preserves_triples_not_running_state() {
    let mut mapping = Mapping::new();
    let reg = registry();
    mapping
        .register_to_directory(&s("/tmp/wätch"), &s("move-to-dir"), &s("/tmp/ä.toml"), false)
        .unwrap();
    mapping
        .register_to_directory(&s("/var/data"), &s("run-cmd"), &s("/var/data.toml"), false)
        .unwrap();
    mapping.start_handler(&s("/var/data"), &reg).unwrap();

    let bytes = mapping.to_bytes();
    let restored = Mapping::from_bytes(&bytes).unwrap();
    assert_eq!(restored.len(), 2);
    let a = restored.get_directory_status(&s("/tmp/wätch")).unwrap();
    assert_eq!(a.handler_type_name, "move-to-dir");
    assert_eq!(a.handler_config_path, "/tmp/ä.toml");
    assert!(!a.running);
    let b = restored.get_directory_status(&s("/var/data")).unwrap();
    assert_eq!(b.handler_type_name, "run-cmd");
    assert_eq!(b.handler_config_path, "/var/data.toml");
    assert!(!b.running, "running state is not persisted");
}

#[test]
fn empty_snapshot_round_trip() {
    let mapping = Mapping::new();
    let bytes = mapping.to_bytes();
    let restored = Mapping::from_bytes(&bytes).unwrap();
    assert_eq!(restored.len(), 0);
}

fn push_encoded_str(out: &mut Vec<u8>, v: &[u8]) {
    out.extend_from_slice(&(v.len() as u64).to_le_bytes());
    out.extend_from_slice(v);
}

#[test]
fn malformed_snapshots_are_corrupt() {
    // Too short for the entry count.
    let err = Mapping::from_bytes(&vec![1, 2, 3]).unwrap_err();
    assert!(matches!(err, HandlerServiceError::MappingCorrupt));

    // Count says one entry, nothing follows.
    let mut truncated = 1u64.to_le_bytes().to_vec();
    truncated.extend_from_slice(&9u64.to_le_bytes());
    assert!(matches!(
        Mapping::from_bytes(&truncated).unwrap_err(),
        HandlerServiceError::MappingCorrupt
    ));

    // Invalid UTF-8 in a path.
    let mut bad_utf8 = 1u64.to_le_bytes().to_vec();
    push_encoded_str(&mut bad_utf8, &[0xff, 0xfe]);
    push_encoded_str(&mut bad_utf8, b"move-to-dir");
    push_encoded_str(&mut bad_utf8, b"/c.toml");
    assert!(matches!(
        Mapping::from_bytes(&bad_utf8).unwrap_err(),
        HandlerServiceError::MappingCorrupt
    ));

    // Trailing bytes after a well-formed table.
    let mut mapping = Mapping::new();
    mapping
        .register_to_directory(&s("/d"), &s("move-to-dir"), &s("/d.toml"), false)
        .unwrap();
    let mut trailing = mapping.to_bytes();
    trailing.push(0);
    assert!(matches!(
        Mapping::from_bytes(&trailing).unwrap_err(),
        HandlerServiceError::MappingCorrupt
    ));

    // A repeated directory path.
    let mut duplicated = 2u64.to_le_bytes().to_vec();
    for _ in 0..2 {
        push_encoded_str(&mut duplicated, b"/same");
        push_encoded_str(&mut duplicated, b"move-to-dir");
        push_encoded_str(&mut duplicated, b"/same.toml");
    }
    assert!(matches!(
        Mapping::from_bytes(&duplicated).unwrap_err(),
        HandlerServiceError::MappingCorrupt
    ));
}

#[test]
fn snapshot_loading_follows_strategy() {
    let mut mapping = Mapping::new();
    mapping
        .register_to_directory(&s("/d"), &s("move-to-dir"), &s("/d.toml"), false)
        .unwrap();
    let bytes = mapping.to_bytes();

    // NoSave never reads the snapshot.
    let (m, corrupt) = mapping_from_snapshot(MappingStatusStrategy::NoSave, Some(&bytes));
    assert_eq!(m.len(), 0);
    assert!(!corrupt);

    // A missing file is no error: empty table.
    let (m, corrupt) = mapping_from_snapshot(MappingStatusStrategy::Save, None);
    assert_eq!(m.len(), 0);
    assert!(!corrupt);

    // A good snapshot is loaded.
    let (m, corrupt) = mapping_from_snapshot(MappingStatusStrategy::Continue, Some(&bytes));
    assert_eq!(m.len(), 1);
    assert!(!corrupt);

    // A corrupt snapshot falls back to an empty table with a warning.
    let (m, corrupt) = mapping_from_snapshot(MappingStatusStrategy::Continue, Some(&vec![7]));
    assert_eq!(m.len(), 0);
    assert!(corrupt);
}

#[test]
fn continue_strategy_starts_valid_and_skips_unknown() {
    let mut mapping = Mapping::new();
    mapping
        .register_to_directory(&s("/good"), &s("move-to-dir"), &s("/good.toml"), false)
        .unwrap();
    mapping
        .register_to_directory(&s("/bad"), &s("no-such-type"), &s("/bad.toml"), false)
        .unwrap();
    let bytes = mapping.to_bytes();
    let (mut booted, corrupt) =
        mapping_from_snapshot(MappingStatusStrategy::Continue, Some(&bytes));
    assert!(!corrupt);

    let reg = registry();
    let results = handle_mapping_strategy(MappingStatusStrategy::Continue, &mut booted, &reg);
    assert_eq!(results.len(), 2);
    let good = results.iter().find(|e| e.0 == "/good").unwrap();
    assert!(good.1);
    let bad = results.iter().find(|e| e.0 == "/bad").unwrap();
    assert!(!bad.1);

    assert!(booted.get_directory_status(&s("/good")).unwrap().running);
    let bad_status = booted.get_directory_status(&s("/bad")).unwrap();
    assert!(!bad_status.running, "the invalid directory is skipped, not fatal");
    assert_eq!(bad_status.handler_type_name, "no-such-type");
}

#[test]
fn non_continue_strategy_starts_nothing() {
    let mut mapping = Mapping::new();
    mapping
        .register_to_directory(&s("/d"), &s("move-to-dir"), &s("/d.toml"), false)
        .unwrap();
    let reg = registry();
    let results = handle_mapping_strategy(MappingStatusStrategy::Save, &mut mapping, &reg);
    assert!(results.is_empty());
    assert!(!mapping.get_directory_status(&s("/d")).unwrap().running);
    let results = handle_mapping_strategy(MappingStatusStrategy::NoSave, &mut mapping, &reg);
    assert!(results.is_empty());
}

#[test]
fn mapping_remove_and_keys() {
    let mut mapping = Mapping::new();
    mapping
        .register_to_directory(&s("/a"), &s("move-to-dir"), &s("/a.toml"), false)
        .unwrap();
    mapping
        .register_to_directory(&s("/b"), &s("run-cmd"), &s("/b.toml"), false)
        .unwrap();
    let keys = mapping.keys();
    assert_eq!(keys, vec![s("/a"), s("/b")]);
    let removed = mapping.remove(&s("/a")).unwrap();
    assert_eq!(removed.handler_type_name, "move-to-dir");
    assert!(mapping.get(&s("/a")).is_none());
    assert!(mapping.remove(&s("/a")).is_none());
    assert_eq!(mapping.len(), 1);
    let _ = HandlerMapping {
        running: false,
        handler_type_name: s("move-to-dir"),
        handler_config_path: s("/x.toml"),
    };
}
