use ipelfs::collection::{
    after_failure, audit_subject, settle, create_collection, delete_collection_by_id, delete_collection_by_name,
    enter_collection, is_valid_name, list_collections, name_exists, remove_collection,
    transfer_collection, CollectionIndex, CollectionPlan, CollectionStep,
};
use ipelfs::error::{ErrorKind, Reason};
use ipelfs::id::is_valid_id;
use ipelfs::metadata::Action;
use ipelfs::table::PairTable;
use ipelfs::volume::{FullConfig, Next};

fn table(pairs: &[(&str, &str)]) -> PairTable {
    let mut t = PairTable::new();
    for (k, v) in pairs {
        t.push(k.to_string(), v.to_string());
    }
    t
}

fn registry() -> FullConfig {
    FullConfig::new(
        Some(table(&[("b3x9q2z", "/mnt/a"), ("f7h1mno", "/mnt/b")])),
        toml::Table::new(),
    )
}

fn index(pairs: &[(&str, &str)]) -> CollectionIndex {
    let mut rest = toml::Table::new();
    rest.insert("note".to_string(), toml::Value::String("kept".to_string()));
    CollectionIndex::new(table(pairs), rest)
}

fn listed(index: &CollectionIndex) -> Vec<(String, String)> {
    index.collection.entries.iter().map(|p| (p.key.clone(), p.value.clone())).collect()
}

fn pair(k: &str, v: &str) -> (String, String) {
    (k.to_string(), v.to_string())
}

fn log_lines(plan: &CollectionPlan, at: &str) -> usize {
    plan.steps
        .iter()
        .filter(|s| matches!(s, CollectionStep::Log { root, .. } if root == at))
        .count()
}

#[test]
fn names_are_lowercase_digits_and_underscores() {
    assert!(is_valid_name("photos"));
    assert!(is_valid_name("photos_2024"));
    assert!(is_valid_name("_"));
    assert!(is_valid_name("0"));
    assert!(!is_valid_name(""));
    assert!(!is_valid_name("Photos"));
    assert!(!is_valid_name("my photos"));
    assert!(!is_valid_name("photos-2024"));
    assert!(!is_valid_name("fotos_é"));
    assert!(!is_valid_name("a/b"));
}

#[test]
fn creating_a_collection_enters_it_and_plans_its_directory() {
    let config = registry();
    let mut idx = index(&[]);
    let plan = enter_collection(&config, &mut idx, "b3x9q2z", "photos", "k2p0stu".to_string())
        .expect("a free name in a registered volume");
    assert_eq!(plan.id, "k2p0stu");
    assert_eq!(listed(&idx), vec![pair("k2p0stu", "photos")]);
    assert_eq!(plan.steps.len(), 3);
    assert!(matches!(&plan.steps[0], CollectionStep::SaveIndex { root } if root == "/mnt/a"));
    assert!(matches!(
        &plan.steps[1],
        CollectionStep::CreateDirectory { root, name } if root == "/mnt/a" && name == "k2p0stu"
    ));
    match &plan.steps[2] {
        CollectionStep::Log { root, action, subject, target } => {
            assert_eq!(root, "/mnt/a");
            assert_eq!(*action, Action::Create);
            assert_eq!(subject, "@v:b3x9q2z/c:k2p0stu");
            assert_eq!(*target, None);
        }
        other => panic!("unexpected step {:?}", other),
    }
    assert_eq!(idx.rest.get("note"), Some(&toml::Value::String("kept".to_string())));
}

#[test]
fn repeating_a_creation_under_the_same_name_is_a_conflict() {
    let config = registry();
    let mut idx = index(&[]);
    enter_collection(&config, &mut idx, "b3x9q2z", "photos", "k2p0stu".to_string()).expect("free");
    let before = listed(&idx);
    let e = create_collection(&config, &mut idx, "b3x9q2z", "photos").expect_err("name taken");
    assert_eq!(e.reason, Reason::NameTaken);
    assert_eq!(e.kind(), ErrorKind::Conflict);
    assert_eq!(e.subject, "photos");
    assert_eq!(listed(&idx), before);
    let e = enter_collection(&config, &mut idx, "b3x9q2z", "photos", "zz9zz9z".to_string())
        .expect_err("name taken");
    assert_eq!(e.reason, Reason::NameTaken);
    assert_eq!(listed(&idx), before);
}

#[test]
fn create_mints_an_id_that_the_index_does_not_hold() {
    let config = registry();
    let mut idx = index(&[]);
    for n in 0..40 {
        let before = listed(&idx);
        let name = format!("set_{}", n);
        let plan = create_collection(&config, &mut idx, "b3x9q2z", &name).expect("free");
        assert!(is_valid_id(&plan.id));
        assert!(before.iter().all(|(id, _)| *id != plan.id));
        assert_eq!(listed(&idx).last(), Some(&(plan.id.clone(), name)));
    }
}

#[test]
fn create_checks_name_volume_and_id_in_that_order() {
    let config = registry();
    let mut idx = index(&[("k2p0stu", "photos")]);
    let e = create_collection(&config, &mut idx, "nowhere", "Bad Name").expect_err("bad name");
    assert_eq!(e.reason, Reason::InvalidName);
    assert_eq!(e.kind(), ErrorKind::Validation);
    assert_eq!(e.subject, "Bad Name");
    let e = create_collection(&config, &mut idx, "nowhere", "music").expect_err("no volume");
    assert_eq!(e.reason, Reason::VolumeNotFound);
    assert_eq!(e.kind(), ErrorKind::NotFound);
    assert_eq!(e.subject, "nowhere");
    let e = enter_collection(&config, &mut idx, "b3x9q2z", "music", "NOPE".to_string())
        .expect_err("bad id");
    assert_eq!(e.reason, Reason::InvalidId);
    let e = enter_collection(&config, &mut idx, "b3x9q2z", "music", "k2p0stu".to_string())
        .expect_err("id in use");
    assert_eq!(e.reason, Reason::IdTaken);
    assert_eq!(e.kind(), ErrorKind::Conflict);
    assert_eq!(listed(&idx), vec![pair("k2p0stu", "photos")]);
}

#[test]
fn listing_gives_the_index_or_nothing() {
    let config = registry();
    let idx = index(&[("k2p0stu", "photos"), ("a1b2c3d", "music")]);
    let held = list_collections(&config, Some(&idx), "b3x9q2z").expect("registered");
    assert_eq!(held.len(), 2);
    assert_eq!(held.key_at(1), "a1b2c3d");
    assert_eq!(held.value_at(0), "photos");
    let none = list_collections(&config, None, "b3x9q2z").expect("registered");
    assert_eq!(none.len(), 0);
    let e = list_collections(&config, Some(&idx), "k2p0stu").expect_err("no such volume");
    assert_eq!(e.reason, Reason::VolumeNotFound);
    assert!(name_exists(&idx, "music"));
    assert!(!name_exists(&idx, "k2p0stu"));
}

#[test]
fn deleting_by_id_removes_directory_and_entry() {
    let config = registry();
    let mut idx = index(&[("k2p0stu", "photos"), ("a1b2c3d", "music")]);
    let plan = delete_collection_by_id(&config, &mut idx, "b3x9q2z", "k2p0stu").expect("held");
    assert_eq!(plan.id, "k2p0stu");
    assert_eq!(listed(&idx), vec![pair("a1b2c3d", "music")]);
    assert_eq!(plan.steps.len(), 3);
    assert!(matches!(
        &plan.steps[0],
        CollectionStep::RemoveDirectory { root, name } if root == "/mnt/a" && name == "k2p0stu"
    ));
    assert!(matches!(&plan.steps[1], CollectionStep::SaveIndex { root } if root == "/mnt/a"));
    match &plan.steps[2] {
        CollectionStep::Log { action, subject, target, .. } => {
            assert_eq!(*action, Action::Delete);
            assert_eq!(subject, "@v:b3x9q2z/c:k2p0stu");
            assert_eq!(*target, None);
        }
        other => panic!("unexpected step {:?}", other),
    }
}

#[test]
fn deleting_by_name_finds_the_id() {
    let config = registry();
    let mut idx = index(&[("k2p0stu", "photos"), ("a1b2c3d", "music")]);
    let plan = delete_collection_by_name(&config, &mut idx, "b3x9q2z", "music").expect("held");
    assert_eq!(plan.id, "a1b2c3d");
    assert_eq!(listed(&idx), vec![pair("k2p0stu", "photos")]);
    assert!(matches!(
        &plan.steps[0],
        CollectionStep::RemoveDirectory { name, .. } if name == "a1b2c3d"
    ));
    assert!(matches!(
        &plan.steps[2],
        CollectionStep::Log { subject, .. } if subject == "@v:b3x9q2z/c:music"
    ));
}

#[test]
fn deleting_what_is_absent_changes_nothing() {
    let config = registry();
    let mut idx = index(&[("k2p0stu", "photos")]);
    let e = delete_collection_by_id(&config, &mut idx, "b3x9q2z", "photos").expect_err("a name");
    assert_eq!(e.reason, Reason::CollectionNotFound);
    assert_eq!(e.kind(), ErrorKind::NotFound);
    assert_eq!(e.subject, "photos");
    let e = delete_collection_by_name(&config, &mut idx, "b3x9q2z", "k2p0stu").expect_err("an id");
    assert_eq!(e.reason, Reason::CollectionNotFound);
    let e = remove_collection(&config, &mut idx, "zzzzzzz", "k2p0stu", false).expect_err("volume");
    assert_eq!(e.reason, Reason::VolumeNotFound);
    assert_eq!(listed(&idx), vec![pair("k2p0stu", "photos")]);
}

#[test]
fn create_then_delete_restores_the_index() {
    let config = registry();
    let mut idx = index(&[("a1b2c3d", "music")]);
    let before = listed(&idx);
    let created = create_collection(&config, &mut idx, "b3x9q2z", "photos").expect("free");
    let gone = delete_collection_by_id(&config, &mut idx, "b3x9q2z", &created.id).expect("held");
    assert_eq!(listed(&idx), before);
    assert_eq!(gone.id, created.id);
    let made = created.steps.iter().any(|s| {
        matches!(s, CollectionStep::CreateDirectory { root, name }
            if root == "/mnt/a" && *name == created.id)
    });
    let removed = gone.steps.iter().any(|s| {
        matches!(s, CollectionStep::RemoveDirectory { root, name }
            if root == "/mnt/a" && *name == created.id)
    });
    assert!(made && removed);

    let created = create_collection(&config, &mut idx, "b3x9q2z", "photos").expect("free");
    let gone = delete_collection_by_name(&config, &mut idx, "b3x9q2z", "photos").expect("held");
    assert_eq!(gone.id, created.id);
    assert_eq!(listed(&idx), before);
}

#[test]
fn a_transfer_moves_the_collection_with_its_identity() {
    let config = registry();
    let mut source = index(&[("a1b2c3d", "music"), ("k2p0stu", "photos")]);
    let mut destination = index(&[("zz9zz9z", "films")]);
    let plan =
        transfer_collection(&config, &mut source, &mut destination, "b3x9q2z", "k2p0stu", "f7h1mno")
            .expect("no collision");
    assert_eq!(plan.id, "k2p0stu");
    assert_eq!(listed(&source), vec![pair("a1b2c3d", "music")]);
    assert_eq!(listed(&destination), vec![pair("zz9zz9z", "films"), pair("k2p0stu", "photos")]);
    assert_eq!(plan.steps.len(), 5);
    assert!(matches!(
        &plan.steps[0],
        CollectionStep::MoveDirectory { from, to, name }
            if from == "/mnt/a" && to == "/mnt/b" && name == "k2p0stu"
    ));
    assert!(matches!(&plan.steps[1], CollectionStep::SaveIndex { root } if root == "/mnt/a"));
    assert!(matches!(&plan.steps[2], CollectionStep::SaveIndex { root } if root == "/mnt/b"));
    match &plan.steps[3] {
        CollectionStep::Log { root, action, subject, target } => {
            assert_eq!(root, "/mnt/a");
            assert_eq!(*action, Action::Transfer);
            assert_eq!(subject, "@v:b3x9q2z/c:k2p0stu");
            assert_eq!(target.as_deref(), Some("f7h1mno"));
        }
        other => panic!("unexpected step {:?}", other),
    }
    match &plan.steps[4] {
        CollectionStep::Log { root, action, subject, target } => {
            assert_eq!(root, "/mnt/b");
            assert_eq!(*action, Action::Receive);
            assert_eq!(subject, "@v:b3x9q2z/c:k2p0stu");
            assert_eq!(target.as_deref(), Some("f7h1mno"));
        }
        other => panic!("unexpected step {:?}", other),
    }
    assert_eq!(log_lines(&plan, "/mnt/a"), 1);
    assert_eq!(log_lines(&plan, "/mnt/b"), 1);
}

#[test]
fn a_transfer_fails_closed_on_a_collision() {
    let config = registry();
    let mut source = index(&[("k2p0stu", "photos")]);
    let mut same_id = index(&[("k2p0stu", "other")]);
    let e = transfer_collection(&config, &mut source, &mut same_id, "b3x9q2z", "k2p0stu", "f7h1mno")
        .expect_err("id collides");
    assert_eq!(e.reason, Reason::IdTaken);
    assert_eq!(e.kind(), ErrorKind::Conflict);
    let mut same_name = index(&[("zz9zz9z", "photos")]);
    let e =
        transfer_collection(&config, &mut source, &mut same_name, "b3x9q2z", "k2p0stu", "f7h1mno")
            .expect_err("name collides");
    assert_eq!(e.reason, Reason::NameTaken);
    assert_eq!(e.kind(), ErrorKind::Conflict);
    assert_eq!(e.subject, "photos");
    assert_eq!(listed(&source), vec![pair("k2p0stu", "photos")]);
    assert_eq!(listed(&same_id), vec![pair("k2p0stu", "other")]);
    assert_eq!(listed(&same_name), vec![pair("zz9zz9z", "photos")]);
}

#[test]
fn a_transfer_validates_before_it_looks_anything_up() {
    let config = registry();
    let mut source = index(&[("k2p0stu", "photos")]);
    let mut destination = index(&[]);
    let e = transfer_collection(&config, &mut source, &mut destination, "nowhere", "BAD", "nowhere")
        .expect_err("malformed id");
    assert_eq!(e.reason, Reason::InvalidId);
    assert_eq!(e.kind(), ErrorKind::Validation);
    let e =
        transfer_collection(&config, &mut source, &mut destination, "nowhere", "k2p0stu", "f7h1mno")
            .expect_err("unknown source");
    assert_eq!(e.reason, Reason::VolumeNotFound);
    assert_eq!(e.subject, "nowhere");
    let e =
        transfer_collection(&config, &mut source, &mut destination, "b3x9q2z", "k2p0stu", "nowhere")
            .expect_err("unknown destination");
    assert_eq!(e.reason, Reason::VolumeNotFound);
    assert_eq!(e.subject, "nowhere");
    let e =
        transfer_collection(&config, &mut source, &mut destination, "b3x9q2z", "a1b2c3d", "f7h1mno")
            .expect_err("not in the source");
    assert_eq!(e.reason, Reason::CollectionNotFound);
    assert_eq!(e.kind(), ErrorKind::NotFound);
    assert_eq!(listed(&source), vec![pair("k2p0stu", "photos")]);
    assert!(listed(&destination).is_empty());
}

#[test]
fn the_audit_subject_names_volume_and_collection() {
    assert_eq!(audit_subject("b3x9q2z", "k2p0stu"), "@v:b3x9q2z/c:k2p0stu");
    assert_eq!(audit_subject("", ""), "@v:/c:");
}

#[test]
fn a_failed_creation_names_its_reason_without_any_draw() {
    let config = registry();
    let mut idx = index(&[("k2p0stu", "photos")]);
    for (volume, name, reason, kind) in [
        ("b3x9q2z", "", Reason::InvalidName, ErrorKind::Validation),
        ("nowhere", "Bad", Reason::InvalidName, ErrorKind::Validation),
        ("nowhere", "music", Reason::VolumeNotFound, ErrorKind::NotFound),
        ("b3x9q2z", "photos", Reason::NameTaken, ErrorKind::Conflict),
    ] {
        for _ in 0..20 {
            let e = create_collection(&config, &mut idx, volume, name).expect_err("refused");
            assert_eq!(e.reason, reason);
            assert_eq!(e.kind(), kind);
        }
    }
    assert_eq!(listed(&idx), vec![pair("k2p0stu", "photos")]);
}

#[test]
fn a_minted_collection_id_has_seven_characters() {
    let config = registry();
    let mut idx = index(&[]);
    for n in 0..30 {
        let plan = create_collection(&config, &mut idx, "b3x9q2z", &format!("c{}", n)).expect("free");
        assert_eq!(plan.id.chars().count(), 7);
    }
}

#[test]
fn a_failed_step_ends_the_plan_unless_it_is_a_log_line() {
    let config = registry();
    let mut idx = index(&[("k2p0stu", "photos")]);
    let plan = delete_collection_by_id(&config, &mut idx, "b3x9q2z", "k2p0stu").expect("held");
    // The directory cannot be removed: the plan ends before the index is saved.
    assert!(matches!(&plan.steps[0], CollectionStep::RemoveDirectory { .. }));
    assert_eq!(after_failure(&plan.steps[0]), Next::Stop);
    let e = settle(&plan.steps[0], Err("permission denied".to_string())).expect_err("ends");
    assert_eq!(e.reason, Reason::Io);
    assert_eq!(e.kind(), ErrorKind::Io);
    assert_eq!(e.subject, "permission denied");
    assert!(plan.steps[..1].iter().all(|s| !matches!(s, CollectionStep::SaveIndex { .. })));
    // A save that fails ends the plan too; a log line that fails does not.
    assert_eq!(after_failure(&plan.steps[1]), Next::Stop);
    assert!(settle(&plan.steps[1], Err("disk full".to_string())).is_err());
    assert_eq!(after_failure(&plan.steps[2]), Next::Continue);
    assert!(settle(&plan.steps[2], Err("disk full".to_string())).is_ok());
    for step in &plan.steps {
        assert!(settle(step, Ok(())).is_ok());
    }
    let moved = CollectionStep::MoveDirectory { from: "a".into(), to: "b".into(), name: "c".into() };
    assert_eq!(after_failure(&moved), Next::Stop);
    let made = CollectionStep::CreateDirectory { root: "a".into(), name: "c".into() };
    assert_eq!(after_failure(&made), Next::Stop);
}
