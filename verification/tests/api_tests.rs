use ipelfs::api::{
    get_collections, get_volumes, user_agent_of, post_add_volume, post_create_collection, post_create_volume,
    post_delete_collection, post_delete_volume, post_remove_volume, post_transfer_collection,
    CollectionInput, CollectionTransferInput, DeleteCollectionInput, VolumeInput, VolumeValue,
};
use ipelfs::cli::{
    run, Answer, Cli, Commands, CreateTarget, DeleteTarget, ListTarget, RemoveTarget, WebCommand,
    DEFAULT_PORT,
};
use ipelfs::collection::CollectionIndex;
use ipelfs::error::{ErrorKind, Reason};
use ipelfs::table::PairTable;
use ipelfs::volume::{FullConfig, RootState, Step};

fn table(pairs: &[(&str, &str)]) -> PairTable {
    let mut t = PairTable::new();
    for (k, v) in pairs {
        t.push(k.to_string(), v.to_string());
    }
    t
}

fn registry(pairs: &[(&str, &str)]) -> FullConfig {
    FullConfig::new(Some(table(pairs)), toml::Table::new())
}

fn index(pairs: &[(&str, &str)]) -> CollectionIndex {
    CollectionIndex::new(table(pairs), toml::Table::new())
}

fn ids(config: &FullConfig) -> Vec<String> {
    config.get_volume_map().entries.iter().map(|p| p.key.clone()).collect()
}

#[test]
fn volumes_are_listed_with_id_and_path() {
    let list = get_volumes(&registry(&[("b3x9q2z", "/mnt/a"), ("f7h1mno", "/mnt/b")]));
    assert_eq!(list.volumes.len(), 2);
    assert_eq!(list.volumes[0].id, "b3x9q2z");
    assert_eq!(list.volumes[0].path, "/mnt/a");
    assert_eq!(list.volumes[1].id, "f7h1mno");
    assert_eq!(list.volumes[1].path, "/mnt/b");
    assert!(get_volumes(&registry(&[])).volumes.is_empty());
}

#[test]
fn volume_requests_reach_the_registry() {
    let mut config = registry(&[]);
    let input = VolumeInput { path: "/mnt/a".to_string() };
    let created = post_create_volume(&mut config, &input, &RootState::empty()).expect("empty");
    assert_eq!(ids(&config), vec![created.id.clone()]);
    let text = post_create_volume(
        &mut config,
        &input,
        &RootState { owner: None, lock: None, other_entries: true },
    )
    .expect_err("not empty");
    assert_eq!(text, "directory is not empty: /mnt/a");

    let owned = RootState { owner: Some("k2p0stu".into()), lock: None, other_entries: false };
    let other = VolumeInput { path: "/mnt/k".to_string() };
    let added = post_add_volume(&mut config, &other, &owned).expect("owned, unlocked");
    assert_eq!(added.id, "k2p0stu");
    let text = post_add_volume(&mut config, &other, &owned).expect_err("registered by now");
    assert_eq!(text, "volume ID already registered: k2p0stu");

    let plan = post_remove_volume(&mut config, &VolumeValue { value: "/mnt/k".into() })
        .expect("by path");
    assert_eq!(plan.id, "k2p0stu");
    assert!(plan.steps.iter().all(|s| !matches!(s, Step::RemoveOwnership)));
    let plan = post_delete_volume(&mut config, &VolumeValue { value: created.id.clone() })
        .expect("by id");
    assert_eq!(plan.root, "/mnt/a");
    assert!(plan.steps.iter().any(|s| matches!(s, Step::RemoveOwnership)));
    assert!(ids(&config).is_empty());
    let e = post_remove_volume(&mut config, &VolumeValue { value: "/mnt/k".into() })
        .expect_err("gone");
    assert_eq!(e.reason, Reason::PathNotFound);
}

#[test]
fn collection_requests_reach_the_index() {
    let config = registry(&[("b3x9q2z", "/mnt/a"), ("f7h1mno", "/mnt/b")]);
    let mut idx = index(&[]);
    let input = CollectionInput { name: "photos".to_string() };
    let created = post_create_collection(&config, &mut idx, "b3x9q2z", &input).expect("free");
    let e = post_create_collection(&config, &mut idx, "b3x9q2z", &input).expect_err("taken");
    assert_eq!(e.reason, Reason::NameTaken);

    let list = get_collections(&config, Some(&idx), "b3x9q2z").expect("registered");
    assert_eq!(list.collections.len(), 1);
    assert_eq!(list.collections[0].id, created.id);
    assert_eq!(list.collections[0].name, "photos");
    assert!(get_collections(&config, None, "b3x9q2z").expect("registered").collections.is_empty());
    let e = get_collections(&config, Some(&idx), "nowhere").expect_err("unknown");
    assert_eq!(e.reason, Reason::VolumeNotFound);

    let mut destination = index(&[]);
    let to = CollectionTransferInput { to: "f7h1mno".to_string() };
    let moved =
        post_transfer_collection(&config, &mut idx, &mut destination, "b3x9q2z", &created.id, &to)
            .expect("no collision");
    assert_eq!(moved.id, created.id);
    assert_eq!(idx.collection.len(), 0);
    assert_eq!(destination.collection.get(&created.id).map(|s| s.as_str()), Some("photos"));
}

#[test]
fn a_delete_request_selects_by_id_or_by_name() {
    let config = registry(&[("b3x9q2z", "/mnt/a")]);
    let mut idx = index(&[("k2p0stu", "photos"), ("a1b2c3d", "music")]);
    let by_name = DeleteCollectionInput { value: "photos".into(), by: "name".into() };
    assert_eq!(
        post_delete_collection(&config, &mut idx, "b3x9q2z", &by_name).expect("held").id,
        "k2p0stu"
    );
    let by_id = DeleteCollectionInput { value: "a1b2c3d".into(), by: "id".into() };
    assert_eq!(
        post_delete_collection(&config, &mut idx, "b3x9q2z", &by_id).expect("held").id,
        "a1b2c3d"
    );
    assert_eq!(idx.collection.len(), 0);
}

#[test]
fn a_delete_request_with_another_selector_is_refused() {
    let config = registry(&[("b3x9q2z", "/mnt/a")]);
    let mut idx = index(&[("k2p0stu", "photos")]);
    for by in ["", "ID", "path", "names"] {
        let input = DeleteCollectionInput { value: "k2p0stu".into(), by: by.into() };
        let e = post_delete_collection(&config, &mut idx, "b3x9q2z", &input).expect_err("selector");
        assert_eq!(e.reason, Reason::InvalidSelector);
        assert_eq!(e.kind(), ErrorKind::Validation);
        assert_eq!(e.subject, by);
    }
    assert_eq!(idx.collection.len(), 1);
}

#[test]
fn commands_are_carried_out_on_the_registry() {
    let mut config = registry(&[]);
    let empty = RootState::empty();
    let create = Cli {
        command: Commands::Create { target: CreateTarget::Volume { path: "/mnt/a".into() } },
    };
    let id = match run(&create, &mut config, &empty).expect("an empty root") {
        Answer::Planned(plan) => plan.id,
        other => panic!("unexpected answer {:?}", other),
    };
    let list = Cli { command: Commands::List { target: ListTarget::Volume } };
    match run(&list, &mut config, &empty).expect("listing never fails") {
        Answer::Listed(volumes) => {
            assert_eq!(volumes.len(), 1);
            assert_eq!(*volumes.key_at(0), id);
            assert_eq!(volumes.value_at(0), "/mnt/a");
        }
        other => panic!("unexpected answer {:?}", other),
    }
    let remove = Cli {
        command: Commands::Remove { target: RemoveTarget::Volume { value: "/mnt/a".into() } },
    };
    match run(&remove, &mut config, &empty).expect("registered") {
        Answer::Planned(plan) => assert_eq!(plan.id, id),
        other => panic!("unexpected answer {:?}", other),
    }
    let delete = Cli {
        command: Commands::Delete { target: DeleteTarget::Volume { value: id.clone() } },
    };
    let e = run(&delete, &mut config, &empty).expect_err("released already");
    assert_eq!(e.reason, Reason::VolumeNotFound);
    assert!(matches!(
        run(&Cli { command: Commands::Web(WebCommand { port: 8080 }) }, &mut config, &empty),
        Ok(Answer::Serve(8080))
    ));
    assert_eq!(DEFAULT_PORT, 33330);
    assert!(ids(&config).is_empty());
}

#[test]
fn the_add_command_attaches_an_owned_root() {
    let mut config = registry(&[]);
    let owned = RootState { owner: Some("k2p0stu\n".into()), lock: None, other_entries: true };
    let add = Cli { command: Commands::Add { target: CreateTarget::Volume { path: "/mnt/k".into() } } };
    match run(&add, &mut config, &owned).expect("owned, unlocked") {
        Answer::Planned(plan) => {
            assert_eq!(plan.id, "k2p0stu");
            assert!(plan.steps.iter().any(|s| matches!(s, Step::WriteLock(_))));
        }
        other => panic!("unexpected answer {:?}", other),
    }
    let e = run(&add, &mut config, &owned).expect_err("registered by now");
    assert_eq!(e.reason, Reason::IdRegistered);
}

#[test]
fn the_user_agent_is_the_header_or_nothing() {
    assert_eq!(user_agent_of(Some("curl/8.0")).user_agent, "curl/8.0");
    assert_eq!(user_agent_of(None).user_agent, "");
}
