use skills_hub::errors::SkillError;
use skills_hub::fs_model::{FsModel, FsNode};
use skills_hub::remote::add_remote_host;
use skills_hub::store::{AuthMethod, SkillStore};
use skills_hub::targets::{
    add_custom_target, custom_target_key, delete_custom_target, sync_skill_to_custom_target,
    unsync_skill_from_custom_target,
};
use skills_hub::{FsCapabilities, SyncMode};

fn s(x: &str) -> String {
    x.to_string()
}

fn caps() -> FsCapabilities {
    FsCapabilities { symlink: true, junction: false }
}

fn store_with_host() -> SkillStore {
    let mut store = SkillStore::new();
    add_remote_host(
        &mut store,
        s("h1"),
        s("lab"),
        s("lab.example"),
        22,
        s("u"),
        AuthMethod::KeyFile,
        None,
        1,
    )
    .unwrap();
    store
}

#[test]
fn custom_target_paths_are_validated() {
    let mut store = store_with_host();
    // A local path is expanded against home and must be absolute.
    let rec = add_custom_target(
        &mut store,
        s("ct1"),
        s("notes"),
        &s("~/notes"),
        None,
        &s("/home/u"),
        5,
    )
    .unwrap();
    assert_eq!(rec.path, "/home/u/notes");
    assert!(matches!(
        add_custom_target(&mut store, s("ct2"), s("bad"), &s("rel"), None, &s("/home/u"), 5),
        Err(SkillError::InvalidInput { .. })
    ));
    // A remote path must be absolute and its host known.
    assert!(matches!(
        add_custom_target(
            &mut store,
            s("ct3"),
            s("r"),
            &s("rel"),
            Some(s("h1")),
            &s("/home/u"),
            5,
        ),
        Err(SkillError::InvalidInput { .. })
    ));
    assert!(matches!(
        add_custom_target(
            &mut store,
            s("ct4"),
            s("r"),
            &s("/srv"),
            Some(s("ghost")),
            &s("/home/u"),
            5,
        ),
        Err(SkillError::NotFound { .. })
    ));
    let rec = add_custom_target(
        &mut store,
        s("ct5"),
        s("r"),
        &s("/srv/skills"),
        Some(s("h1")),
        &s("/home/u"),
        5,
    )
    .unwrap();
    assert_eq!(rec.path, "/srv/skills");
}

#[test]
fn local_custom_target_sync_and_unsync() {
    let mut store = store_with_host();
    let mut fs = FsModel::new();
    let mut rfs = FsModel::new();
    fs.set(s("/central/demo"), FsNode::Dir { content: 7 });
    add_custom_target(&mut store, s("ct1"), s("notes"), &s("/dest"), None, &s("/home/u"), 5)
        .unwrap();

    let out = sync_skill_to_custom_target(
        &mut store,
        &mut fs,
        &mut rfs,
        caps(),
        &s("/central/demo"),
        &s("skill-1"),
        &s("ct1"),
        &s("demo"),
        false,
        &s("/rhome"),
        100,
    )
    .unwrap();
    assert_eq!(out.mode_used, SyncMode::Symlink);
    assert_eq!(out.target_path, "/dest/demo");
    match fs.get("/dest/demo") {
        Some(FsNode::Symlink { target }) => assert_eq!(target, "/central/demo"),
        other => panic!("unexpected {:?}", other),
    }
    let key = custom_target_key("ct1");
    let rec = store.get_skill_target("skill-1", key.as_str()).unwrap();
    assert_eq!(rec.target_path, "/dest/demo");
    assert_eq!(rec.synced_at, Some(100));

    // Re-sync without overwrite conflicts; with overwrite it goes
    // through.
    let err = sync_skill_to_custom_target(
        &mut store,
        &mut fs,
        &mut rfs,
        caps(),
        &s("/central/demo"),
        &s("skill-1"),
        &s("ct1"),
        &s("demo"),
        false,
        &s("/rhome"),
        101,
    )
    .unwrap_err();
    match &err {
        SkillError::TargetExists { path } => assert_eq!(path, "/dest/demo"),
        other => panic!("expected TargetExists, got {:?}", other),
    }
    assert_eq!(err.message(), "TARGET_EXISTS|/dest/demo");
    // No record field moved under the conflict.
    let rec = store.get_skill_target("skill-1", key.as_str()).unwrap();
    assert_eq!(rec.synced_at, Some(100));
    sync_skill_to_custom_target(
        &mut store,
        &mut fs,
        &mut rfs,
        caps(),
        &s("/central/demo"),
        &s("skill-1"),
        &s("ct1"),
        &s("demo"),
        true,
        &s("/rhome"),
        102,
    )
    .unwrap();

    unsync_skill_from_custom_target(&mut store, &mut fs, &mut rfs, &s("skill-1"), &s("ct1"))
        .unwrap();
    assert!(!fs.contains("/dest/demo"));
    assert!(store.get_skill_target("skill-1", key.as_str()).is_none());
}

#[test]
fn remote_custom_target_stages_and_links() {
    let mut store = store_with_host();
    let mut fs = FsModel::new();
    let mut rfs = FsModel::new();
    fs.set(s("/central/demo"), FsNode::Dir { content: 7 });
    add_custom_target(
        &mut store,
        s("ct1"),
        s("srv"),
        &s("/srv/skills"),
        Some(s("h1")),
        &s("/home/u"),
        5,
    )
    .unwrap();

    let out = sync_skill_to_custom_target(
        &mut store,
        &mut fs,
        &mut rfs,
        caps(),
        &s("/central/demo"),
        &s("skill-1"),
        &s("ct1"),
        &s("demo"),
        false,
        &s("/rhome"),
        100,
    )
    .unwrap();
    assert_eq!(out.mode_used, SyncMode::Symlink);
    assert_eq!(out.target_path, "/srv/skills/demo");
    match rfs.get("/rhome/.skillshub/demo") {
        Some(FsNode::Dir { content }) => assert_eq!(*content, 7),
        other => panic!("unexpected {:?}", other),
    }
    match rfs.get("/srv/skills/demo") {
        Some(FsNode::Symlink { target }) => assert_eq!(target, "/rhome/.skillshub/demo"),
        other => panic!("unexpected {:?}", other),
    }

    unsync_skill_from_custom_target(&mut store, &mut fs, &mut rfs, &s("skill-1"), &s("ct1"))
        .unwrap();
    assert!(!rfs.contains("/srv/skills/demo"));
    let key = custom_target_key("ct1");
    assert!(store.get_skill_target("skill-1", key.as_str()).is_none());
}

#[test]
fn deleting_a_custom_target_cleans_every_pairing() {
    let mut store = store_with_host();
    let mut fs = FsModel::new();
    let mut rfs = FsModel::new();
    fs.set(s("/central/demo"), FsNode::Dir { content: 7 });
    fs.set(s("/central/other"), FsNode::Dir { content: 8 });
    add_custom_target(&mut store, s("ct1"), s("notes"), &s("/dest"), None, &s("/home/u"), 5)
        .unwrap();
    for (skill, src, name) in [
        ("skill-1", "/central/demo", "demo"),
        ("skill-2", "/central/other", "other"),
    ] {
        sync_skill_to_custom_target(
            &mut store,
            &mut fs,
            &mut rfs,
            caps(),
            &s(src),
            &s(skill),
            &s("ct1"),
            &s(name),
            false,
            &s("/rhome"),
            100,
        )
        .unwrap();
    }
    delete_custom_target(&mut store, &mut fs, &s("ct1")).unwrap();
    assert!(!fs.contains("/dest/demo"));
    assert!(!fs.contains("/dest/other"));
    assert!(store.get_custom_target_by_id("ct1").is_none());
    let key = custom_target_key("ct1");
    assert!(store.get_skill_target("skill-1", key.as_str()).is_none());
    assert!(store.get_skill_target("skill-2", key.as_str()).is_none());
}

#[test]
fn unsync_from_a_remote_custom_target_touches_only_the_remote_side() {
    let mut store = store_with_host();
    let mut fs = FsModel::new();
    let mut rfs = FsModel::new();
    fs.set(s("/central/demo"), FsNode::Dir { content: 7 });
    add_custom_target(
        &mut store,
        s("ct1"),
        s("srv"),
        &s("/srv/skills"),
        Some(s("h1")),
        &s("/home/u"),
        5,
    )
    .unwrap();
    sync_skill_to_custom_target(
        &mut store,
        &mut fs,
        &mut rfs,
        caps(),
        &s("/central/demo"),
        &s("skill-1"),
        &s("ct1"),
        &s("demo"),
        false,
        &s("/rhome"),
        100,
    )
    .unwrap();
    // A local entry at the same path must survive a remote unsync.
    fs.set(s("/srv/skills/demo"), FsNode::Dir { content: 1 });
    unsync_skill_from_custom_target(&mut store, &mut fs, &mut rfs, &s("skill-1"), &s("ct1"))
        .unwrap();
    assert!(!rfs.contains("/srv/skills/demo"));
    assert!(fs.contains("/srv/skills/demo"));
}
