use skills_hub::errors::SkillError;
use skills_hub::fs_model::{FsModel, FsNode};
use skills_hub::installer::{
    check_skill_updates, delete_managed_skill, install_skill, migrate_central_repo,
    select_candidate, set_central_repo_root, set_skill_source, skill_content_path,
    source_resolution, update_managed_skill_from_source, ResolvedSource,
};
use skills_hub::store::{SkillStore, SkillTargetRecord, TargetStatus};
use skills_hub::SyncMode;

fn s(x: &str) -> String {
    x.to_string()
}

fn resolved(content: u64) -> ResolvedSource {
    ResolvedSource { source_type: s("local"), source_ref: Some(s("/src/demo")), content }
}

fn install_demo(store: &mut SkillStore, fs: &mut FsModel) -> String {
    let res = install_skill(store, fs, &s("/central"), &s("demo"), s("skill-1"), resolved(7), 10)
        .unwrap();
    res.skill_id
}

fn target(skill: &str, tool: &str, path: &str, mode: SyncMode) -> SkillTargetRecord {
    SkillTargetRecord {
        id: s("t"),
        skill_id: s(skill),
        tool: s(tool),
        target_path: s(path),
        mode,
        status: TargetStatus::Synced,
        last_error: None,
        synced_at: Some(5),
    }
}

#[test]
fn install_allocates_central_and_records() {
    let mut store = SkillStore::new();
    let mut fs = FsModel::new();
    let res = install_skill(&mut store, &mut fs, &s("/central"), &s("demo"), s("skill-1"),
        resolved(7), 10)
        .unwrap();
    assert_eq!(res.central_path, "/central/demo");
    assert_eq!(res.content_hash, Some(7));
    match fs.get("/central/demo") {
        Some(FsNode::Dir { content }) => assert_eq!(*content, 7),
        other => panic!("unexpected {:?}", other),
    }
    let rec = store.get_skill_by_id("skill-1").unwrap();
    assert_eq!(rec.name, "demo");
    assert_eq!(rec.central_path, "/central/demo");
    assert_eq!(rec.created_at, 10);
    assert_eq!(rec.status, "active");
}

#[test]
fn install_deduplicates_colliding_central_names() {
    let mut store = SkillStore::new();
    let mut fs = FsModel::new();
    // Something already sits where the name would go.
    fs.set(s("/central/demo"), FsNode::Dir { content: 1 });
    let res = install_skill(&mut store, &mut fs, &s("/central"), &s("demo"), s("skill-1"),
        resolved(7), 10)
        .unwrap();
    assert_eq!(res.central_path, "/central/demo-2");
}

#[test]
fn install_conflicts_on_managed_name() {
    let mut store = SkillStore::new();
    let mut fs = FsModel::new();
    install_demo(&mut store, &mut fs);
    let err = install_skill(&mut store, &mut fs, &s("/central"), &s("demo"), s("skill-2"),
        resolved(8), 11)
        .unwrap_err();
    assert!(matches!(err, SkillError::DestinationConflict { .. }));
}

#[test]
fn candidate_selection_signals_ambiguity() {
    assert!(matches!(
        select_candidate(&Vec::new(), None),
        Err(SkillError::SourceUnavailable { .. })
    ));
    assert_eq!(select_candidate(&vec![s("one")], None).unwrap(), "one");
    let err = select_candidate(&vec![s("one"), s("two")], None).unwrap_err();
    match err {
        SkillError::AmbiguousSelection { candidates } => {
            assert_eq!(candidates, vec![s("one"), s("two")])
        },
        other => panic!("expected AmbiguousSelection, got {:?}", other),
    }
    assert_eq!(select_candidate(&vec![s("one"), s("two")], Some(&s("two"))).unwrap(), "two");
    assert!(select_candidate(&vec![s("one")], Some(&s("zzz"))).is_err());
    assert!(matches!(
        source_resolution(None, s("network down")),
        Err(SkillError::SourceUnavailable { .. })
    ));
}

#[test]
fn unchanged_update_is_a_complete_noop() {
    let mut store = SkillStore::new();
    let mut fs = FsModel::new();
    install_demo(&mut store, &mut fs);
    store.upsert_skill_target(target("skill-1", "alpha", "/tools/a/demo", SyncMode::Copy));
    let before = store.get_skill_by_id("skill-1").unwrap();

    let rep =
        update_managed_skill_from_source(&mut store, &mut fs, &s("skill-1"), 7, None, 999)
            .unwrap();
    assert_eq!(rep.content_hash, Some(7));
    assert!(rep.updated_targets.is_empty());
    let after = store.get_skill_by_id("skill-1").unwrap();
    assert_eq!(after.updated_at, before.updated_at);
    assert_eq!(after.content_hash, Some(7));
}

#[test]
fn changed_update_repushes_copies_and_leaves_links() {
    let mut store = SkillStore::new();
    let mut fs = FsModel::new();
    install_demo(&mut store, &mut fs);
    store.upsert_skill_target(target("skill-1", "copytool", "/tools/c/demo", SyncMode::Copy));
    store.upsert_skill_target(target("skill-1", "linktool", "/tools/l/demo", SyncMode::Symlink));
    fs.set(s("/tools/c/demo"), FsNode::Dir { content: 7 });
    fs.set(s("/tools/l/demo"), FsNode::Symlink { target: s("/central/demo") });

    let rep =
        update_managed_skill_from_source(&mut store, &mut fs, &s("skill-1"), 8, None, 999)
            .unwrap();
    assert_eq!(rep.content_hash, Some(8));
    assert_eq!(rep.updated_targets, vec![s("/tools/c/demo")]);

    // The central copy and the copy-mode destination carry the new
    // content; the link is untouched but reads the new content through.
    assert_eq!(fs.effective_content("/central/demo"), Some(8));
    assert_eq!(fs.effective_content("/tools/c/demo"), Some(8));
    assert_eq!(fs.effective_content("/tools/l/demo"), Some(8));
    match fs.get("/tools/l/demo") {
        Some(FsNode::Symlink { target }) => assert_eq!(target, "/central/demo"),
        other => panic!("the link should be untouched, got {:?}", other),
    }
    let after = store.get_skill_by_id("skill-1").unwrap();
    assert_eq!(after.updated_at, 999);
    assert_eq!(after.content_hash, Some(8));
}

#[test]
fn update_of_unknown_skill_is_not_found() {
    let mut store = SkillStore::new();
    let mut fs = FsModel::new();
    assert!(matches!(
        update_managed_skill_from_source(&mut store, &mut fs, &s("ghost"), 1, None, 0),
        Err(SkillError::NotFound { .. })
    ));
}

#[test]
fn cheap_update_check_degrades_to_unknown() {
    let mut store = SkillStore::new();
    let mut fs = FsModel::new();
    install_demo(&mut store, &mut fs);
    let statuses = check_skill_updates(&store, &vec![Some(9)]);
    assert_eq!(statuses.len(), 1);
    assert_eq!(statuses[0].skill_id, "skill-1");
    assert_eq!(statuses[0].update_available, Some(true));
    let statuses = check_skill_updates(&store, &vec![Some(7)]);
    assert_eq!(statuses[0].update_available, Some(false));
    let statuses = check_skill_updates(&store, &vec![None]);
    assert_eq!(statuses[0].update_available, None);
}

#[test]
fn delete_removes_paths_then_central_then_rows() {
    let mut store = SkillStore::new();
    let mut fs = FsModel::new();
    install_demo(&mut store, &mut fs);
    store.upsert_skill_target(target("skill-1", "alpha", "/tools/a/demo", SyncMode::Symlink));
    fs.set(s("/tools/a/demo"), FsNode::Symlink { target: s("/central/demo") });

    delete_managed_skill(&mut store, &mut fs, &s("skill-1")).unwrap();
    assert!(!fs.contains("/tools/a/demo"));
    assert!(!fs.contains("/central/demo"));
    assert!(store.get_skill_by_id("skill-1").is_none());
    assert!(store.get_skill_target("skill-1", "alpha").is_none());
}

#[test]
fn migration_moves_every_skill_or_nothing() {
    let mut store = SkillStore::new();
    let mut fs = FsModel::new();
    install_demo(&mut store, &mut fs);
    let res = install_skill(&mut store, &mut fs, &s("/central"), &s("other"), s("skill-2"),
        resolved(3), 12)
        .unwrap();
    assert_eq!(res.central_path, "/central/other");

    migrate_central_repo(&mut store, &mut fs, &s("/vault"), 100).unwrap();
    assert!(!fs.contains("/central/demo"));
    assert!(!fs.contains("/central/other"));
    match fs.get("/vault/demo") {
        Some(FsNode::Dir { content }) => assert_eq!(*content, 7),
        other => panic!("unexpected {:?}", other),
    }
    let rec = store.get_skill_by_id("skill-1").unwrap();
    assert_eq!(rec.central_path, "/vault/demo");
    assert_eq!(rec.updated_at, 100);
    assert_eq!(store.get_setting("central_repo_path").unwrap(), "/vault");

    // A second migration onto taken locations changes nothing.
    fs.set(s("/elsewhere/demo"), FsNode::Dir { content: 0 });
    let err = migrate_central_repo(&mut store, &mut fs, &s("/elsewhere"), 101).unwrap_err();
    assert!(matches!(err, SkillError::DestinationConflict { .. }));
    let rec = store.get_skill_by_id("skill-1").unwrap();
    assert_eq!(rec.central_path, "/vault/demo");
}

#[test]
fn registry_installs_record_a_durable_source() {
    let mut store = SkillStore::new();
    let mut fs = FsModel::new();
    install_demo(&mut store, &mut fs);
    let source_ref = skills_hub::clawhub::clawhub_source_ref("demo");
    assert_eq!(source_ref, "clawhub://demo");
    set_skill_source(&mut store, &s("skill-1"), s("clawhub"), Some(source_ref)).unwrap();
    let rec = store.get_skill_by_id("skill-1").unwrap();
    assert_eq!(rec.source_type, "clawhub");
    assert_eq!(rec.source_ref.as_deref(), Some("clawhub://demo"));
    assert!(set_skill_source(&mut store, &s("ghost"), s("x"), None).is_err());
}

#[test]
fn content_preview_path_is_under_the_central_copy() {
    let mut store = SkillStore::new();
    let mut fs = FsModel::new();
    install_demo(&mut store, &mut fs);
    assert_eq!(skill_content_path(&store, &s("skill-1")).unwrap(), "/central/demo/SKILL.md");
    assert!(skill_content_path(&store, &s("ghost")).is_err());
}

#[test]
fn setting_the_unchanged_root_moves_nothing() {
    let mut store = SkillStore::new();
    let mut fs = FsModel::new();
    install_demo(&mut store, &mut fs);
    // The new base equals the current one: only the setting is rewritten.
    set_central_repo_root(&mut store, &mut fs, &s("/central"), &s("/central"), 50).unwrap();
    assert_eq!(store.get_setting("central_repo_path").unwrap(), "/central");
    let rec = store.get_skill_by_id("skill-1").unwrap();
    assert_eq!(rec.central_path, "/central/demo");
    assert_eq!(rec.updated_at, 10);
    assert!(fs.contains("/central/demo"));

    // A different base migrates as usual.
    set_central_repo_root(&mut store, &mut fs, &s("/central"), &s("/vault"), 60).unwrap();
    assert_eq!(store.get_setting("central_repo_path").unwrap(), "/vault");
    assert_eq!(store.get_skill_by_id("skill-1").unwrap().central_path, "/vault/demo");
    assert!(!fs.contains("/central/demo"));
    assert!(fs.contains("/vault/demo"));
}
