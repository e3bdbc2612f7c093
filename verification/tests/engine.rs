use skills_hub::engine::{
    sync_dir_hybrid, sync_dir_hybrid_with_overwrite, sync_skill_to_tool, unsync_skill_from_tool,
    ToolAdapter,
};
use skills_hub::errors::SkillError;
use skills_hub::fs_model::{FsModel, FsNode};
use skills_hub::store::{SkillStore, TargetStatus};
use skills_hub::{choose_mode, FsCapabilities, SyncMode};

fn s(x: &str) -> String {
    x.to_string()
}

fn fs_with_source() -> FsModel {
    let mut fs = FsModel::new();
    fs.set(s("/central/demo"), FsNode::Dir { content: 7 });
    fs
}

fn adapters() -> Vec<ToolAdapter> {
    vec![
        ToolAdapter {
            key: s("alpha"),
            label: s("Alpha"),
            skills_dir: s("/tools/shared"),
            detect_dir: s(".alpha"),
            installed: true,
        },
        ToolAdapter {
            key: s("beta"),
            label: s("Beta"),
            skills_dir: s("/tools/shared"),
            detect_dir: s(".beta"),
            installed: true,
        },
        ToolAdapter {
            key: s("gamma"),
            label: s("Gamma"),
            skills_dir: s("/tools/gamma"),
            detect_dir: s(".gamma"),
            installed: false,
        },
    ]
}

#[test]
fn auto_mode_walks_the_strategy_chain() {
    let all = FsCapabilities { symlink: true, junction: true };
    let no_symlink = FsCapabilities { symlink: false, junction: true };
    let copy_only = FsCapabilities { symlink: false, junction: false };
    assert_eq!(choose_mode(SyncMode::Auto, all), SyncMode::Symlink);
    assert_eq!(choose_mode(SyncMode::Auto, no_symlink), SyncMode::Junction);
    assert_eq!(choose_mode(SyncMode::Auto, copy_only), SyncMode::Copy);
    assert_eq!(choose_mode(SyncMode::Copy, all), SyncMode::Copy);
}

#[test]
fn reported_mode_matches_destination_link_type() {
    // Symlink-capable destination: the entry is a symlink to the source.
    let mut fs = fs_with_source();
    let caps = FsCapabilities { symlink: true, junction: false };
    let out =
        sync_dir_hybrid(&mut fs, caps, &s("/central/demo"), &s("/tools/alpha/demo")).unwrap();
    assert_eq!(out.mode_used, SyncMode::Symlink);
    match fs.get("/tools/alpha/demo") {
        Some(FsNode::Symlink { target }) => assert_eq!(target, "/central/demo"),
        other => panic!("expected a symlink, got {:?}", other),
    }

    // Junction fallback.
    let mut fs = fs_with_source();
    let caps = FsCapabilities { symlink: false, junction: true };
    let out =
        sync_dir_hybrid(&mut fs, caps, &s("/central/demo"), &s("/tools/alpha/demo")).unwrap();
    assert_eq!(out.mode_used, SyncMode::Junction);
    match fs.get("/tools/alpha/demo") {
        Some(FsNode::Junction { target }) => assert_eq!(target, "/central/demo"),
        other => panic!("expected a junction, got {:?}", other),
    }

    // Full copy fallback carries the source's content.
    let mut fs = fs_with_source();
    let caps = FsCapabilities { symlink: false, junction: false };
    let out =
        sync_dir_hybrid(&mut fs, caps, &s("/central/demo"), &s("/tools/alpha/demo")).unwrap();
    assert_eq!(out.mode_used, SyncMode::Copy);
    match fs.get("/tools/alpha/demo") {
        Some(FsNode::Dir { content }) => assert_eq!(*content, 7),
        other => panic!("expected a copied directory, got {:?}", other),
    }
}

#[test]
fn overwrite_policy_is_explicit() {
    let caps = FsCapabilities { symlink: true, junction: false };
    let mut fs = fs_with_source();
    fs.set(s("/tools/alpha/demo"), FsNode::Dir { content: 99 });

    // Without overwrite: a distinguished conflict carrying the path.
    let err = sync_dir_hybrid_with_overwrite(
        &mut fs,
        caps,
        &s("/central/demo"),
        &s("/tools/alpha/demo"),
        false,
    )
    .unwrap_err();
    match &err {
        SkillError::TargetExists { path } => assert_eq!(path, "/tools/alpha/demo"),
        other => panic!("expected TargetExists, got {:?}", other),
    }
    assert!(err.message().starts_with("TARGET_EXISTS|"));
    // The stale destination is untouched.
    match fs.get("/tools/alpha/demo") {
        Some(FsNode::Dir { content }) => assert_eq!(*content, 99),
        other => panic!("unexpected {:?}", other),
    }

    // With overwrite: the destination is replaced.
    let out = sync_dir_hybrid_with_overwrite(
        &mut fs,
        caps,
        &s("/central/demo"),
        &s("/tools/alpha/demo"),
        true,
    )
    .unwrap();
    assert_eq!(out.mode_used, SyncMode::Symlink);
    match fs.get("/tools/alpha/demo") {
        Some(FsNode::Symlink { target }) => assert_eq!(target, "/central/demo"),
        other => panic!("expected a symlink, got {:?}", other),
    }
}

#[test]
fn shared_destination_group_gets_one_record_each() {
    let mut store = SkillStore::new();
    let mut fs = fs_with_source();
    let caps = FsCapabilities { symlink: true, junction: false };
    let adapters = adapters();

    let out = sync_skill_to_tool(
        &mut store,
        &mut fs,
        &adapters,
        caps,
        &s("/central/demo"),
        &s("skill-1"),
        &s("demo"),
        &s("alpha"),
        false,
        1000,
    )
    .unwrap();
    assert_eq!(out.target_path, "/tools/shared/demo");

    // Both installed adapters of the shared directory got a record with
    // the identical path and mode; the uninstalled one got none.
    let ta = store.get_skill_target("skill-1", "alpha").unwrap();
    let tb = store.get_skill_target("skill-1", "beta").unwrap();
    assert!(store.get_skill_target("skill-1", "gamma").is_none());
    assert_eq!(ta.target_path, tb.target_path);
    assert_eq!(ta.target_path, "/tools/shared/demo");
    assert_eq!(ta.mode, tb.mode);
    assert_eq!(ta.mode, SyncMode::Symlink);
    assert_eq!(ta.status, TargetStatus::Synced);
    assert_eq!(ta.synced_at, Some(1000));

    // Only one physical write occurred.
    assert!(fs.contains("/tools/shared/demo"));
}

#[test]
fn sync_to_unknown_or_missing_tool_fails() {
    let mut store = SkillStore::new();
    let mut fs = fs_with_source();
    let caps = FsCapabilities { symlink: true, junction: false };
    let adapters = adapters();

    let err = sync_skill_to_tool(
        &mut store,
        &mut fs,
        &adapters,
        caps,
        &s("/central/demo"),
        &s("skill-1"),
        &s("demo"),
        &s("nope"),
        false,
        0,
    )
    .unwrap_err();
    assert!(matches!(err, SkillError::NotFound { .. }));

    let err = sync_skill_to_tool(
        &mut store,
        &mut fs,
        &adapters,
        caps,
        &s("/central/demo"),
        &s("skill-1"),
        &s("demo"),
        &s("gamma"),
        false,
        0,
    )
    .unwrap_err();
    match &err {
        SkillError::ToolNotInstalled { tool } => assert_eq!(tool, "gamma"),
        other => panic!("expected ToolNotInstalled, got {:?}", other),
    }
    assert!(err.message().starts_with("TOOL_NOT_INSTALLED|"));
}

#[test]
fn unsync_after_sync_leaves_nothing() {
    let mut store = SkillStore::new();
    let mut fs = fs_with_source();
    let caps = FsCapabilities { symlink: true, junction: false };
    let adapters = adapters();

    sync_skill_to_tool(
        &mut store,
        &mut fs,
        &adapters,
        caps,
        &s("/central/demo"),
        &s("skill-1"),
        &s("demo"),
        &s("alpha"),
        false,
        1000,
    )
    .unwrap();
    assert!(fs.contains("/tools/shared/demo"));

    unsync_skill_from_tool(&mut store, &mut fs, &adapters, &s("skill-1"), &s("beta")).unwrap();
    assert!(!fs.contains("/tools/shared/demo"));
    assert!(store.get_skill_target("skill-1", "alpha").is_none());
    assert!(store.get_skill_target("skill-1", "beta").is_none());
    // The central copy is untouched.
    assert!(fs.contains("/central/demo"));
}

#[test]
fn unsync_is_idempotent_even_after_manual_deletion() {
    let mut store = SkillStore::new();
    let mut fs = fs_with_source();
    let caps = FsCapabilities { symlink: true, junction: false };
    let adapters = adapters();

    sync_skill_to_tool(
        &mut store,
        &mut fs,
        &adapters,
        caps,
        &s("/central/demo"),
        &s("skill-1"),
        &s("demo"),
        &s("alpha"),
        false,
        1000,
    )
    .unwrap();
    // The destination is deleted by hand first.
    fs.remove("/tools/shared/demo");

    unsync_skill_from_tool(&mut store, &mut fs, &adapters, &s("skill-1"), &s("alpha")).unwrap();
    assert!(!fs.contains("/tools/shared/demo"));
    assert!(store.get_skill_target("skill-1", "alpha").is_none());
    assert!(store.get_skill_target("skill-1", "beta").is_none());

    // A second unsync is a no-op.
    unsync_skill_from_tool(&mut store, &mut fs, &adapters, &s("skill-1"), &s("alpha")).unwrap();
    assert!(store.get_skill_target("skill-1", "alpha").is_none());
}

#[test]
fn unsync_cleans_up_even_when_no_group_member_is_installed() {
    let mut store = SkillStore::new();
    let mut fs = fs_with_source();
    // The record must die together with the path it describes, whether or
    // not any adapter of the group is still installed.
    store.upsert_skill_target(skills_hub::store::SkillTargetRecord {
        id: s("t"),
        skill_id: s("skill-1"),
        tool: s("gamma"),
        target_path: s("/tools/gamma/demo"),
        mode: SyncMode::Copy,
        status: TargetStatus::Synced,
        last_error: None,
        synced_at: None,
    });
    fs.set(s("/tools/gamma/demo"), FsNode::Dir { content: 7 });
    unsync_skill_from_tool(&mut store, &mut fs, &adapters(), &s("skill-1"), &s("gamma")).unwrap();
    assert!(store.get_skill_target("skill-1", "gamma").is_none());
    assert!(!fs.contains("/tools/gamma/demo"));
}
