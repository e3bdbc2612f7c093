use skills_hub::dto::{
    auth_method_key, dir_entries, get_managed_skills_impl, hash_string, host_status_key, mode_key,
    record_to_dto, record_tool_status, target_status_key, to_install_dto, to_update_dto,
    tool_status,
};
use skills_hub::engine::ToolAdapter;
use skills_hub::installer::{InstallResult, UpdateOutcome};
use skills_hub::store::{
    AuthMethod, HostStatus, ManagedSkillRecord, RemoteHostRecord, SkillStore, SkillTargetRecord,
    TargetStatus,
};
use skills_hub::errors::SkillError;
use skills_hub::SyncMode;

fn s(x: &str) -> String {
    x.to_string()
}

#[test]
fn error_messages_carry_stable_prefixes() {
    let cases: Vec<(SkillError, &str)> = vec![
        (SkillError::SourceUnavailable { detail: s("x") }, "SOURCE_UNAVAILABLE|x"),
        (SkillError::AmbiguousSelection { candidates: vec![s("a")] }, "MULTI_SKILLS|"),
        (SkillError::DestinationConflict { path: s("/p") }, "DESTINATION_CONFLICT|/p"),
        (SkillError::TargetExists { path: s("/p") }, "TARGET_EXISTS|/p"),
        (SkillError::ToolNotInstalled { tool: s("alpha") }, "TOOL_NOT_INSTALLED|alpha"),
        (SkillError::AuthenticationFailed { username: s("u") }, "AUTH_FAILED|u"),
        (SkillError::ConnectionFailed { detail: s("d") }, "CONNECTION_FAILED|d"),
        (
            SkillError::RemoteCommandFailed {
                command: s("false"),
                exit_code: 1,
                stderr: s("boom"),
            },
            "REMOTE_COMMAND_FAILED|boom",
        ),
        (SkillError::AllBatchItemsFailed { failures: vec![s("a")] }, "ALL_ITEMS_FAILED|"),
        (SkillError::StorageInconsistency { detail: s("d") }, "STORAGE_INCONSISTENCY|d"),
        (SkillError::NotFound { what: s("w") }, "NOT_FOUND|w"),
        (SkillError::InvalidInput { detail: s("d") }, "INVALID_INPUT|d"),
    ];
    for (err, expected) in cases {
        assert_eq!(err.message(), expected);
    }
}

#[test]
fn keys_are_stable() {
    assert_eq!(mode_key(SyncMode::Auto), "auto");
    assert_eq!(mode_key(SyncMode::Symlink), "symlink");
    assert_eq!(mode_key(SyncMode::Junction), "junction");
    assert_eq!(mode_key(SyncMode::Copy), "copy");
    assert_eq!(target_status_key(TargetStatus::Synced), "ok");
    assert_eq!(target_status_key(TargetStatus::Failed), "error");
    assert_eq!(host_status_key(HostStatus::Idle), "idle");
    assert_eq!(host_status_key(HostStatus::Syncing), "syncing");
    assert_eq!(host_status_key(HostStatus::SyncOk), "ok");
    assert_eq!(host_status_key(HostStatus::SyncError), "error");
    assert_eq!(auth_method_key(AuthMethod::KeyFile), "key");
    assert_eq!(auth_method_key(AuthMethod::Agent), "agent");
    assert_eq!(hash_string(Some(42)).as_deref(), Some("42"));
    assert_eq!(hash_string(None), None);
}

#[test]
fn install_and_update_results_render() {
    let dto = to_install_dto(InstallResult {
        skill_id: s("skill-1"),
        name: s("demo"),
        central_path: s("/central/demo"),
        content_hash: Some(7),
    });
    assert_eq!(dto.skill_id, "skill-1");
    assert_eq!(dto.content_hash.as_deref(), Some("7"));

    let dto = to_update_dto(UpdateOutcome {
        skill_id: s("skill-1"),
        name: s("demo"),
        content_hash: Some(8),
        source_revision: Some(s("abc")),
        updated_targets: vec![s("/tools/c/demo")],
    });
    assert_eq!(dto.content_hash.as_deref(), Some("8"));
    assert_eq!(dto.updated_targets, vec![s("/tools/c/demo")]);
}

#[test]
fn host_records_render() {
    let dto = record_to_dto(RemoteHostRecord {
        id: s("h1"),
        label: s("lab"),
        host: s("lab.example"),
        port: 22,
        username: s("u"),
        auth_method: AuthMethod::Agent,
        key_path: None,
        created_at: 1,
        updated_at: 2,
        last_sync_at: Some(3),
        status: HostStatus::SyncOk,
    });
    assert_eq!(dto.auth_method, "agent");
    assert_eq!(dto.status, "ok");
    assert_eq!(dto.port, 22);
}

#[test]
fn managed_skills_carry_their_targets() {
    let mut store = SkillStore::new();
    store.upsert_skill(ManagedSkillRecord {
        id: s("skill-1"),
        name: s("demo"),
        source_type: s("local"),
        source_ref: None,
        central_path: s("/central/demo"),
        content_hash: Some(7),
        created_at: 1,
        updated_at: 2,
        last_sync_at: None,
        status: s("active"),
    });
    store.upsert_skill_target(SkillTargetRecord {
        id: s("t1"),
        skill_id: s("skill-1"),
        tool: s("alpha"),
        target_path: s("/tools/a/demo"),
        mode: SyncMode::Symlink,
        status: TargetStatus::Synced,
        last_error: None,
        synced_at: Some(9),
    });
    let dtos = get_managed_skills_impl(&store);
    assert_eq!(dtos.len(), 1);
    assert_eq!(dtos[0].id, "skill-1");
    assert_eq!(dtos[0].targets.len(), 1);
    assert_eq!(dtos[0].targets[0].tool, "alpha");
    assert_eq!(dtos[0].targets[0].mode, "symlink");
    assert_eq!(dtos[0].targets[0].status, "ok");
    assert_eq!(dtos[0].targets[0].synced_at, Some(9));
}

#[test]
fn tool_status_reports_newly_installed() {
    let adapters = vec![
        ToolAdapter {
            key: s("alpha"),
            label: s("Alpha"),
            skills_dir: s("/tools/a"),
            detect_dir: s(".a"),
            installed: true,
        },
        ToolAdapter {
            key: s("beta"),
            label: s("Beta"),
            skills_dir: s("/tools/b"),
            detect_dir: s(".b"),
            installed: true,
        },
        ToolAdapter {
            key: s("gamma"),
            label: s("Gamma"),
            skills_dir: s("/tools/g"),
            detect_dir: s(".g"),
            installed: false,
        },
    ];
    let status = tool_status(&adapters, &vec![s("alpha")]);
    assert_eq!(status.tools.len(), 3);
    assert_eq!(status.installed, vec![s("alpha"), s("beta")]);
    assert_eq!(status.newly_installed, vec![s("beta")]);
}

#[test]
fn browsed_directories_are_directories() {
    let entries = dir_entries(vec![s("projects"), s("skills")]);
    assert_eq!(entries.len(), 2);
    assert_eq!(entries[0].name, "projects");
    assert!(entries[0].isDir);
}

#[test]
fn recording_the_installed_set_quiets_the_next_look() {
    let mut store = SkillStore::new();
    let adapters = vec![
        ToolAdapter {
            key: s("alpha"),
            label: s("Alpha"),
            skills_dir: s("/tools/a"),
            detect_dir: s(".a"),
            installed: true,
        },
        ToolAdapter {
            key: s("beta"),
            label: s("Beta"),
            skills_dir: s("/tools/b"),
            detect_dir: s(".b"),
            installed: true,
        },
    ];
    // First look: everything installed is new, and the set is recorded.
    let first = record_tool_status(&mut store, &adapters);
    assert_eq!(first.installed, vec![s("alpha"), s("beta")]);
    assert_eq!(first.newly_installed, vec![s("alpha"), s("beta")]);
    assert_eq!(store.get_setting("installed_tools_v1").unwrap(), "alpha\nbeta");
    // A repeat look at the same landscape reports nothing newly installed.
    let second = record_tool_status(&mut store, &adapters);
    assert_eq!(second.installed, vec![s("alpha"), s("beta")]);
    assert!(second.newly_installed.is_empty());
    // A tool appearing afterwards is the only new one.
    let mut grown = adapters.clone();
    grown.push(ToolAdapter {
        key: s("gamma"),
        label: s("Gamma"),
        skills_dir: s("/tools/g"),
        detect_dir: s(".g"),
        installed: true,
    });
    let third = record_tool_status(&mut store, &grown);
    assert_eq!(third.newly_installed, vec![s("gamma")]);
}
