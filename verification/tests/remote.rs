use skills_hub::engine::ToolAdapter;
use skills_hub::errors::SkillError;
use skills_hub::fs_model::{FsModel, FsNode};
use skills_hub::remote::{
    add_remote_host, apply_remote_mkdir_p, apply_remote_symlink, apply_upload_dir,
    begin_remote_sync, central_path_for, command_outcome, detect_tools_command, echo_home_command,
    filter_skills_by_ids, find_dirs_command, finish_remote_sync, list_skills_command,
    ln_sfn_command, mkdir_failure_absorbed, mkdir_p_command, note_remote_list_success,
    parse_detect_output, parse_name_list, resolve_browse_path, rm_rf_command,
    session_auth_outcome, sync_all_skills_to_remote, sync_skill_to_remote_tool, tool_skill_path,
    update_remote_host, upload_plan, UploadAction, WalkEntry,
};
use skills_hub::store::{AuthMethod, HostStatus, ManagedSkillRecord, SkillStore};

fn s(x: &str) -> String {
    x.to_string()
}

fn adapters() -> Vec<ToolAdapter> {
    vec![
        ToolAdapter {
            key: s("alpha"),
            label: s("Alpha"),
            skills_dir: s(".alpha/skills"),
            detect_dir: s(".alpha"),
            installed: true,
        },
        ToolAdapter {
            key: s("beta"),
            label: s("Beta"),
            skills_dir: s(".beta/skills"),
            detect_dir: s(".beta"),
            installed: false,
        },
    ]
}

#[test]
fn commands_are_exact() {
    assert_eq!(echo_home_command(), "echo $HOME");
    assert_eq!(mkdir_p_command("/home/u/.skillshub"), "mkdir -p '/home/u/.skillshub'");
    assert_eq!(
        ln_sfn_command("/home/u/.skillshub/demo", "/home/u/.alpha/skills/demo"),
        "ln -sfn '/home/u/.skillshub/demo' '/home/u/.alpha/skills/demo'"
    );
    assert_eq!(rm_rf_command("/tmp/x"), "rm -rf '/tmp/x'");
    assert_eq!(list_skills_command(), "ls -1 ~/.skillshub/ 2>/dev/null || true");
    assert_eq!(
        find_dirs_command("/home/u"),
        "find '/home/u' -maxdepth 1 -mindepth 1 -type d -printf '%f\\n' 2>/dev/null | sort"
    );
    assert_eq!(
        detect_tools_command(&adapters()),
        "[ -d ~/.alpha ] && echo 'EXISTS:alpha' || echo 'MISSING:alpha' ; \
         [ -d ~/.beta ] && echo 'EXISTS:beta' || echo 'MISSING:beta'"
    );
}

#[test]
fn paths_are_exact() {
    assert_eq!(central_path_for("/home/u", "demo"), "/home/u/.skillshub/demo");
    assert_eq!(tool_skill_path("/home/u", ".alpha/skills", "demo"), "/home/u/.alpha/skills/demo");
    assert_eq!(resolve_browse_path(None, "/home/u"), "/home/u");
    assert_eq!(resolve_browse_path(Some(&s("~")), "/home/u"), "/home/u");
    assert_eq!(resolve_browse_path(Some(&s("~/dir")), "/home/u"), "/home/u/dir");
    assert_eq!(resolve_browse_path(Some(&s("/opt")), "/home/u"), "/opt");
}

#[test]
fn command_outcomes_carry_diagnostics() {
    assert_eq!(command_outcome(s("echo ok"), 0, s("ok\n"), s("")).unwrap(), "ok\n");
    let err = command_outcome(s("false"), 1, s(""), s("boom")).unwrap_err();
    match err {
        SkillError::RemoteCommandFailed { command, exit_code, stderr } => {
            assert_eq!(command, "false");
            assert_eq!(exit_code, 1);
            assert_eq!(stderr, "boom");
        },
        other => panic!("unexpected {:?}", other),
    }
    assert!(mkdir_failure_absorbed(4, false));
    assert!(mkdir_failure_absorbed(11, false));
    assert!(mkdir_failure_absorbed(2, true));
    assert!(!mkdir_failure_absorbed(2, false));
    assert!(session_auth_outcome(true, &s("u")).is_ok());
    assert!(matches!(
        session_auth_outcome(false, &s("u")),
        Err(SkillError::AuthenticationFailed { .. })
    ));
}

#[test]
fn listings_are_trimmed_and_filtered() {
    let names = parse_name_list("demo\n other \n\nlast\n");
    assert_eq!(names, vec![s("demo"), s("other"), s("last")]);
    assert_eq!(parse_name_list(""), Vec::<String>::new());
}

#[test]
fn detection_output_maps_to_registry_entries() {
    let out = parse_detect_output(
        "EXISTS:alpha\nMISSING:beta\nEXISTS:unknown\nnoise\n",
        &adapters(),
    );
    assert_eq!(out.len(), 2);
    assert_eq!(out[0].key, "alpha");
    assert_eq!(out[0].label, "Alpha");
    assert!(out[0].installed);
    assert_eq!(out[1].key, "beta");
    assert!(!out[1].installed);
}

#[test]
fn remote_symlink_creation_is_idempotent() {
    let mut rfs = FsModel::new();
    let staged = s("/home/u/.skillshub/demo");
    let dest = s("/home/u/.alpha/skills/demo");
    apply_remote_symlink(&mut rfs, &staged, &dest);
    match rfs.get("/home/u/.alpha/skills/demo") {
        Some(FsNode::Symlink { target }) => assert_eq!(target, "/home/u/.skillshub/demo"),
        other => panic!("expected a symlink, got {:?}", other),
    }
    // The second invocation leaves exactly one link, still pointing at
    // the staged source, with no error.
    apply_remote_symlink(&mut rfs, &staged, &dest);
    match rfs.get("/home/u/.alpha/skills/demo") {
        Some(FsNode::Symlink { target }) => assert_eq!(target, "/home/u/.skillshub/demo"),
        other => panic!("expected a symlink, got {:?}", other),
    }
    // It also replaces a link that pointed elsewhere.
    let other_staged = s("/home/u/.skillshub/renamed");
    apply_remote_symlink(&mut rfs, &other_staged, &dest);
    match rfs.get("/home/u/.alpha/skills/demo") {
        Some(FsNode::Symlink { target }) => assert_eq!(target, "/home/u/.skillshub/renamed"),
        other => panic!("expected a symlink, got {:?}", other),
    }
}

#[test]
fn upload_requires_the_local_source() {
    let mut rfs = FsModel::new();
    let mut local = FsModel::new();
    local.set(s("/central/demo"), FsNode::Dir { content: 5 });
    apply_upload_dir(&mut rfs, &local, &s("/central/demo"), &s("/home/u/.skillshub/demo"))
        .unwrap();
    match rfs.get("/home/u/.skillshub/demo") {
        Some(FsNode::Dir { content }) => assert_eq!(*content, 5),
        other => panic!("unexpected {:?}", other),
    }
    assert!(matches!(
        apply_upload_dir(&mut rfs, &local, &s("/central/ghost"), &s("/home/u/.skillshub/ghost")),
        Err(SkillError::SourceUnavailable { .. })
    ));
    assert!(!rfs.contains("/home/u/.skillshub/ghost"));
}

#[test]
fn per_skill_remote_sync_stages_and_links() {
    let mut rfs = FsModel::new();
    let mut local = FsModel::new();
    local.set(s("/central/demo"), FsNode::Dir { content: 5 });
    sync_skill_to_remote_tool(
        &mut rfs,
        &local,
        &adapters(),
        &s("/home/u"),
        &s("demo"),
        &s("/central/demo"),
        &s("alpha"),
    )
    .unwrap();
    match rfs.get("/home/u/.skillshub/demo") {
        Some(FsNode::Dir { content }) => assert_eq!(*content, 5),
        other => panic!("unexpected {:?}", other),
    }
    match rfs.get("/home/u/.alpha/skills/demo") {
        Some(FsNode::Symlink { target }) => assert_eq!(target, "/home/u/.skillshub/demo"),
        other => panic!("unexpected {:?}", other),
    }
}

#[test]
fn batch_sync_skips_missing_sources_without_aborting() {
    let mut rfs = FsModel::new();
    let mut local = FsModel::new();
    local.set(s("/central/one"), FsNode::Dir { content: 1 });
    local.set(s("/central/three"), FsNode::Dir { content: 3 });
    // Skill two's local source directory is missing.
    let skills = vec![
        (s("one"), s("/central/one")),
        (s("two"), s("/central/two")),
        (s("three"), s("/central/three")),
    ];
    let synced = sync_all_skills_to_remote(
        &mut rfs,
        &local,
        &skills,
        &vec![true, true, true],
        &vec![s("alpha")],
        &adapters(),
        &s("/home/u"),
    )
    .unwrap();
    assert_eq!(synced, vec![s("one"), s("three")]);
    assert!(rfs.contains("/home/u/.skillshub/one"));
    assert!(!rfs.contains("/home/u/.skillshub/two"));
    assert!(rfs.contains("/home/u/.skillshub/three"));
    match rfs.get("/home/u/.alpha/skills/three") {
        Some(FsNode::Symlink { target }) => assert_eq!(target, "/home/u/.skillshub/three"),
        other => panic!("unexpected {:?}", other),
    }
}

#[test]
fn batch_sync_fails_only_when_every_item_failed() {
    let mut rfs = FsModel::new();
    let mut local = FsModel::new();
    local.set(s("/central/one"), FsNode::Dir { content: 1 });
    local.set(s("/central/two"), FsNode::Dir { content: 2 });
    let skills = vec![(s("one"), s("/central/one")), (s("two"), s("/central/two"))];

    // Partial failure: the successful subset is returned.
    let synced = sync_all_skills_to_remote(
        &mut rfs,
        &local,
        &skills,
        &vec![false, true],
        &vec![s("alpha")],
        &adapters(),
        &s("/home/u"),
    )
    .unwrap();
    assert_eq!(synced, vec![s("two")]);

    // Total failure: the whole call fails.
    let err = sync_all_skills_to_remote(
        &mut rfs,
        &local,
        &skills,
        &vec![false, false],
        &vec![s("alpha")],
        &adapters(),
        &s("/home/u"),
    )
    .unwrap_err();
    assert!(matches!(err, SkillError::AllBatchItemsFailed { .. }));

    // An all-skipped batch is an empty success.
    let empty_local = FsModel::new();
    let synced = sync_all_skills_to_remote(
        &mut rfs,
        &empty_local,
        &skills,
        &vec![true, true],
        &vec![s("alpha")],
        &adapters(),
        &s("/home/u"),
    )
    .unwrap();
    assert!(synced.is_empty());
}

fn skill_record(id: &str, name: &str, central: &str) -> ManagedSkillRecord {
    ManagedSkillRecord {
        id: s(id),
        name: s(name),
        source_type: s("local"),
        source_ref: None,
        central_path: s(central),
        content_hash: Some(1),
        created_at: 0,
        updated_at: 0,
        last_sync_at: None,
        status: s("active"),
    }
}

#[test]
fn selection_filters_by_skill_id() {
    let skills = vec![
        skill_record("a", "one", "/c/one"),
        skill_record("b", "two", "/c/two"),
        skill_record("c", "three", "/c/three"),
    ];
    let pairs = filter_skills_by_ids(&skills, &vec![s("a"), s("c")]);
    assert_eq!(pairs, vec![(s("one"), s("/c/one")), (s("three"), s("/c/three"))]);
}

#[test]
fn host_state_machine_is_driven_by_sync_attempts() {
    let mut store = SkillStore::new();
    let rec = add_remote_host(
        &mut store,
        s("h1"),
        s("lab"),
        s("lab.example"),
        22,
        s("u"),
        AuthMethod::KeyFile,
        None,
        50,
    )
    .unwrap();
    assert_eq!(rec.status, HostStatus::Idle);

    begin_remote_sync(&mut store, &s("h1"));
    assert_eq!(store.get_remote_host_by_id("h1").unwrap().status, HostStatus::Syncing);

    finish_remote_sync(&mut store, &s("h1"), false, 60);
    let h = store.get_remote_host_by_id("h1").unwrap();
    assert_eq!(h.status, HostStatus::SyncError);
    assert_eq!(h.last_sync_at, None);

    // A successful passive listing resets a prior error.
    note_remote_list_success(&mut store, &s("h1"));
    assert_eq!(store.get_remote_host_by_id("h1").unwrap().status, HostStatus::SyncOk);

    finish_remote_sync(&mut store, &s("h1"), true, 70);
    let h = store.get_remote_host_by_id("h1").unwrap();
    assert_eq!(h.status, HostStatus::SyncOk);
    assert_eq!(h.last_sync_at, Some(70));

    // Listing drives nothing when the host is healthy or idle.
    note_remote_list_success(&mut store, &s("h1"));
    assert_eq!(store.get_remote_host_by_id("h1").unwrap().status, HostStatus::SyncOk);
}

#[test]
fn host_profiles_validate_their_port() {
    let mut store = SkillStore::new();
    assert!(matches!(
        add_remote_host(
            &mut store,
            s("h1"),
            s("lab"),
            s("lab.example"),
            0,
            s("u"),
            AuthMethod::KeyFile,
            None,
            50,
        ),
        Err(SkillError::InvalidInput { .. })
    ));
    add_remote_host(
        &mut store,
        s("h1"),
        s("lab"),
        s("lab.example"),
        22,
        s("u"),
        AuthMethod::KeyFile,
        None,
        50,
    )
    .unwrap();
    let updated = update_remote_host(
        &mut store,
        &s("h1"),
        s("lab2"),
        s("lab2.example"),
        2222,
        s("v"),
        AuthMethod::Agent,
        Some(s("/k")),
        60,
    )
    .unwrap();
    assert_eq!(updated.label, "lab2");
    assert_eq!(updated.created_at, 50);
    assert_eq!(updated.updated_at, 60);
    assert!(matches!(
        update_remote_host(
            &mut store,
            &s("ghost"),
            s("x"),
            s("x"),
            22,
            s("u"),
            AuthMethod::KeyFile,
            None,
            0,
        ),
        Err(SkillError::NotFound { .. })
    ));
}

#[test]
fn remote_mkdir_is_idempotent_in_the_model() {
    let mut rfs = FsModel::new();
    apply_remote_mkdir_p(&mut rfs, &s("/home/u/.skillshub"));
    assert!(rfs.contains("/home/u/.skillshub"));
    // A second creation, and one over real content, change nothing.
    apply_remote_mkdir_p(&mut rfs, &s("/home/u/.skillshub"));
    rfs.set(s("/home/u/.skillshub/demo"), FsNode::Dir { content: 3 });
    apply_remote_mkdir_p(&mut rfs, &s("/home/u/.skillshub/demo"));
    match rfs.get("/home/u/.skillshub/demo") {
        Some(FsNode::Dir { content }) => assert_eq!(*content, 3),
        other => panic!("unexpected {:?}", other),
    }
}

#[test]
fn upload_plans_skip_version_control_metadata() {
    let entries = vec![
        WalkEntry { rel_path: s("sub"), is_dir: true },
        WalkEntry { rel_path: s("sub/file.md"), is_dir: false },
        WalkEntry { rel_path: s(".git"), is_dir: true },
        WalkEntry { rel_path: s(".git/config"), is_dir: false },
    ];
    let plan = upload_plan(&entries, &s("/home/u/.skillshub/demo"));
    assert_eq!(plan.len(), 3);
    match &plan[0] {
        UploadAction::EnsureDir { path } => assert_eq!(path, "/home/u/.skillshub/demo"),
        other => panic!("unexpected {:?}", other),
    }
    match &plan[1] {
        UploadAction::EnsureDir { path } => assert_eq!(path, "/home/u/.skillshub/demo/sub"),
        other => panic!("unexpected {:?}", other),
    }
    match &plan[2] {
        UploadAction::PutFile { path, rel_path } => {
            assert_eq!(path, "/home/u/.skillshub/demo/sub/file.md");
            assert_eq!(rel_path, "sub/file.md");
        },
        other => panic!("unexpected {:?}", other),
    }
}
