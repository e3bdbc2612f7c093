use skills_hub::store::{
    AuthMethod, CustomTargetRecord, HostStatus, ManagedSkillRecord, RemoteHostRecord, SkillStore,
    SkillTargetRecord, TargetStatus,
};
use skills_hub::SyncMode;

fn s(x: &str) -> String {
    x.to_string()
}

fn skill(id: &str, name: &str, central: &str) -> ManagedSkillRecord {
    ManagedSkillRecord {
        id: s(id),
        name: s(name),
        source_type: s("local"),
        source_ref: None,
        central_path: s(central),
        content_hash: Some(1),
        created_at: 0,
        updated_at: 0,
        last_sync_at: None,
        status: s("active"),
    }
}

fn target(skill_id: &str, tool: &str, path: &str) -> SkillTargetRecord {
    SkillTargetRecord {
        id: s("t"),
        skill_id: s(skill_id),
        tool: s(tool),
        target_path: s(path),
        mode: SyncMode::Copy,
        status: TargetStatus::Synced,
        last_error: None,
        synced_at: None,
    }
}

#[test]
fn upserts_replace_on_equal_keys() {
    let mut store = SkillStore::new();
    store.upsert_skill(skill("a", "one", "/c/one"));
    let mut updated = skill("a", "one-renamed", "/c/one");
    updated.updated_at = 9;
    store.upsert_skill(updated);
    assert_eq!(store.skills.len(), 1);
    let rec = store.get_skill_by_id("a").unwrap();
    assert_eq!(rec.name, "one-renamed");
    assert_eq!(rec.updated_at, 9);

    store.upsert_skill_target(target("a", "alpha", "/t/one"));
    store.upsert_skill_target(target("a", "alpha", "/t/changed"));
    store.upsert_skill_target(target("a", "beta", "/t/one"));
    assert_eq!(store.targets.len(), 2);
    assert_eq!(store.get_skill_target("a", "alpha").unwrap().target_path, "/t/changed");
}

#[test]
fn deleting_a_skill_cascades_to_its_targets() {
    let mut store = SkillStore::new();
    store.upsert_skill(skill("a", "one", "/c/one"));
    store.upsert_skill(skill("b", "two", "/c/two"));
    store.upsert_skill_target(target("a", "alpha", "/t/a"));
    store.upsert_skill_target(target("b", "alpha", "/t/b"));
    store.delete_skill("a");
    assert!(store.get_skill_by_id("a").is_none());
    assert!(store.get_skill_target("a", "alpha").is_none());
    assert!(store.get_skill_by_id("b").is_some());
    assert_eq!(store.get_skill_target("b", "alpha").unwrap().target_path, "/t/b");
}

#[test]
fn settings_are_a_plain_key_value_area() {
    let mut store = SkillStore::new();
    assert!(store.get_setting("central_repo_path").is_none());
    store.set_setting(s("central_repo_path"), s("/vault"));
    store.set_setting(s("installed_tools_v1"), s("[\"alpha\"]"));
    assert_eq!(store.get_setting("central_repo_path").unwrap(), "/vault");
    store.set_setting(s("central_repo_path"), s("/elsewhere"));
    assert_eq!(store.get_setting("central_repo_path").unwrap(), "/elsewhere");
    assert_eq!(store.get_setting("installed_tools_v1").unwrap(), "[\"alpha\"]");
}

#[test]
fn hosts_and_custom_targets_round_trip() {
    let mut store = SkillStore::new();
    store.upsert_remote_host(RemoteHostRecord {
        id: s("h1"),
        label: s("lab"),
        host: s("lab.example"),
        port: 22,
        username: s("u"),
        auth_method: AuthMethod::KeyFile,
        key_path: None,
        created_at: 0,
        updated_at: 0,
        last_sync_at: None,
        status: HostStatus::Idle,
    });
    assert!(store.get_remote_host_by_id("h1").is_some());
    store.delete_remote_host("h1");
    assert!(store.get_remote_host_by_id("h1").is_none());

    store.upsert_custom_target(CustomTargetRecord {
        id: s("ct1"),
        label: s("notes"),
        path: s("/dest"),
        remote_host_id: None,
        created_at: 0,
    });
    assert_eq!(store.get_custom_target_by_id("ct1").unwrap().path, "/dest");
    store.delete_custom_target("ct1");
    assert!(store.get_custom_target_by_id("ct1").is_none());
}
