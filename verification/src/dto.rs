//! The plain data shapes handed to the interactive surface, and the
//! verified conversions from the library's records into them. Timestamps
//! stay numeric; fingerprints are rendered in decimal; modes and statuses
//! become their stable key strings.

use vstd::prelude::*;
use crate::engine::ToolAdapter;
use crate::installer::{InstallResult, UpdateOutcome};
use crate::remote::RemoteToolState;
use crate::store::{
    AuthMethod, HostStatus, ManagedSkillRecord, RemoteHostRecord, SkillStore, SkillTargetRecord,
    TargetStatus,
};
use crate::strutil::{
    join_with, spec_contains_string, spec_decimal, spec_join, spec_split, split_on, u64_to_string,
};
use crate::SyncMode;

verus! {

/// One tool as shown to the caller.
#[derive(Debug)]
pub struct ToolInfoDto {
    pub key: String,
    pub label: String,
    pub installed: bool,
    pub skills_dir: String,
}

/// The tool landscape: every tool, the installed subset, and the subset
/// newly installed since the last look.
#[derive(Debug)]
pub struct ToolStatusDto {
    pub tools: Vec<ToolInfoDto>,
    pub installed: Vec<String>,
    pub newly_installed: Vec<String>,
}

/// What an installation produced, as shown to the caller.
#[derive(Debug)]
pub struct InstallResultDto {
    pub skill_id: String,
    pub name: String,
    pub central_path: String,
    pub content_hash: Option<String>,
}

/// What a sync produced: the concrete mode that succeeded and the path
/// written.
#[derive(Debug)]
pub struct SyncResultDto {
    pub mode_used: String,
    pub target_path: String,
}

/// What an update produced, as shown to the caller.
#[derive(Debug)]
pub struct UpdateResultDto {
    pub skill_id: String,
    pub name: String,
    pub content_hash: Option<String>,
    pub source_revision: Option<String>,
    pub updated_targets: Vec<String>,
}

/// One managed skill with its sync targets, as shown to the caller.
#[derive(Debug)]
pub struct ManagedSkillDto {
    pub id: String,
    pub name: String,
    pub source_type: String,
    pub source_ref: Option<String>,
    pub central_path: String,
    pub created_at: i64,
    pub updated_at: i64,
    pub last_sync_at: Option<i64>,
    pub status: String,
    pub targets: Vec<SkillTargetDto>,
}

/// One sync target, as shown to the caller.
#[derive(Debug)]
pub struct SkillTargetDto {
    pub tool: String,
    pub mode: String,
    pub status: String,
    pub target_path: String,
    pub synced_at: Option<i64>,
}

/// One remote host profile, as shown to the caller.
#[derive(Debug)]
pub struct RemoteHostDto {
    pub id: String,
    pub label: String,
    pub host: String,
    pub port: i64,
    pub username: String,
    pub auth_method: String,
    pub key_path: Option<String>,
    pub created_at: i64,
    pub updated_at: i64,
    pub last_sync_at: Option<i64>,
    pub status: String,
}

/// One remotely detected tool.
#[derive(Debug)]
pub struct RemoteToolInfoDto {
    pub key: String,
    pub label: String,
    pub installed: bool,
}

/// The remote tool landscape of one host.
#[derive(Debug)]
#[allow(non_snake_case)]
pub struct RemoteToolStatusDto {
    pub hostId: String,
    pub tools: Vec<RemoteToolInfoDto>,
}

/// The outcome of a remote batch sync.
#[derive(Debug)]
#[allow(non_snake_case)]
pub struct RemoteSyncResultDto {
    pub syncedSkills: Vec<String>,
}

/// The skills present on one remote host.
#[derive(Debug)]
#[allow(non_snake_case)]
pub struct RemoteSkillsDto {
    pub hostId: String,
    pub skills: Vec<String>,
}

/// One custom target, as shown to the caller.
#[derive(Debug)]
pub struct CustomTargetDto {
    pub id: String,
    pub label: String,
    pub path: String,
    pub remote_host_id: Option<String>,
    pub created_at: i64,
}

/// One entry of a browsed remote directory.
#[derive(Debug)]
#[allow(non_snake_case)]
pub struct RemoteDirEntry {
    pub name: String,
    pub isDir: bool,
}

/// A browsed remote directory: the resolved path and its entries.
#[derive(Debug)]
#[allow(non_snake_case)]
pub struct RemoteBrowseResult {
    pub currentPath: String,
    pub entries: Vec<RemoteDirEntry>,
}

// ── key strings ─────────────────────────────────────────────────────

/// The stable key of a sync mode.
pub open spec fn spec_mode_key(m: SyncMode) -> Seq<char> {
    match m {
        SyncMode::Auto => "auto"@,
        SyncMode::Symlink => "symlink"@,
        SyncMode::Junction => "junction"@,
        SyncMode::Copy => "copy"@,
    }
}

pub fn mode_key(m: SyncMode) -> (r: String)
    ensures
        r@ == spec_mode_key(m),
{
    match m {
        SyncMode::Auto => "auto".to_owned(),
        SyncMode::Symlink => "symlink".to_owned(),
        SyncMode::Junction => "junction".to_owned(),
        SyncMode::Copy => "copy".to_owned(),
    }
}

/// The stable key of a target status.
pub open spec fn spec_target_status_key(s: TargetStatus) -> Seq<char> {
    match s {
        TargetStatus::Synced => "ok"@,
        TargetStatus::Failed => "error"@,
    }
}

pub fn target_status_key(s: TargetStatus) -> (r: String)
    ensures
        r@ == spec_target_status_key(s),
{
    match s {
        TargetStatus::Synced => "ok".to_owned(),
        TargetStatus::Failed => "error".to_owned(),
    }
}

/// The stable key of a host status.
pub open spec fn spec_host_status_key(s: HostStatus) -> Seq<char> {
    match s {
        HostStatus::Idle => "idle"@,
        HostStatus::Syncing => "syncing"@,
        HostStatus::SyncOk => "ok"@,
        HostStatus::SyncError => "error"@,
    }
}

pub fn host_status_key(s: HostStatus) -> (r: String)
    ensures
        r@ == spec_host_status_key(s),
{
    match s {
        HostStatus::Idle => "idle".to_owned(),
        HostStatus::Syncing => "syncing".to_owned(),
        HostStatus::SyncOk => "ok".to_owned(),
        HostStatus::SyncError => "error".to_owned(),
    }
}

/// The stable key of an authentication method.
pub open spec fn spec_auth_method_key(a: AuthMethod) -> Seq<char> {
    match a {
        AuthMethod::KeyFile => "key"@,
        AuthMethod::Agent => "agent"@,
    }
}

pub fn auth_method_key(a: AuthMethod) -> (r: String)
    ensures
        r@ == spec_auth_method_key(a),
{
    match a {
        AuthMethod::KeyFile => "key".to_owned(),
        AuthMethod::Agent => "agent".to_owned(),
    }
}

/// A fingerprint rendered in decimal, when present.
pub open spec fn spec_hash_string(h: Option<u64>, r: Option<String>) -> bool {
    match h {
        Some(v) => r is Some && r->0@ == spec_decimal(v as nat),
        None => r is None,
    }
}

pub fn hash_string(h: Option<u64>) -> (r: Option<String>)
    ensures
        spec_hash_string(h, r),
{
    match h {
        Some(v) => Some(u64_to_string(v)),
        None => None,
    }
}

// ── conversions ─────────────────────────────────────────────────────

/// Shows an installation result to the caller.
pub fn to_install_dto(result: InstallResult) -> (r: InstallResultDto)
    ensures
        r.skill_id == result.skill_id,
        r.name == result.name,
        r.central_path == result.central_path,
        spec_hash_string(result.content_hash, r.content_hash),
{
    InstallResultDto {
        skill_id: result.skill_id,
        name: result.name,
        central_path: result.central_path,
        content_hash: hash_string(result.content_hash),
    }
}

/// Shows an update outcome to the caller.
pub fn to_update_dto(res: UpdateOutcome) -> (r: UpdateResultDto)
    ensures
        r.skill_id == res.skill_id,
        r.name == res.name,
        spec_hash_string(res.content_hash, r.content_hash),
        r.source_revision == res.source_revision,
        r.updated_targets == res.updated_targets,
{
    UpdateResultDto {
        skill_id: res.skill_id,
        name: res.name,
        content_hash: hash_string(res.content_hash),
        source_revision: res.source_revision,
        updated_targets: res.updated_targets,
    }
}

/// Shows a remote host record to the caller.
pub fn record_to_dto(r: RemoteHostRecord) -> (d: RemoteHostDto)
    ensures
        d.id == r.id,
        d.label == r.label,
        d.host == r.host,
        d.port == r.port,
        d.username == r.username,
        d.auth_method@ == spec_auth_method_key(r.auth_method),
        d.key_path == r.key_path,
        d.created_at == r.created_at,
        d.updated_at == r.updated_at,
        d.last_sync_at == r.last_sync_at,
        d.status@ == spec_host_status_key(r.status),
{
    RemoteHostDto {
        id: r.id,
        label: r.label,
        host: r.host,
        port: r.port,
        username: r.username,
        auth_method: auth_method_key(r.auth_method),
        key_path: r.key_path,
        created_at: r.created_at,
        updated_at: r.updated_at,
        last_sync_at: r.last_sync_at,
        status: host_status_key(r.status),
    }
}

/// The view of a target DTO, for the conversion contracts.
pub open spec fn target_dto_view(d: SkillTargetDto) -> (
    Seq<char>,
    Seq<char>,
    Seq<char>,
    Seq<char>,
    Option<i64>,
) {
    (d.tool@, d.mode@, d.status@, d.target_path@, d.synced_at)
}

/// The DTO view a target record maps to.
pub open spec fn target_record_dto_view(t: SkillTargetRecord) -> (
    Seq<char>,
    Seq<char>,
    Seq<char>,
    Seq<char>,
    Option<i64>,
) {
    (t.tool@, spec_mode_key(t.mode), spec_target_status_key(t.status), t.target_path@, t.synced_at)
}

/// The target DTOs of one skill, in store order.
pub fn skill_targets_to_dtos(store: &SkillStore, skill_id: &String) -> (r: Vec<SkillTargetDto>)
    ensures
        r@.map_values(|d: SkillTargetDto| target_dto_view(d)) == store.targets@.filter(
            |t: SkillTargetRecord| t.skill_id@ == skill_id@,
        ).map_values(|t: SkillTargetRecord| target_record_dto_view(t)),
{
    let tlist = store.list_skill_targets(skill_id.as_str());
    let mut out: Vec<SkillTargetDto> = Vec::new();
    let mut i: usize = 0;
    while i < tlist.len()
        invariant
            0 <= i <= tlist@.len(),
            tlist@ == store.targets@.filter(|t: SkillTargetRecord| t.skill_id@ == skill_id@),
            out@.map_values(|d: SkillTargetDto| target_dto_view(d)) == tlist@.take(
                i as int,
            ).map_values(|t: SkillTargetRecord| target_record_dto_view(t)),
        decreases tlist@.len() - i,
    {
        let ghost pre = out@;
        let t = &tlist[i];
        out.push(
            SkillTargetDto {
                tool: t.tool.clone(),
                mode: mode_key(t.mode),
                status: target_status_key(t.status),
                target_path: t.target_path.clone(),
                synced_at: t.synced_at,
            },
        );
        proof {
            assert(tlist@.take(i + 1).drop_last() =~= tlist@.take(i as int));
            assert(out@.map_values(|d: SkillTargetDto| target_dto_view(d)) =~= pre.map_values(
                |d: SkillTargetDto| target_dto_view(d),
            ).push(target_record_dto_view(tlist@[i as int])));
            assert(tlist@.take(i + 1).map_values(
                |t2: SkillTargetRecord| target_record_dto_view(t2),
            ) =~= tlist@.take(i as int).map_values(
                |t2: SkillTargetRecord| target_record_dto_view(t2),
            ).push(target_record_dto_view(tlist@[i as int])));
        }
        i += 1;
    }
    proof {
        assert(tlist@.take(tlist@.len() as int) =~= tlist@);
    }
    out
}

/// Every managed skill with its targets, as shown to the caller.
pub fn get_managed_skills_impl(store: &SkillStore) -> (r: Vec<ManagedSkillDto>)
    ensures
        r@.len() == store.skills@.len(),
        forall|i: int|
            0 <= i < r@.len() ==> {
                let d = #[trigger] r@[i];
                let sk = store.skills@[i];
                &&& d.id == sk.id
                &&& d.name == sk.name
                &&& d.source_type == sk.source_type
                &&& d.source_ref == sk.source_ref
                &&& d.central_path == sk.central_path
                &&& d.created_at == sk.created_at
                &&& d.updated_at == sk.updated_at
                &&& d.last_sync_at == sk.last_sync_at
                &&& d.status == sk.status
                &&& d.targets@.map_values(|t: SkillTargetDto| target_dto_view(t))
                    == store.targets@.filter(
                    |t: SkillTargetRecord| t.skill_id@ == sk.id@,
                ).map_values(|t: SkillTargetRecord| target_record_dto_view(t))
            },
{
    let mut out: Vec<ManagedSkillDto> = Vec::new();
    let mut i: usize = 0;
    while i < store.skills.len()
        invariant
            0 <= i <= store.skills@.len(),
            out@.len() == i,
            forall|j: int|
                0 <= j < i ==> {
                    let d = #[trigger] out@[j];
                    let sk = store.skills@[j];
                    &&& d.id == sk.id
                    &&& d.name == sk.name
                    &&& d.source_type == sk.source_type
                    &&& d.source_ref == sk.source_ref
                    &&& d.central_path == sk.central_path
                    &&& d.created_at == sk.created_at
                    &&& d.updated_at == sk.updated_at
                    &&& d.last_sync_at == sk.last_sync_at
                    &&& d.status == sk.status
                    &&& d.targets@.map_values(|t: SkillTargetDto| target_dto_view(t))
                        == store.targets@.filter(
                        |t: SkillTargetRecord| t.skill_id@ == sk.id@,
                    ).map_values(|t: SkillTargetRecord| target_record_dto_view(t))
                },
        decreases store.skills@.len() - i,
    {
        let sk = store.skills[i].clone();
        let targets = skill_targets_to_dtos(store, &sk.id);
        out.push(
            ManagedSkillDto {
                id: sk.id,
                name: sk.name,
                source_type: sk.source_type,
                source_ref: sk.source_ref,
                central_path: sk.central_path,
                created_at: sk.created_at,
                updated_at: sk.updated_at,
                last_sync_at: sk.last_sync_at,
                status: sk.status,
                targets,
            },
        );
        i += 1;
    }
    out
}

/// The tool landscape from the adapter registry and the previously
/// recorded installed set: every adapter as a DTO, the keys of the
/// installed ones, and those of them that the previous record lacks.
pub fn tool_status(adapters: &Vec<ToolAdapter>, prev_installed: &Vec<String>) -> (r: ToolStatusDto)
    ensures
        r.tools@.map_values(|d: ToolInfoDto| (d.key@, d.label@, d.installed, d.skills_dir@))
            == adapters@.map_values(
            |a: ToolAdapter| (a.key@, a.label@, a.installed, a.skills_dir@),
        ),
        r.installed@.map_values(|s: String| s@) == adapters@.filter(
            |a: ToolAdapter| a.installed,
        ).map_values(|a: ToolAdapter| a.key@),
        r.newly_installed@.map_values(|s: String| s@) == adapters@.filter(
            |a: ToolAdapter| a.installed,
        ).map_values(|a: ToolAdapter| a.key@).filter(
            |k: Seq<char>| !spec_contains_string(prev_installed@, k),
        ),
{
    let mut tools: Vec<ToolInfoDto> = Vec::new();
    let mut installed: Vec<String> = Vec::new();
    let mut i: usize = 0;
    while i < adapters.len()
        invariant
            0 <= i <= adapters@.len(),
            tools@.map_values(|d: ToolInfoDto| (d.key@, d.label@, d.installed, d.skills_dir@))
                == adapters@.take(i as int).map_values(
                |a: ToolAdapter| (a.key@, a.label@, a.installed, a.skills_dir@),
            ),
            installed@.map_values(|s: String| s@) == adapters@.take(i as int).filter(
                |a: ToolAdapter| a.installed,
            ).map_values(|a: ToolAdapter| a.key@),
        decreases adapters@.len() - i,
    {
        proof {
            reveal(Seq::filter);
            assert(adapters@.take(i + 1).drop_last() =~= adapters@.take(i as int));
            assert(adapters@.take(i + 1).last() == adapters@[i as int]);
        }
        let ghost pre_tools = tools@;
        let ghost pre_inst = installed@;
        let a = &adapters[i];
        tools.push(
            ToolInfoDto {
                key: a.key.clone(),
                label: a.label.clone(),
                installed: a.installed,
                skills_dir: a.skills_dir.clone(),
            },
        );
        proof {
            assert(tools@.map_values(
                |d: ToolInfoDto| (d.key@, d.label@, d.installed, d.skills_dir@),
            ) =~= pre_tools.map_values(
                |d: ToolInfoDto| (d.key@, d.label@, d.installed, d.skills_dir@),
            ).push(
                (
                    adapters@[i as int].key@,
                    adapters@[i as int].label@,
                    adapters@[i as int].installed,
                    adapters@[i as int].skills_dir@,
                ),
            ));
            assert(adapters@.take(i + 1).map_values(
                |a2: ToolAdapter| (a2.key@, a2.label@, a2.installed, a2.skills_dir@),
            ) =~= adapters@.take(i as int).map_values(
                |a2: ToolAdapter| (a2.key@, a2.label@, a2.installed, a2.skills_dir@),
            ).push(
                (
                    adapters@[i as int].key@,
                    adapters@[i as int].label@,
                    adapters@[i as int].installed,
                    adapters@[i as int].skills_dir@,
                ),
            ));
        }
        if a.installed {
            installed.push(a.key.clone());
            proof {
                assert(installed@.map_values(|s: String| s@) =~= pre_inst.map_values(
                    |s: String| s@,
                ).push(adapters@[i as int].key@));
                assert(adapters@.take(i + 1).filter(|a2: ToolAdapter| a2.installed).map_values(
                    |a2: ToolAdapter| a2.key@,
                ) =~= adapters@.take(i as int).filter(|a2: ToolAdapter| a2.installed).map_values(
                    |a2: ToolAdapter| a2.key@,
                ).push(adapters@[i as int].key@));
            }
        }
        i += 1;
    }
    proof {
        assert(adapters@.take(adapters@.len() as int) =~= adapters@);
    }
    let newly = newly_installed_tools(&installed, prev_installed);
    ToolStatusDto { tools, installed, newly_installed: newly }
}

/// The keys of `installed` that the previous record lacks.
pub fn newly_installed_tools(installed: &Vec<String>, prev: &Vec<String>) -> (r: Vec<String>)
    ensures
        r@.map_values(|s: String| s@) == installed@.map_values(|s: String| s@).filter(
            |k: Seq<char>| !spec_contains_string(prev@, k),
        ),
{
    let ghost iviews = installed@.map_values(|s: String| s@);
    let mut out: Vec<String> = Vec::new();
    let mut i: usize = 0;
    while i < installed.len()
        invariant
            0 <= i <= installed@.len(),
            iviews == installed@.map_values(|s: String| s@),
            out@.map_values(|s: String| s@) == iviews.take(i as int).filter(
                |k: Seq<char>| !spec_contains_string(prev@, k),
            ),
        decreases installed@.len() - i,
    {
        proof {
            reveal(Seq::filter);
            assert(iviews.take(i + 1).drop_last() =~= iviews.take(i as int));
            assert(iviews.take(i + 1).last() == iviews[i as int]);
        }
        let ghost pre = out@;
        if !crate::strutil::contains_string(prev, installed[i].as_str()) {
            out.push(installed[i].clone());
            proof {
                assert(out@.map_values(|s: String| s@) =~= pre.map_values(|s: String| s@).push(
                    iviews[i as int],
                ));
            }
        }
        i += 1;
    }
    proof {
        assert(iviews.take(iviews.len() as int) =~= iviews);
    }
    out
}

/// Shows remotely detected tools to the caller.
pub fn remote_tools_to_dtos(states: Vec<RemoteToolState>) -> (r: Vec<RemoteToolInfoDto>)
    ensures
        r@.map_values(|d: RemoteToolInfoDto| (d.key@, d.label@, d.installed))
            == states@.map_values(|s: RemoteToolState| (s.key@, s.label@, s.installed)),
{
    let mut out: Vec<RemoteToolInfoDto> = Vec::new();
    let mut i: usize = 0;
    while i < states.len()
        invariant
            0 <= i <= states@.len(),
            out@.map_values(|d: RemoteToolInfoDto| (d.key@, d.label@, d.installed))
                == states@.take(i as int).map_values(
                |s: RemoteToolState| (s.key@, s.label@, s.installed),
            ),
        decreases states@.len() - i,
    {
        let ghost pre = out@;
        out.push(
            RemoteToolInfoDto {
                key: states[i].key.clone(),
                label: states[i].label.clone(),
                installed: states[i].installed,
            },
        );
        proof {
            assert(states@.take(i + 1).drop_last() =~= states@.take(i as int));
            assert(out@.map_values(|d: RemoteToolInfoDto| (d.key@, d.label@, d.installed))
                =~= pre.map_values(|d: RemoteToolInfoDto| (d.key@, d.label@, d.installed)).push(
                (states@[i as int].key@, states@[i as int].label@, states@[i as int].installed),
            ));
            assert(states@.take(i + 1).map_values(
                |s: RemoteToolState| (s.key@, s.label@, s.installed),
            ) =~= states@.take(i as int).map_values(
                |s: RemoteToolState| (s.key@, s.label@, s.installed),
            ).push(
                (states@[i as int].key@, states@[i as int].label@, states@[i as int].installed),
            ));
        }
        i += 1;
    }
    proof {
        assert(states@.take(states@.len() as int) =~= states@);
    }
    out
}

/// Shows a browsed directory listing to the caller: every name is a
/// directory, since only directories were listed.
pub fn dir_entries(names: Vec<String>) -> (r: Vec<RemoteDirEntry>)
    ensures
        r@.map_values(|d: RemoteDirEntry| (d.name@, d.isDir)) == names@.map_values(
            |n: String| (n@, true),
        ),
{
    let mut out: Vec<RemoteDirEntry> = Vec::new();
    let mut i: usize = 0;
    while i < names.len()
        invariant
            0 <= i <= names@.len(),
            out@.map_values(|d: RemoteDirEntry| (d.name@, d.isDir)) == names@.take(
                i as int,
            ).map_values(|n: String| (n@, true)),
        decreases names@.len() - i,
    {
        let ghost pre = out@;
        out.push(RemoteDirEntry { name: names[i].clone(), isDir: true });
        proof {
            assert(names@.take(i + 1).drop_last() =~= names@.take(i as int));
            assert(out@.map_values(|d: RemoteDirEntry| (d.name@, d.isDir)) =~= pre.map_values(
                |d: RemoteDirEntry| (d.name@, d.isDir),
            ).push((names@[i as int]@, true)));
            assert(names@.take(i + 1).map_values(|n: String| (n@, true)) =~= names@.take(
                i as int,
            ).map_values(|n: String| (n@, true)).push((names@[i as int]@, true)));
        }
        i += 1;
    }
    proof {
        assert(names@.take(names@.len() as int) =~= names@);
    }
    out
}


/// The keys of the currently installed adapters, in registry order.
pub open spec fn spec_installed_keys(adapters: Seq<ToolAdapter>) -> Seq<Seq<char>> {
    adapters.filter(|a: ToolAdapter| a.installed).map_values(|a: ToolAdapter| a.key@)
}

/// The key set encoded in a recorded settings value: newline-separated,
/// empty fragments dropped.
pub open spec fn spec_decode_keys(s: Seq<char>) -> Seq<Seq<char>> {
    spec_split(s, '\n').filter(|l: Seq<char>| l.len() > 0)
}

/// The installed set a store remembers, empty when none was recorded.
pub open spec fn spec_recorded_installed(store0: &SkillStore) -> Seq<Seq<char>> {
    if store0.settings_view().contains_key("installed_tools_v1"@) {
        spec_decode_keys(store0.settings_view()["installed_tools_v1"@]@)
    } else {
        Seq::empty()
    }
}

/// Decodes a recorded installed set.
fn decode_recorded_keys(s: &str) -> (r: Vec<String>)
    ensures
        r@.map_values(|t: String| t@) == spec_decode_keys(s@),
{
    let parts = split_on(s, '\n');
    let ghost views = parts@.map_values(|t: String| t@);
    let mut out: Vec<String> = Vec::new();
    let mut i: usize = 0;
    while i < parts.len()
        invariant
            0 <= i <= parts@.len(),
            views == parts@.map_values(|t: String| t@),
            out@.map_values(|t: String| t@) == views.take(i as int).filter(
                |l: Seq<char>| l.len() > 0,
            ),
        decreases parts@.len() - i,
    {
        proof {
            reveal(Seq::filter);
            assert(views.take(i + 1).drop_last() =~= views.take(i as int));
            assert(views.take(i + 1).last() == views[i as int]);
        }
        if parts[i].as_str().unicode_len() > 0 {
            out.push(parts[i].clone());
        }
        i += 1;
    }
    proof {
        assert(views.take(views.len() as int) =~= views);
    }
    out
}

/// Computes the tool landscape against the recorded installed set and
/// records the current one, so that the next look reports only genuinely
/// new installations.
pub fn record_tool_status(store: &mut SkillStore, adapters: &Vec<ToolAdapter>) -> (r:
    ToolStatusDto)
    requires
        old(store).wf(),
    ensures
        final(store).wf(),
        final(store).skills@ == old(store).skills@,
        final(store).targets@ == old(store).targets@,
        final(store).hosts@ == old(store).hosts@,
        final(store).custom_targets@ == old(store).custom_targets@,
        r.tools@.map_values(|d: ToolInfoDto| (d.key@, d.label@, d.installed, d.skills_dir@))
            == adapters@.map_values(
            |a: ToolAdapter| (a.key@, a.label@, a.installed, a.skills_dir@),
        ),
        r.installed@.map_values(|s: String| s@) == spec_installed_keys(adapters@),
        r.newly_installed@.map_values(|s: String| s@) == spec_installed_keys(adapters@).filter(
            |k: Seq<char>| !spec_recorded_installed(old(store)).contains(k),
        ),
        final(store).settings_view().contains_key("installed_tools_v1"@),
        final(store).settings_view()["installed_tools_v1"@]@ == spec_join(
            spec_installed_keys(adapters@),
            "\n"@,
        ),
        forall|k2: Seq<char>|
            k2 != "installed_tools_v1"@ ==> (#[trigger] final(store).settings_view().contains_key(
                k2,
            ) == old(store).settings_view().contains_key(k2) && (final(store).settings_view().contains_key(k2) ==> final(store).settings_view()[k2] == old(store).settings_view()[k2])),
{
    let prev: Vec<String> = match store.get_setting("installed_tools_v1") {
        Some(v) => decode_recorded_keys(v.as_str()),
        None => Vec::new(),
    };
    let ghost recorded = spec_recorded_installed(old(store));
    proof {
        assert(prev@.map_values(|t: String| t@) == recorded);
    }
    let dto = tool_status(adapters, &prev);
    proof {
        // Membership in the decoded previous set is membership in the
        // recorded one.
        assert forall|k: Seq<char>|
            #[trigger] spec_contains_string(prev@, k) == recorded.contains(k) by {
            if spec_contains_string(prev@, k) {
                let i = choose|i: int| 0 <= i < prev@.len() && prev@[i]@ == k;
                assert(recorded[i] == k);
            }
            if recorded.contains(k) {
                let i = choose|i: int| 0 <= i < recorded.len() && recorded[i] == k;
                assert(prev@[i]@ == k);
            }
        }
        crate::store::lemma_filter_congruent(
            spec_installed_keys(adapters@),
            |k: Seq<char>| !spec_contains_string(prev@, k),
            |k: Seq<char>| !spec_recorded_installed(old(store)).contains(k),
        );
    }
    let encoded = join_with(&dto.installed, "\n");
    store.set_setting("installed_tools_v1".to_owned(), encoded);
    dto
}

/// Recording is quieting: once the installed set is recorded, a repeat
/// look at the same landscape reports nothing newly installed. Stated for
/// key sets in the recording encoding's domain — every key non-empty and
/// free of the separator.
pub proof fn lemma_repeat_status_quiet(adapters: Seq<ToolAdapter>)
    requires
        forall|i: int|
            0 <= i < spec_installed_keys(adapters).len() ==> (#[trigger] spec_installed_keys(
                adapters,
            )[i]).len() > 0 && !spec_installed_keys(adapters)[i].contains('\n'),
    ensures
        spec_installed_keys(adapters).filter(
            |k: Seq<char>| !spec_decode_keys(
                spec_join(spec_installed_keys(adapters), "\n"@),
            ).contains(k),
        ) == Seq::<Seq<char>>::empty(),
{
    reveal_strlit("\n");
    let keys = spec_installed_keys(adapters);
    assert("\n"@ =~= seq!['\n']);
    crate::strutil::lemma_join_split_round_trip(keys, '\n');
    assert(spec_decode_keys(spec_join(keys, "\n"@)) == keys);
    assert forall|i: int|
        0 <= i < keys.len() implies !(|k: Seq<char>| !spec_decode_keys(
        spec_join(spec_installed_keys(adapters), "\n"@),
    ).contains(k))(#[trigger] keys[i]) by {
        assert(keys.contains(keys[i]));
    }
    crate::store::lemma_filter_none_kept(
        keys,
        |k: Seq<char>| !spec_decode_keys(
            spec_join(spec_installed_keys(adapters), "\n"@),
        ).contains(k),
    );
}

} // verus!
