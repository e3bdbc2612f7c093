//! The sync engine: materializes one destination directory from one
//! source directory over the filesystem model, choosing the cheapest safe
//! strategy, and keeps the store's sync-target records consistent with
//! what was written — including every tool of a shared-destination group.

use vstd::prelude::*;
use crate::errors::SkillError;
use crate::fs_model::{FsModel, FsNode};
use crate::ids::new_record_id;
use crate::paths::{join_path, spec_join_path};
use crate::store::{SkillStore, SkillTargetRecord, TargetStatus, target_keyed};
use crate::strutil::str_eq;
use crate::{choose_mode, spec_choose_mode, FsCapabilities, SyncMode};

verus! {

/// What an external tool-adapter registry says of one tool: its key and
/// label, where it expects skills, how it is detected, and whether it is
/// currently installed.
#[derive(Debug)]
pub struct ToolAdapter {
    pub key: String,
    pub label: String,
    pub skills_dir: String,
    pub detect_dir: String,
    pub installed: bool,
}

impl Clone for ToolAdapter {
    /// A clone is equal to the original.
    fn clone(&self) -> (r: Self)
        ensures
            r == *self,
    {
        ToolAdapter {
            key: self.key.clone(),
            label: self.label.clone(),
            skills_dir: self.skills_dir.clone(),
            detect_dir: self.detect_dir.clone(),
            installed: self.installed,
        }
    }
}

/// A registry is well-formed when its tool keys are distinct.
pub open spec fn adapters_wf(s: Seq<ToolAdapter>) -> bool {
    forall|i: int, j: int| 0 <= i < j < s.len() ==> s[i].key@ != s[j].key@
}

/// The first adapter carrying `key`; under `adapters_wf` the only one.
pub open spec fn spec_find_adapter(s: Seq<ToolAdapter>, key: Seq<char>) -> Option<ToolAdapter>
    decreases s.len(),
{
    if s.len() == 0 {
        None
    } else if s[0].key@ == key {
        Some(s[0])
    } else {
        spec_find_adapter(s.drop_first(), key)
    }
}

/// The first match characterizes `spec_find_adapter`.
pub proof fn lemma_find_adapter_first(s: Seq<ToolAdapter>, key: Seq<char>, i: int)
    requires
        0 <= i < s.len(),
        s[i].key@ == key,
        forall|j: int| 0 <= j < i ==> s[j].key@ != key,
    ensures
        spec_find_adapter(s, key) == Some(s[i]),
    decreases s.len(),
{
    if i > 0 {
        lemma_find_adapter_first(s.drop_first(), key, i - 1);
    }
}

/// With no match anywhere, `spec_find_adapter` finds nothing.
pub proof fn lemma_find_adapter_none(s: Seq<ToolAdapter>, key: Seq<char>)
    requires
        forall|j: int| 0 <= j < s.len() ==> s[j].key@ != key,
    ensures
        spec_find_adapter(s, key) is None,
    decreases s.len(),
{
    if s.len() > 0 {
        lemma_find_adapter_none(s.drop_first(), key);
    }
}

/// Looks a tool up by key, resolving to the registry's (unique) entry.
pub fn find_adapter(adapters: &Vec<ToolAdapter>, key: &str) -> (r: Option<usize>)
    ensures
        match r {
            Some(i) => i < adapters@.len() && adapters@[i as int].key@ == key@
                && spec_find_adapter(adapters@, key@) == Some(adapters@[i as int]),
            None => spec_find_adapter(adapters@, key@) is None,
        },
{
    let mut i: usize = 0;
    while i < adapters.len()
        invariant
            0 <= i <= adapters@.len(),
            forall|j: int| 0 <= j < i ==> adapters@[j].key@ != key@,
        decreases adapters@.len() - i,
    {
        if str_eq(adapters[i].key.as_str(), key) {
            proof {
                lemma_find_adapter_first(adapters@, key@, i as int);
            }
            return Some(i);
        }
        i += 1;
    }
    proof {
        lemma_find_adapter_none(adapters@, key@);
    }
    None
}

/// The concrete result of materializing one destination.
#[derive(Debug)]
pub struct SyncOutcome {
    pub mode_used: SyncMode,
    pub target_path: String,
}

impl Clone for SyncOutcome {
    /// A clone is equal to the original.
    fn clone(&self) -> (r: Self)
        ensures
            r == *self,
    {
        SyncOutcome { mode_used: self.mode_used, target_path: self.target_path.clone() }
    }
}

/// Whether `path` is a directory in `m`.
pub open spec fn spec_is_dir(m: Map<Seq<char>, FsNode>, path: Seq<char>) -> bool {
    m.contains_key(path) && m[path] is Dir
}

/// The fingerprint of the directory at `path`.
pub open spec fn spec_dir_content(m: Map<Seq<char>, FsNode>, path: Seq<char>) -> u64 {
    match m[path] {
        FsNode::Dir { content } => content,
        FsNode::File { content } => content,
        FsNode::Symlink { .. } => 0,
        FsNode::Junction { .. } => 0,
    }
}

/// Whether the node standing at a destination is exactly what the
/// reported mode says it is: the mode, when inspected, matches the
/// destination's true link type.
pub open spec fn mode_matches_node(
    mode: SyncMode,
    node: FsNode,
    source: Seq<char>,
    content: u64,
) -> bool {
    match node {
        FsNode::Symlink { target } => mode == SyncMode::Symlink && target@ == source,
        FsNode::Junction { target } => mode == SyncMode::Junction && target@ == source,
        FsNode::Dir { content: c } => mode == SyncMode::Copy && c == content,
        FsNode::File { .. } => false,
    }
}

/// Materializes `target` from the ready source directory at `source`,
/// walking the strategy list (symlink, junction, copy) top-down. When the
/// destination already exists it is replaced only under `overwrite`;
/// otherwise the call fails with the conflicting path.
pub fn sync_dir_hybrid_with_overwrite(
    fs: &mut FsModel,
    caps: FsCapabilities,
    source: &String,
    target: &String,
    overwrite: bool,
) -> (r: Result<SyncOutcome, SkillError>)
    requires
        spec_is_dir(old(fs)@, source@),
    ensures
        match r {
            Ok(out) => {
                &&& !(old(fs)@.contains_key(target@) && !overwrite)
                &&& out.mode_used == spec_choose_mode(SyncMode::Auto, caps)
                &&& out.target_path@ == target@
                &&& final(fs)@.contains_key(target@)
                &&& mode_matches_node(
                    out.mode_used,
                    final(fs)@[target@],
                    source@,
                    spec_dir_content(old(fs)@, source@),
                )
                &&& final(fs)@ == old(fs)@.insert(target@, final(fs)@[target@])
            },
            Err(e) => {
                &&& old(fs)@.contains_key(target@) && !overwrite
                &&& e matches SkillError::TargetExists { path } && path@ == target@
                &&& final(fs)@ == old(fs)@
            },
        },
{
    let content = match fs.get(source.as_str()) {
        Some(node) => match node {
            FsNode::Dir { content } => *content,
            FsNode::File { content } => *content,
            FsNode::Symlink { .. } => 0,
            FsNode::Junction { .. } => 0,
        },
        None => 0,
    };
    if fs.contains(target.as_str()) {
        if !overwrite {
            return Err(SkillError::TargetExists { path: target.clone() });
        }
        // An existing symlink is unlinked, not followed; a directory is
        // removed whole. The model removes the entry either way.
        fs.remove(target.as_str());
    }
    let mode = choose_mode(SyncMode::Auto, caps);
    match mode {
        SyncMode::Symlink => {
            fs.set(target.clone(), FsNode::Symlink { target: source.clone() });
        },
        SyncMode::Junction => {
            fs.set(target.clone(), FsNode::Junction { target: source.clone() });
        },
        SyncMode::Copy => {
            fs.set(target.clone(), FsNode::Dir { content });
        },
        SyncMode::Auto => {
            proof {
                assert(false);
            }
        },
    }
    proof {
        assert(fs@ =~= old(fs)@.insert(target@, fs@[target@]));
    }
    Ok(SyncOutcome { mode_used: mode, target_path: target.clone() })
}

/// Materializes `target` from `source`, failing on an existing
/// destination.
pub fn sync_dir_hybrid(
    fs: &mut FsModel,
    caps: FsCapabilities,
    source: &String,
    target: &String,
) -> (r: Result<SyncOutcome, SkillError>)
    requires
        spec_is_dir(old(fs)@, source@),
    ensures
        match r {
            Ok(out) => {
                &&& !old(fs)@.contains_key(target@)
                &&& out.mode_used == spec_choose_mode(SyncMode::Auto, caps)
                &&& out.target_path@ == target@
                &&& final(fs)@.contains_key(target@)
                &&& mode_matches_node(
                    out.mode_used,
                    final(fs)@[target@],
                    source@,
                    spec_dir_content(old(fs)@, source@),
                )
                &&& final(fs)@ == old(fs)@.insert(target@, final(fs)@[target@])
            },
            Err(e) => {
                &&& old(fs)@.contains_key(target@)
                &&& e matches SkillError::TargetExists { path } && path@ == target@
                &&& final(fs)@ == old(fs)@
            },
        },
{
    sync_dir_hybrid_with_overwrite(fs, caps, source, target, false)
}

/// Whether `key` names an installed adapter sharing `dir` as its skills
/// directory — membership in the shared-destination group.
pub open spec fn in_installed_group(s: Seq<ToolAdapter>, dir: Seq<char>, key: Seq<char>) -> bool {
    exists|k: int|
        0 <= k < s.len() && s[k].skills_dir@ == dir && s[k].installed && s[k].key@ == key
}

/// Syncs one skill directory to one tool's skills directory and records
/// the pairing for every installed tool watching that same physical
/// directory, so the store never disagrees with reality for tools that
/// were not individually synced.
pub fn sync_skill_to_tool(
    store: &mut SkillStore,
    fs: &mut FsModel,
    adapters: &Vec<ToolAdapter>,
    caps: FsCapabilities,
    source_path: &String,
    skill_id: &String,
    name: &String,
    tool: &String,
    overwrite: bool,
    now: i64,
) -> (r: Result<SyncOutcome, SkillError>)
    requires
        old(store).wf(),
        adapters_wf(adapters@),
        spec_is_dir(old(fs)@, source_path@),
    ensures
        final(store).wf(),
        final(store).skills@ == old(store).skills@,
        final(store).hosts@ == old(store).hosts@,
        final(store).custom_targets@ == old(store).custom_targets@,
        final(store).settings_view() == old(store).settings_view(),
        match r {
            Ok(out) => match spec_find_adapter(adapters@, tool@) {
                Some(ad) => {
                    &&& ad.installed
                    &&& out.mode_used == spec_choose_mode(SyncMode::Auto, caps)
                    &&& out.target_path@ == spec_join_path(ad.skills_dir@, name@)
                    &&& !(old(fs)@.contains_key(out.target_path@) && !overwrite)
                    &&& final(fs)@.contains_key(out.target_path@)
                    &&& mode_matches_node(
                        out.mode_used,
                        final(fs)@[out.target_path@],
                        source_path@,
                        spec_dir_content(old(fs)@, source_path@),
                    )
                    &&& final(fs)@ == old(fs)@.insert(
                        out.target_path@,
                        final(fs)@[out.target_path@],
                    )
                    &&& forall|k: int|
                        0 <= k < adapters@.len() && (#[trigger] adapters@[k]).skills_dir@
                            == ad.skills_dir@ && adapters@[k].installed ==> exists|n: int|
                            0 <= n < final(store).targets@.len()
                                && (#[trigger] final(store).targets@[n]).skill_id@
                                == skill_id@ && final(store).targets@[n].tool@
                                == adapters@[k].key@ && final(store).targets@[n].target_path@
                                == out.target_path@ && final(store).targets@[n].mode
                                == out.mode_used && final(store).targets@[n].status
                                == TargetStatus::Synced && final(store).targets@[n].synced_at
                                == Some(now)
                    &&& forall|rec: SkillTargetRecord|
                        #[trigger] final(store).targets@.contains(rec)
                            ==> old(store).targets@.contains(rec) || (rec.skill_id@ == skill_id@
                            && in_installed_group(adapters@, ad.skills_dir@, rec.tool@)
                            && rec.target_path@ == out.target_path@ && rec.mode == out.mode_used)
                    &&& forall|rec: SkillTargetRecord|
                        #[trigger] old(store).targets@.contains(rec) && !(rec.skill_id@
                            == skill_id@ && in_installed_group(
                            adapters@,
                            ad.skills_dir@,
                            rec.tool@,
                        )) ==> final(store).targets@.contains(rec)
                },
                None => false,
            },
            Err(e) => {
                &&& final(store).targets@ == old(store).targets@
                &&& match e {
                    SkillError::NotFound { .. } => spec_find_adapter(adapters@, tool@) is None
                        && final(fs)@ == old(fs)@,
                    SkillError::ToolNotInstalled { tool: t } => {
                        match spec_find_adapter(adapters@, tool@) {
                            Some(ad) => !ad.installed && t@ == tool@ && final(fs)@ == old(fs)@,
                            None => false,
                        }
                    },
                    SkillError::TargetExists { path } => {
                        match spec_find_adapter(adapters@, tool@) {
                            Some(ad) => ad.installed && !overwrite && path@ == spec_join_path(
                                ad.skills_dir@,
                                name@,
                            ) && old(fs)@.contains_key(path@) && final(fs)@ == old(fs)@,
                            None => false,
                        }
                    },
                    _ => false,
                }
            },
        },
{
    let ai = match find_adapter(adapters, tool.as_str()) {
        Some(i) => i,
        None => {
            return Err(SkillError::NotFound { what: tool.clone() });
        },
    };
    if !adapters[ai].installed {
        return Err(SkillError::ToolNotInstalled { tool: tool.clone() });
    }
    let ghost ad = adapters@[ai as int];
    let target = join_path(adapters[ai].skills_dir.as_str(), name.as_str());
    let outcome = match sync_dir_hybrid_with_overwrite(fs, caps, source_path, &target, overwrite) {
        Ok(out) => out,
        Err(e) => {
            return Err(e);
        },
    };

    // Record the pairing for every installed adapter of the group that
    // shares this physical skills directory.
    let ghost fs_after = fs@;
    let ghost targets0 = store.targets@;
    let mut k: usize = 0;
    while k < adapters.len()
        invariant
            store.wf(),
            fs@ == fs_after,
            store.skills@ == old(store).skills@,
            store.hosts@ == old(store).hosts@,
            store.custom_targets@ == old(store).custom_targets@,
            store.settings_view() == old(store).settings_view(),
            0 <= k <= adapters@.len(),
            adapters_wf(adapters@),
            ai < adapters@.len(),
            ad == adapters@[ai as int],
            outcome.target_path@ == spec_join_path(ad.skills_dir@, name@),
            forall|j: int|
                0 <= j < k && (#[trigger] adapters@[j]).skills_dir@ == ad.skills_dir@
                    && adapters@[j].installed ==> exists|n: int|
                    0 <= n < store.targets@.len() && (#[trigger] store.targets@[n]).skill_id@
                        == skill_id@ && store.targets@[n].tool@ == adapters@[j].key@
                        && store.targets@[n].target_path@ == outcome.target_path@
                        && store.targets@[n].mode == outcome.mode_used
                        && store.targets@[n].status == TargetStatus::Synced
                        && store.targets@[n].synced_at == Some(now),
            forall|rec: SkillTargetRecord|
                #[trigger] store.targets@.contains(rec) ==> old(store).targets@.contains(rec) || (
                rec.skill_id@ == skill_id@ && in_installed_group(
                    adapters@,
                    ad.skills_dir@,
                    rec.tool@,
                ) && rec.target_path@ == outcome.target_path@ && rec.mode == outcome.mode_used),
            forall|rec: SkillTargetRecord|
                #[trigger] old(store).targets@.contains(rec) && !(rec.skill_id@ == skill_id@
                    && in_installed_group(adapters@, ad.skills_dir@, rec.tool@))
                    ==> store.targets@.contains(rec),
        decreases adapters@.len() - k,
    {
        let same_dir = str_eq(adapters[k].skills_dir.as_str(), adapters[ai].skills_dir.as_str());
        if same_dir && adapters[k].installed {
            let rec = SkillTargetRecord {
                id: new_record_id(),
                skill_id: skill_id.clone(),
                tool: adapters[k].key.clone(),
                target_path: outcome.target_path.clone(),
                mode: outcome.mode_used,
                status: TargetStatus::Synced,
                last_error: None,
                synced_at: Some(now),
            };
            let ghost pre = *store;
            let ghost before = store.targets@;
            store.upsert_skill_target(rec);
            proof {
                assert(store.targets@.contains(rec));
                assert(in_installed_group(adapters@, ad.skills_dir@, rec.tool@));
                // Containment both ways across the upsert: an update only
                // displaces the record carrying rec's own composite key.
                assert forall|r2: SkillTargetRecord| #[trigger]
                    store.targets@.contains(r2) implies before.contains(r2) || r2 == rec by {
                    let n2 = choose|n: int|
                        0 <= n < store.targets@.len() && store.targets@[n] == r2;
                    if pre.has_target(rec.skill_id@, rec.tool@) {
                        let m = choose|m: int|
                            0 <= m < before.len() && target_keyed(
                                before[m],
                                rec.skill_id@,
                                rec.tool@,
                            ) && store.targets@ == before.update(m, rec);
                        if n2 != m {
                            assert(before[n2] == r2);
                        }
                    } else {
                        if n2 < before.len() {
                            assert(before[n2] == r2);
                        }
                    }
                }
                assert forall|r2: SkillTargetRecord| #[trigger]
                    before.contains(r2) && !(r2.skill_id@ == skill_id@ && in_installed_group(
                        adapters@,
                        ad.skills_dir@,
                        r2.tool@,
                    )) implies store.targets@.contains(r2) by {
                    let n2 = choose|n: int| 0 <= n < before.len() && before[n] == r2;
                    if pre.has_target(rec.skill_id@, rec.tool@) {
                        let m = choose|m: int|
                            0 <= m < before.len() && target_keyed(
                                before[m],
                                rec.skill_id@,
                                rec.tool@,
                            ) && store.targets@ == before.update(m, rec);
                        assert(n2 != m);
                        assert(store.targets@[n2] == r2);
                    } else {
                        assert(store.targets@[n2] == r2);
                    }
                }
                assert forall|j: int|
                    0 <= j < k + 1 && (#[trigger] adapters@[j]).skills_dir@ == ad.skills_dir@
                        && adapters@[j].installed implies exists|n: int|
                    0 <= n < store.targets@.len() && (#[trigger] store.targets@[n]).skill_id@
                        == skill_id@ && store.targets@[n].tool@ == adapters@[j].key@
                        && store.targets@[n].target_path@ == outcome.target_path@
                        && store.targets@[n].mode == outcome.mode_used
                        && store.targets@[n].status == TargetStatus::Synced
                        && store.targets@[n].synced_at == Some(now) by {
                    if j == k {
                        let n0 = choose|n: int|
                            0 <= n < store.targets@.len() && store.targets@[n] == rec;
                        assert(store.targets@[n0].skill_id@ == skill_id@);
                    } else {
                        let n_old = choose|n: int|
                            0 <= n < before.len() && (#[trigger] before[n]).skill_id@ == skill_id@
                                && before[n].tool@ == adapters@[j].key@ && before[n].target_path@
                                == outcome.target_path@ && before[n].mode == outcome.mode_used
                                && before[n].status == TargetStatus::Synced && before[n].synced_at
                                == Some(now);
                        // The upsert either pushed, or updated the one
                        // index carrying rec's composite key, which is not
                        // n_old: the group keys are distinct.
                        if pre.has_target(rec.skill_id@, rec.tool@) {
                            let m = choose|m: int|
                                0 <= m < before.len() && target_keyed(
                                    before[m],
                                    rec.skill_id@,
                                    rec.tool@,
                                ) && store.targets@ == before.update(m, rec);
                            assert(adapters@[j].key@ != adapters@[k as int].key@);
                            assert(m != n_old);
                            assert(store.targets@[n_old] == before[n_old]);
                        } else {
                            assert(store.targets@[n_old] == before[n_old]);
                        }
                    }
                }
            }
        } else {
            proof {
                assert forall|j: int|
                    0 <= j < k + 1 && (#[trigger] adapters@[j]).skills_dir@ == ad.skills_dir@
                        && adapters@[j].installed implies exists|n: int|
                    0 <= n < store.targets@.len() && (#[trigger] store.targets@[n]).skill_id@
                        == skill_id@ && store.targets@[n].tool@ == adapters@[j].key@
                        && store.targets@[n].target_path@ == outcome.target_path@
                        && store.targets@[n].mode == outcome.mode_used
                        && store.targets@[n].status == TargetStatus::Synced
                        && store.targets@[n].synced_at == Some(now) by {
                    assert(j < k);
                }
            }
        }
        k += 1;
    }
    proof {
        assert(spec_find_adapter(adapters@, tool@) == Some(ad));
    }
    Ok(outcome)
}

/// Unsyncs one skill from one tool: the physical destination of every
/// recorded group member is removed (removal of an already-absent entry
/// is a no-op), and every group member's record is deleted,
/// unconditionally — a record must die together with the path it
/// describes, so neither partial filesystem state nor an uninstalled
/// group may leave stale rows behind.
pub fn unsync_skill_from_tool(
    store: &mut SkillStore,
    fs: &mut FsModel,
    adapters: &Vec<ToolAdapter>,
    skill_id: &String,
    tool: &String,
) -> (r: Result<(), SkillError>)
    requires
        old(store).wf(),
        adapters_wf(adapters@),
    ensures
        r is Ok,
        final(store).wf(),
        final(store).skills@ == old(store).skills@,
        final(store).hosts@ == old(store).hosts@,
        final(store).custom_targets@ == old(store).custom_targets@,
        final(store).settings_view() == old(store).settings_view(),
        match spec_find_adapter(adapters@, tool@) {
            Some(ad) => unsync_applied(
                old(store),
                final(store),
                old(fs),
                final(fs),
                skill_id@,
                |t: Seq<char>| spec_group_member(adapters@, ad.skills_dir@, t),
            ),
            None => unsync_applied(
                old(store),
                final(store),
                old(fs),
                final(fs),
                skill_id@,
                |t: Seq<char>| t == tool@,
            ),
        },
{
    let mut keys: Vec<String> = Vec::new();
    match find_adapter(adapters, tool.as_str()) {
        Some(ai) => {
            let ghost ad = adapters@[ai as int];
            let ghost dir = ad.skills_dir@;
            let mut k: usize = 0;
            while k < adapters.len()
                invariant
                    0 <= k <= adapters@.len(),
                    ai < adapters@.len(),
                    ad == adapters@[ai as int],
                    dir == ad.skills_dir@,
                    forall|i: int|
                        0 <= i < keys@.len() ==> spec_group_member(adapters@, dir, keys@[i]@),
                    forall|j: int|
                        0 <= j < k && (#[trigger] adapters@[j]).skills_dir@ == dir
                            ==> crate::strutil::spec_contains_string(keys@, adapters@[j].key@),
                decreases adapters@.len() - k,
            {
                let ghost keys_before = keys@;
                if str_eq(adapters[k].skills_dir.as_str(), adapters[ai].skills_dir.as_str()) {
                    keys.push(adapters[k].key.clone());
                    proof {
                        assert(keys@[keys@.len() - 1]@ == adapters@[k as int].key@);
                        assert forall|j: int|
                            0 <= j < k + 1 && (#[trigger] adapters@[j]).skills_dir@ == dir
                                implies crate::strutil::spec_contains_string(
                                keys@,
                                adapters@[j].key@,
                            ) by {
                            if j < k {
                                let i0 = choose|i0: int|
                                    0 <= i0 < keys_before.len() && keys_before[i0]@
                                        == adapters@[j].key@;
                                assert(keys@[i0]@ == adapters@[j].key@);
                            } else {
                                assert(keys@[keys@.len() - 1]@ == adapters@[j].key@);
                            }
                        }
                    }
                }
                k += 1;
            }
            proof {
                assert forall|t: Seq<char>|
                    #[trigger] crate::strutil::spec_contains_string(keys@, t)
                        == spec_group_member(adapters@, dir, t) by {
                    if crate::strutil::spec_contains_string(keys@, t) {
                        let i0 = choose|i0: int| 0 <= i0 < keys@.len() && keys@[i0]@ == t;
                        assert(spec_group_member(adapters@, dir, keys@[i0]@));
                    }
                    if spec_group_member(adapters@, dir, t) {
                        let j = choose|j: int|
                            0 <= j < adapters@.len() && (#[trigger] adapters@[j]).skills_dir@
                                == dir && adapters@[j].key@ == t;
                        assert(crate::strutil::spec_contains_string(keys@, adapters@[j].key@));
                    }
                }
            }
            remove_group_targets(
                store,
                fs,
                skill_id,
                &keys,
                Ghost(|t: Seq<char>| spec_group_member(adapters@, dir, t)),
            );
            Ok(())
        },
        None => {
            keys.push(tool.clone());
            proof {
                assert forall|t: Seq<char>|
                    #[trigger] crate::strutil::spec_contains_string(keys@, t) == (t == tool@) by {
                    if t == tool@ {
                        assert(keys@[0]@ == tool@);
                    }
                }
            }
            remove_group_targets(store, fs, skill_id, &keys, Ghost(|t: Seq<char>| t == tool@));
            Ok(())
        },
    }
}

/// Whether `key` belongs to the group of adapters whose skills directory
/// is `dir`.
pub open spec fn spec_group_member(s: Seq<ToolAdapter>, dir: Seq<char>, key: Seq<char>) -> bool {
    exists|k: int| 0 <= k < s.len() && (#[trigger] s[k]).skills_dir@ == dir && s[k].key@ == key
}

/// The combined effect of unsyncing `skill_id` from every destination key
/// satisfying `member`: each recorded destination path is gone from the
/// filesystem, nothing else moved, and every group record is deleted.
pub open spec fn unsync_applied(
    store0: &SkillStore,
    store1: &SkillStore,
    fs0: &FsModel,
    fs1: &FsModel,
    skill_id: Seq<char>,
    member: spec_fn(Seq<char>) -> bool,
) -> bool {
    &&& forall|p: Seq<char>|
        #[trigger] fs1@.contains_key(p) <==> fs0@.contains_key(p) && !(exists|n: int|
            0 <= n < store0.targets@.len() && (#[trigger] store0.targets@[n]).skill_id@ == skill_id
                && member(store0.targets@[n].tool@) && store0.targets@[n].target_path@ == p)
    &&& forall|p: Seq<char>| #[trigger] fs1@.contains_key(p) ==> fs1@[p] == fs0@[p]
    &&& forall|n: int|
        0 <= n < store1.targets@.len() ==> !((#[trigger] store1.targets@[n]).skill_id@ == skill_id
            && member(store1.targets@[n].tool@))
    &&& forall|rec: SkillTargetRecord|
        #[trigger] store1.targets@.contains(rec) ==> store0.targets@.contains(rec)
    &&& forall|rec: SkillTargetRecord|
        #[trigger] store0.targets@.contains(rec) && !(rec.skill_id@ == skill_id && member(
            rec.tool@,
        )) ==> store1.targets@.contains(rec)
}

/// Removes the recorded destination of every (skill, key) pairing named
/// by `keys`, then deletes those records in one pass. `member` is the
/// key-set `keys` stands for, handed in by the caller.
fn remove_group_targets(
    store: &mut SkillStore,
    fs: &mut FsModel,
    skill_id: &String,
    keys: &Vec<String>,
    Ghost(member): Ghost<spec_fn(Seq<char>) -> bool>,
)
    requires
        old(store).wf(),
        forall|t: Seq<char>|
            #[trigger] member(t) == crate::strutil::spec_contains_string(keys@, t),
    ensures
        final(store).wf(),
        final(store).skills@ == old(store).skills@,
        final(store).hosts@ == old(store).hosts@,
        final(store).custom_targets@ == old(store).custom_targets@,
        final(store).settings_view() == old(store).settings_view(),
        unsync_applied(old(store), final(store), old(fs), final(fs), skill_id@, member),
{
    let mut i: usize = 0;
    while i < keys.len()
        invariant
            store.wf(),
            *store == *old(store),
            0 <= i <= keys@.len(),
            forall|p: Seq<char>|
                #[trigger] fs@.contains_key(p) <==> old(fs)@.contains_key(p) && !(exists|n: int|
                    0 <= n < store.targets@.len() && (#[trigger] store.targets@[n]).skill_id@
                        == skill_id@ && (exists|j: int| 0 <= j < i && keys@[j]@
                        == store.targets@[n].tool@) && store.targets@[n].target_path@ == p),
            forall|p: Seq<char>| #[trigger] fs@.contains_key(p) ==> fs@[p] == old(fs)@[p],
        decreases keys@.len() - i,
    {
        match store.get_skill_target(skill_id.as_str(), keys[i].as_str()) {
            Some(t) => {
                fs.remove(t.target_path.as_str());
                proof {
                    let ghost removed = t.target_path@;
                    assert forall|p: Seq<char>| #[trigger]
                        fs@.contains_key(p) <==> old(fs)@.contains_key(p) && !(exists|n: int|
                            0 <= n < store.targets@.len() && (#[trigger] store.targets@[n]).skill_id@
                                == skill_id@ && (exists|j: int| 0 <= j < i + 1 && keys@[j]@
                                == store.targets@[n].tool@) && store.targets@[n].target_path@
                                == p) by {
                        if p == removed {
                            let n0 = choose|n: int|
                                0 <= n < store.targets@.len() && store.targets@[n] == t;
                            assert(store.targets@[n0].skill_id@ == skill_id@);
                            assert(keys@[i as int]@ == store.targets@[n0].tool@);
                        }
                    }
                }
            },
            None => {
                proof {
                    assert forall|p: Seq<char>| #[trigger]
                        fs@.contains_key(p) <==> old(fs)@.contains_key(p) && !(exists|n: int|
                            0 <= n < store.targets@.len() && (#[trigger] store.targets@[n]).skill_id@
                                == skill_id@ && (exists|j: int| 0 <= j < i + 1 && keys@[j]@
                                == store.targets@[n].tool@) && store.targets@[n].target_path@
                                == p) by {
                        if old(fs)@.contains_key(p) && !fs@.contains_key(p) {
                        }
                    }
                }
            },
        }
        i += 1;
    }
    let ghost targets0 = store.targets@;
    store.delete_skill_targets_for_tools(skill_id.as_str(), keys);
    proof {
        broadcast use vstd::seq_lib::group_filter_ensures;

        let pred = |t: SkillTargetRecord| !(t.skill_id@ == skill_id@
            && crate::strutil::spec_contains_string(keys@, t.tool@));
        crate::store::lemma_filter_elems_from(targets0, pred);
        assert forall|rec: SkillTargetRecord| #[trigger]
            store.targets@.contains(rec) implies targets0.contains(rec) by {
            let n0 = choose|n: int| 0 <= n < store.targets@.len() && store.targets@[n] == rec;
            let j0 = choose|j: int| 0 <= j < targets0.len() && targets0[j] == targets0.filter(
                pred,
            )[n0];
        }
        assert forall|rec: SkillTargetRecord| #[trigger]
            targets0.contains(rec) && !(rec.skill_id@ == skill_id@ && member(rec.tool@))
            implies store.targets@.contains(rec) by {
            let n0 = choose|n: int| 0 <= n < targets0.len() && targets0[n] == rec;
            assert(pred(rec));
            assert(targets0.filter(pred).contains(targets0[n0]));
        }
        assert forall|n: int|
            0 <= n < store.targets@.len() implies !((#[trigger] store.targets@[n]).skill_id@
            == skill_id@ && member(store.targets@[n].tool@)) by {
            assert(pred(store.targets@[n]));
        }
    }
}


/// Unsync after sync leaves nothing behind: once `unsync_applied` holds —
/// as unsyncing ensures, whatever state syncing (or anything else) left —
/// every destination recorded for the skill under a group key is gone
/// from the filesystem and its record is gone from the store. This holds
/// whether or not the destination still existed, since removing an
/// absent entry is a no-op.
pub proof fn lemma_unsync_after_sync(
    store0: &SkillStore,
    store1: &SkillStore,
    fs0: &FsModel,
    fs1: &FsModel,
    skill_id: Seq<char>,
    member: spec_fn(Seq<char>) -> bool,
    n: int,
)
    requires
        unsync_applied(store0, store1, fs0, fs1, skill_id, member),
        0 <= n < store0.targets@.len(),
        store0.targets@[n].skill_id@ == skill_id,
        member(store0.targets@[n].tool@),
    ensures
        !fs1@.contains_key(store0.targets@[n].target_path@),
        !store1.has_target(skill_id, store0.targets@[n].tool@),
{
    assert(!fs1@.contains_key(store0.targets@[n].target_path@));
    if store1.has_target(skill_id, store0.targets@[n].tool@) {
        let m = choose|m: int|
            0 <= m < store1.targets@.len() && target_keyed(
                store1.targets@[m],
                skill_id,
                store0.targets@[n].tool@,
            );
        assert(member(store1.targets@[m].tool@));
        assert(false);
    }
}

} // verus!
