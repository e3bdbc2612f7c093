//! The skill store: the durable record of every managed skill, every
//! (skill, destination) sync target, every remote host and every custom
//! target, plus a string-keyed settings area. The store holds records
//! only — it never touches the filesystem — and the engines reconcile it
//! against the filesystem model.

use vstd::prelude::*;
use crate::strutil::str_eq;
use crate::SyncMode;

verus! {

/// Whether a sync target is currently believed materialized.
#[derive(Clone, Copy, Debug, PartialEq, Eq, Structural)]
pub enum TargetStatus {
    Synced,
    Failed,
}

/// The coarse state machine a remote host moves through, driven only by
/// sync attempts (a successful listing may reset a prior error).
#[derive(Clone, Copy, Debug, PartialEq, Eq, Structural)]
pub enum HostStatus {
    Idle,
    Syncing,
    SyncOk,
    SyncError,
}

/// How a remote session authenticates.
#[derive(Clone, Copy, Debug, PartialEq, Eq, Structural)]
pub enum AuthMethod {
    KeyFile,
    Agent,
}

/// One managed skill: identity, source, central copy and bookkeeping.
#[derive(Debug)]
pub struct ManagedSkillRecord {
    pub id: String,
    pub name: String,
    pub source_type: String,
    pub source_ref: Option<String>,
    pub central_path: String,
    pub content_hash: Option<u64>,
    pub created_at: i64,
    pub updated_at: i64,
    pub last_sync_at: Option<i64>,
    pub status: String,
}

/// One (skill, destination) pairing; at most one per composite key.
#[derive(Debug)]
pub struct SkillTargetRecord {
    pub id: String,
    pub skill_id: String,
    pub tool: String,
    pub target_path: String,
    pub mode: SyncMode,
    pub status: TargetStatus,
    pub last_error: Option<String>,
    pub synced_at: Option<i64>,
}

/// One configured remote host.
#[derive(Debug)]
pub struct RemoteHostRecord {
    pub id: String,
    pub label: String,
    pub host: String,
    pub port: i64,
    pub username: String,
    pub auth_method: AuthMethod,
    pub key_path: Option<String>,
    pub created_at: i64,
    pub updated_at: i64,
    pub last_sync_at: Option<i64>,
    pub status: HostStatus,
}

/// One custom (non-tool) destination; bound to a remote host when synced
/// over SSH, local otherwise.
#[derive(Debug)]
pub struct CustomTargetRecord {
    pub id: String,
    pub label: String,
    pub path: String,
    pub remote_host_id: Option<String>,
    pub created_at: i64,
}

/// Cloning an option of a string, keeping the value.
pub fn clone_opt_string(o: &Option<String>) -> (r: Option<String>)
    ensures
        r == *o,
{
    match o {
        Some(s) => Some(s.clone()),
        None => None,
    }
}

impl Clone for ManagedSkillRecord {
    /// A clone is equal to the original.
    fn clone(&self) -> (r: Self)
        ensures
            r == *self,
    {
        ManagedSkillRecord {
            id: self.id.clone(),
            name: self.name.clone(),
            source_type: self.source_type.clone(),
            source_ref: clone_opt_string(&self.source_ref),
            central_path: self.central_path.clone(),
            content_hash: self.content_hash,
            created_at: self.created_at,
            updated_at: self.updated_at,
            last_sync_at: self.last_sync_at,
            status: self.status.clone(),
        }
    }
}

impl Clone for SkillTargetRecord {
    /// A clone is equal to the original.
    fn clone(&self) -> (r: Self)
        ensures
            r == *self,
    {
        SkillTargetRecord {
            id: self.id.clone(),
            skill_id: self.skill_id.clone(),
            tool: self.tool.clone(),
            target_path: self.target_path.clone(),
            mode: self.mode,
            status: self.status,
            last_error: clone_opt_string(&self.last_error),
            synced_at: self.synced_at,
        }
    }
}

impl Clone for RemoteHostRecord {
    /// A clone is equal to the original.
    fn clone(&self) -> (r: Self)
        ensures
            r == *self,
    {
        RemoteHostRecord {
            id: self.id.clone(),
            label: self.label.clone(),
            host: self.host.clone(),
            port: self.port,
            username: self.username.clone(),
            auth_method: self.auth_method,
            key_path: clone_opt_string(&self.key_path),
            created_at: self.created_at,
            updated_at: self.updated_at,
            last_sync_at: self.last_sync_at,
            status: self.status,
        }
    }
}

impl Clone for CustomTargetRecord {
    /// A clone is equal to the original.
    fn clone(&self) -> (r: Self)
        ensures
            r == *self,
    {
        CustomTargetRecord {
            id: self.id.clone(),
            label: self.label.clone(),
            path: self.path.clone(),
            remote_host_id: clone_opt_string(&self.remote_host_id),
            created_at: self.created_at,
        }
    }
}

/// The store: one table per record kind and the settings area.
pub struct SkillStore {
    pub skills: Vec<ManagedSkillRecord>,
    pub targets: Vec<SkillTargetRecord>,
    pub hosts: Vec<RemoteHostRecord>,
    pub custom_targets: Vec<CustomTargetRecord>,
    pub settings: vstd::hash_map::StringHashMap<String>,
}

/// Whether `t` is the target for the composite key (`skill_id`, `tool`).
pub open spec fn target_keyed(t: SkillTargetRecord, skill_id: Seq<char>, tool: Seq<char>) -> bool {
    t.skill_id@ == skill_id && t.tool@ == tool
}

impl SkillStore {
    /// Key uniqueness across every table: skill ids and central paths,
    /// (skill, destination) composite keys, host ids, custom-target ids.
    pub open spec fn wf(&self) -> bool {
        &&& forall|i: int, j: int|
            0 <= i < j < self.skills@.len() ==> self.skills@[i].id@ != self.skills@[j].id@
        &&& forall|i: int, j: int|
            0 <= i < j < self.skills@.len() ==> self.skills@[i].central_path@
                != self.skills@[j].central_path@
        &&& forall|i: int, j: int|
            0 <= i < j < self.targets@.len() ==> !(self.targets@[i].skill_id@
                == self.targets@[j].skill_id@ && self.targets@[i].tool@
                == self.targets@[j].tool@)
        &&& forall|i: int, j: int|
            0 <= i < j < self.hosts@.len() ==> self.hosts@[i].id@ != self.hosts@[j].id@
        &&& forall|i: int, j: int|
            0 <= i < j < self.custom_targets@.len() ==> self.custom_targets@[i].id@
                != self.custom_targets@[j].id@
    }

    /// Whether some skill record carries `id`.
    pub open spec fn has_skill(&self, id: Seq<char>) -> bool {
        exists|i: int| 0 <= i < self.skills@.len() && self.skills@[i].id@ == id
    }

    /// Whether some target record carries the composite key.
    pub open spec fn has_target(&self, skill_id: Seq<char>, tool: Seq<char>) -> bool {
        exists|i: int|
            0 <= i < self.targets@.len() && target_keyed(self.targets@[i], skill_id, tool)
    }

    /// Whether some host record carries `id`.
    pub open spec fn has_host(&self, id: Seq<char>) -> bool {
        exists|i: int| 0 <= i < self.hosts@.len() && self.hosts@[i].id@ == id
    }

    /// Whether some custom-target record carries `id`.
    pub open spec fn has_custom_target(&self, id: Seq<char>) -> bool {
        exists|i: int|
            0 <= i < self.custom_targets@.len() && self.custom_targets@[i].id@ == id
    }

    /// The settings area, abstractly.
    pub open spec fn settings_view(&self) -> Map<Seq<char>, String> {
        self.settings@
    }

    /// An empty store.
    pub fn new() -> (r: Self)
        ensures
            r.wf(),
            r.skills@.len() == 0,
            r.targets@.len() == 0,
            r.hosts@.len() == 0,
            r.custom_targets@.len() == 0,
            r.settings_view() == Map::<Seq<char>, String>::empty(),
    {
        SkillStore {
            skills: Vec::new(),
            targets: Vec::new(),
            hosts: Vec::new(),
            custom_targets: Vec::new(),
            settings: vstd::hash_map::StringHashMap::new(),
        }
    }

    // ── skills ──────────────────────────────────────────────────────

    /// The index of the skill with `id`, if any.
    pub fn skill_index(&self, id: &str) -> (r: Option<usize>)
        ensures
            match r {
                Some(i) => i < self.skills@.len() && self.skills@[i as int].id@ == id@,
                None => !self.has_skill(id@),
            },
    {
        let mut i: usize = 0;
        while i < self.skills.len()
            invariant
                0 <= i <= self.skills@.len(),
                forall|j: int| 0 <= j < i ==> self.skills@[j].id@ != id@,
            decreases self.skills@.len() - i,
        {
            if str_eq(self.skills[i].id.as_str(), id) {
                return Some(i);
            }
            i += 1;
        }
        None
    }

    /// The skill with `id`, if any.
    pub fn get_skill_by_id(&self, id: &str) -> (r: Option<ManagedSkillRecord>)
        ensures
            match r {
                Some(rec) => rec.id@ == id@ && self.skills@.contains(rec),
                None => !self.has_skill(id@),
            },
    {
        match self.skill_index(id) {
            Some(i) => {
                let rec = self.skills[i].clone();
                proof {
                    assert(self.skills@.contains(self.skills@[i as int]));
                }
                Some(rec)
            },
            None => None,
        }
    }

    /// Writes `rec`, replacing the record with the same id or appending a
    /// new one. The caller owes central-path uniqueness: no other skill
    /// may own `rec.central_path`.
    pub fn upsert_skill(&mut self, rec: ManagedSkillRecord)
        requires
            old(self).wf(),
            forall|i: int|
                0 <= i < old(self).skills@.len() && old(self).skills@[i].id@ != rec.id@
                    ==> old(self).skills@[i].central_path@ != rec.central_path@,
        ensures
            final(self).wf(),
            final(self).has_skill(rec.id@),
            if old(self).has_skill(rec.id@) {
                exists|i: int|
                    0 <= i < old(self).skills@.len() && old(self).skills@[i].id@ == rec.id@
                        && final(self).skills@ == old(self).skills@.update(i, rec)
            } else {
                final(self).skills@ == old(self).skills@.push(rec)
            },
            final(self).targets@ == old(self).targets@,
            final(self).hosts@ == old(self).hosts@,
            final(self).custom_targets@ == old(self).custom_targets@,
            final(self).settings_view() == old(self).settings_view(),
    {
        match self.skill_index(rec.id.as_str()) {
            Some(i) => {
                self.skills[i] = rec;
                proof {
                    assert(final(self).skills@[i as int].id@ == rec.id@);
                }
            },
            None => {
                let ghost n = self.skills@.len();
                self.skills.push(rec);
                proof {
                    assert(final(self).skills@[n as int].id@ == rec.id@);
                }
            },
        }
    }

    /// Deletes the skill with `id` and, as the database cascade would,
    /// every sync target that references it.
    pub fn delete_skill(&mut self, id: &str)
        requires
            old(self).wf(),
        ensures
            final(self).wf(),
            final(self).skills@ == old(self).skills@.filter(|r: ManagedSkillRecord| r.id@ != id@),
            final(self).targets@ == old(self).targets@.filter(
                |t: SkillTargetRecord| t.skill_id@ != id@,
            ),
            !final(self).has_skill(id@),
            forall|tool: Seq<char>| !final(self).has_target(id@, tool),
            final(self).hosts@ == old(self).hosts@,
            final(self).custom_targets@ == old(self).custom_targets@,
            final(self).settings_view() == old(self).settings_view(),
    {
        let ghost old_skills = self.skills@;
        let ghost old_targets = self.targets@;
        let mut kept: Vec<ManagedSkillRecord> = Vec::new();
        let mut i: usize = 0;
        while i < self.skills.len()
            invariant
                0 <= i <= self.skills@.len(),
                self.skills@ == old_skills,
                kept@ == old_skills.take(i as int).filter(|r: ManagedSkillRecord| r.id@ != id@),
            decreases self.skills@.len() - i,
        {
            let r = self.skills[i].clone();
            proof {
                reveal(Seq::filter);
                assert(old_skills.take(i + 1).drop_last() =~= old_skills.take(i as int));
                assert(old_skills.take(i + 1).last() == old_skills[i as int]);
            }
            if !str_eq(r.id.as_str(), id) {
                kept.push(r);
            }
            i += 1;
        }
        proof {
            assert(old_skills.take(old_skills.len() as int) =~= old_skills);
        }
        self.skills = kept;

        let mut kept_t: Vec<SkillTargetRecord> = Vec::new();
        let mut k: usize = 0;
        while k < self.targets.len()
            invariant
                0 <= k <= self.targets@.len(),
                self.targets@ == old_targets,
                kept_t@ == old_targets.take(k as int).filter(
                    |t: SkillTargetRecord| t.skill_id@ != id@,
                ),
            decreases self.targets@.len() - k,
        {
            let t = self.targets[k].clone();
            proof {
                reveal(Seq::filter);
                assert(old_targets.take(k + 1).drop_last() =~= old_targets.take(k as int));
                assert(old_targets.take(k + 1).last() == old_targets[k as int]);
            }
            if !str_eq(t.skill_id.as_str(), id) {
                kept_t.push(t);
            }
            k += 1;
        }
        proof {
            assert(old_targets.take(old_targets.len() as int) =~= old_targets);
        }
        self.targets = kept_t;

        proof {
            broadcast use vstd::seq_lib::group_filter_ensures;

            lemma_filter_keeps_pairwise(
                old_skills,
                |r: ManagedSkillRecord| r.id@ != id@,
                |x: ManagedSkillRecord, y: ManagedSkillRecord| x.id@ != y.id@,
            );
            lemma_filter_keeps_pairwise(
                old_skills,
                |r: ManagedSkillRecord| r.id@ != id@,
                |x: ManagedSkillRecord, y: ManagedSkillRecord| x.central_path@
                    != y.central_path@,
            );
            lemma_filter_keeps_pairwise(
                old_targets,
                |t: SkillTargetRecord| t.skill_id@ != id@,
                |x: SkillTargetRecord, y: SkillTargetRecord| !(x.skill_id@ == y.skill_id@
                    && x.tool@ == y.tool@),
            );
        }
    }

    // ── sync targets ────────────────────────────────────────────────

    /// The index of the target for (`skill_id`, `tool`), if any.
    pub fn target_index(&self, skill_id: &str, tool: &str) -> (r: Option<usize>)
        ensures
            match r {
                Some(i) => i < self.targets@.len() && target_keyed(
                    self.targets@[i as int],
                    skill_id@,
                    tool@,
                ),
                None => !self.has_target(skill_id@, tool@),
            },
    {
        let mut i: usize = 0;
        while i < self.targets.len()
            invariant
                0 <= i <= self.targets@.len(),
                forall|j: int| 0 <= j < i ==> !target_keyed(self.targets@[j], skill_id@, tool@),
            decreases self.targets@.len() - i,
        {
            if str_eq(self.targets[i].skill_id.as_str(), skill_id) && str_eq(
                self.targets[i].tool.as_str(),
                tool,
            ) {
                return Some(i);
            }
            i += 1;
        }
        None
    }

    /// The target record for (`skill_id`, `tool`), if any.
    pub fn get_skill_target(&self, skill_id: &str, tool: &str) -> (r: Option<SkillTargetRecord>)
        ensures
            match r {
                Some(rec) => target_keyed(rec, skill_id@, tool@) && self.targets@.contains(rec),
                None => !self.has_target(skill_id@, tool@),
            },
    {
        match self.target_index(skill_id, tool) {
            Some(i) => {
                let rec = self.targets[i].clone();
                proof {
                    assert(self.targets@.contains(self.targets@[i as int]));
                }
                Some(rec)
            },
            None => None,
        }
    }

    /// Writes `rec`, replacing the record with the same (skill,
    /// destination) key or appending a new one.
    pub fn upsert_skill_target(&mut self, rec: SkillTargetRecord)
        requires
            old(self).wf(),
        ensures
            final(self).wf(),
            final(self).has_target(rec.skill_id@, rec.tool@),
            final(self).targets@.contains(rec),
            if old(self).has_target(rec.skill_id@, rec.tool@) {
                exists|i: int|
                    0 <= i < old(self).targets@.len() && target_keyed(
                        old(self).targets@[i],
                        rec.skill_id@,
                        rec.tool@,
                    ) && final(self).targets@ == old(self).targets@.update(i, rec)
            } else {
                final(self).targets@ == old(self).targets@.push(rec)
            },
            final(self).skills@ == old(self).skills@,
            final(self).hosts@ == old(self).hosts@,
            final(self).custom_targets@ == old(self).custom_targets@,
            final(self).settings_view() == old(self).settings_view(),
    {
        match self.target_index(rec.skill_id.as_str(), rec.tool.as_str()) {
            Some(i) => {
                self.targets[i] = rec;
                proof {
                    assert(final(self).targets@[i as int] == rec);
                    assert(final(self).targets@.contains(final(self).targets@[i as int]));
                }
            },
            None => {
                let ghost n = self.targets@.len();
                self.targets.push(rec);
                proof {
                    assert(final(self).targets@[n as int] == rec);
                    assert(final(self).targets@.contains(final(self).targets@[n as int]));
                }
            },
        }
    }

    /// Deletes the target record for (`skill_id`, `tool`), if present.
    pub fn delete_skill_target(&mut self, skill_id: &str, tool: &str)
        requires
            old(self).wf(),
        ensures
            final(self).wf(),
            final(self).targets@ == old(self).targets@.filter(
                |t: SkillTargetRecord| !target_keyed(t, skill_id@, tool@),
            ),
            !final(self).has_target(skill_id@, tool@),
            final(self).skills@ == old(self).skills@,
            final(self).hosts@ == old(self).hosts@,
            final(self).custom_targets@ == old(self).custom_targets@,
            final(self).settings_view() == old(self).settings_view(),
    {
        let ghost old_targets = self.targets@;
        let mut kept: Vec<SkillTargetRecord> = Vec::new();
        let mut i: usize = 0;
        while i < self.targets.len()
            invariant
                0 <= i <= self.targets@.len(),
                self.targets@ == old_targets,
                kept@ == old_targets.take(i as int).filter(
                    |t: SkillTargetRecord| !target_keyed(t, skill_id@, tool@),
                ),
            decreases self.targets@.len() - i,
        {
            let t = self.targets[i].clone();
            proof {
                reveal(Seq::filter);
                assert(old_targets.take(i + 1).drop_last() =~= old_targets.take(i as int));
                assert(old_targets.take(i + 1).last() == old_targets[i as int]);
            }
            if !(str_eq(t.skill_id.as_str(), skill_id) && str_eq(t.tool.as_str(), tool)) {
                kept.push(t);
            }
            i += 1;
        }
        proof {
            assert(old_targets.take(old_targets.len() as int) =~= old_targets);
        }
        self.targets = kept;
        proof {
            broadcast use vstd::seq_lib::group_filter_ensures;

            lemma_filter_keeps_pairwise(
                old_targets,
                |t: SkillTargetRecord| !target_keyed(t, skill_id@, tool@),
                |x: SkillTargetRecord, y: SkillTargetRecord| !(x.skill_id@ == y.skill_id@
                    && x.tool@ == y.tool@),
            );
        }
    }

    /// Deletes the target records of one skill for every destination key
    /// in `tools`, in one pass; used when a shared-destination group is
    /// unsynced as a whole.
    pub fn delete_skill_targets_for_tools(&mut self, skill_id: &str, tools: &Vec<String>)
        requires
            old(self).wf(),
        ensures
            final(self).wf(),
            final(self).targets@ == old(self).targets@.filter(
                |t: SkillTargetRecord| !(t.skill_id@ == skill_id@
                    && crate::strutil::spec_contains_string(tools@, t.tool@)),
            ),
            final(self).skills@ == old(self).skills@,
            final(self).hosts@ == old(self).hosts@,
            final(self).custom_targets@ == old(self).custom_targets@,
            final(self).settings_view() == old(self).settings_view(),
    {
        let ghost old_targets = self.targets@;
        let ghost pred = |t: SkillTargetRecord| !(t.skill_id@ == skill_id@
            && crate::strutil::spec_contains_string(tools@, t.tool@));
        let mut kept: Vec<SkillTargetRecord> = Vec::new();
        let mut i: usize = 0;
        while i < self.targets.len()
            invariant
                0 <= i <= self.targets@.len(),
                self.targets@ == old_targets,
                pred == (|t: SkillTargetRecord| !(t.skill_id@ == skill_id@
                    && crate::strutil::spec_contains_string(tools@, t.tool@))),
                kept@ == old_targets.take(i as int).filter(pred),
            decreases self.targets@.len() - i,
        {
            let t = self.targets[i].clone();
            proof {
                reveal(Seq::filter);
                assert(old_targets.take(i + 1).drop_last() =~= old_targets.take(i as int));
                assert(old_targets.take(i + 1).last() == old_targets[i as int]);
            }
            if !(str_eq(t.skill_id.as_str(), skill_id) && crate::strutil::contains_string(
                tools,
                t.tool.as_str(),
            )) {
                kept.push(t);
            }
            i += 1;
        }
        proof {
            assert(old_targets.take(old_targets.len() as int) =~= old_targets);
        }
        self.targets = kept;
        proof {
            broadcast use vstd::seq_lib::group_filter_ensures;

            lemma_filter_keeps_pairwise(
                old_targets,
                pred,
                |x: SkillTargetRecord, y: SkillTargetRecord| !(x.skill_id@ == y.skill_id@
                    && x.tool@ == y.tool@),
            );
        }
    }

    /// Every target record of one destination key, in store order.
    pub fn list_targets_for_tool(&self, tool: &str) -> (r: Vec<SkillTargetRecord>)
        ensures
            r@ == self.targets@.filter(|t: SkillTargetRecord| t.tool@ == tool@),
    {
        let mut out: Vec<SkillTargetRecord> = Vec::new();
        let mut i: usize = 0;
        while i < self.targets.len()
            invariant
                0 <= i <= self.targets@.len(),
                out@ == self.targets@.take(i as int).filter(
                    |t: SkillTargetRecord| t.tool@ == tool@,
                ),
            decreases self.targets@.len() - i,
        {
            let t = self.targets[i].clone();
            proof {
                reveal(Seq::filter);
                assert(self.targets@.take(i + 1).drop_last() =~= self.targets@.take(i as int));
                assert(self.targets@.take(i + 1).last() == self.targets@[i as int]);
            }
            if str_eq(t.tool.as_str(), tool) {
                out.push(t);
            }
            i += 1;
        }
        proof {
            assert(self.targets@.take(self.targets@.len() as int) =~= self.targets@);
        }
        out
    }

    /// Deletes every target record of one destination key, across all
    /// skills.
    pub fn delete_targets_for_tool(&mut self, tool: &str)
        requires
            old(self).wf(),
        ensures
            final(self).wf(),
            final(self).targets@ == old(self).targets@.filter(
                |t: SkillTargetRecord| t.tool@ != tool@,
            ),
            final(self).skills@ == old(self).skills@,
            final(self).hosts@ == old(self).hosts@,
            final(self).custom_targets@ == old(self).custom_targets@,
            final(self).settings_view() == old(self).settings_view(),
    {
        let ghost old_targets = self.targets@;
        let mut kept: Vec<SkillTargetRecord> = Vec::new();
        let mut i: usize = 0;
        while i < self.targets.len()
            invariant
                0 <= i <= self.targets@.len(),
                self.targets@ == old_targets,
                kept@ == old_targets.take(i as int).filter(
                    |t: SkillTargetRecord| t.tool@ != tool@,
                ),
            decreases self.targets@.len() - i,
        {
            let t = self.targets[i].clone();
            proof {
                reveal(Seq::filter);
                assert(old_targets.take(i + 1).drop_last() =~= old_targets.take(i as int));
                assert(old_targets.take(i + 1).last() == old_targets[i as int]);
            }
            if !str_eq(t.tool.as_str(), tool) {
                kept.push(t);
            }
            i += 1;
        }
        proof {
            assert(old_targets.take(old_targets.len() as int) =~= old_targets);
        }
        self.targets = kept;
        proof {
            lemma_filter_keeps_pairwise(
                old_targets,
                |t: SkillTargetRecord| t.tool@ != tool@,
                |x: SkillTargetRecord, y: SkillTargetRecord| !(x.skill_id@ == y.skill_id@
                    && x.tool@ == y.tool@),
            );
        }
    }

    /// Every target record of one skill, in store order.
    pub fn list_skill_targets(&self, skill_id: &str) -> (r: Vec<SkillTargetRecord>)
        ensures
            r@ == self.targets@.filter(|t: SkillTargetRecord| t.skill_id@ == skill_id@),
    {
        let mut out: Vec<SkillTargetRecord> = Vec::new();
        let mut i: usize = 0;
        while i < self.targets.len()
            invariant
                0 <= i <= self.targets@.len(),
                out@ == self.targets@.take(i as int).filter(
                    |t: SkillTargetRecord| t.skill_id@ == skill_id@,
                ),
            decreases self.targets@.len() - i,
        {
            let t = self.targets[i].clone();
            proof {
                reveal(Seq::filter);
                assert(self.targets@.take(i + 1).drop_last() =~= self.targets@.take(i as int));
                assert(self.targets@.take(i + 1).last() == self.targets@[i as int]);
            }
            if str_eq(t.skill_id.as_str(), skill_id) {
                out.push(t);
            }
            i += 1;
        }
        proof {
            assert(self.targets@.take(self.targets@.len() as int) =~= self.targets@);
        }
        out
    }

    // ── remote hosts ────────────────────────────────────────────────

    /// The index of the host with `id`, if any.
    pub fn host_index(&self, id: &str) -> (r: Option<usize>)
        ensures
            match r {
                Some(i) => i < self.hosts@.len() && self.hosts@[i as int].id@ == id@,
                None => !self.has_host(id@),
            },
    {
        let mut i: usize = 0;
        while i < self.hosts.len()
            invariant
                0 <= i <= self.hosts@.len(),
                forall|j: int| 0 <= j < i ==> self.hosts@[j].id@ != id@,
            decreases self.hosts@.len() - i,
        {
            if str_eq(self.hosts[i].id.as_str(), id) {
                return Some(i);
            }
            i += 1;
        }
        None
    }

    /// The host with `id`, if any.
    pub fn get_remote_host_by_id(&self, id: &str) -> (r: Option<RemoteHostRecord>)
        ensures
            match r {
                Some(rec) => rec.id@ == id@ && self.hosts@.contains(rec),
                None => !self.has_host(id@),
            },
    {
        match self.host_index(id) {
            Some(i) => {
                let rec = self.hosts[i].clone();
                proof {
                    assert(self.hosts@.contains(self.hosts@[i as int]));
                }
                Some(rec)
            },
            None => None,
        }
    }

    /// Writes `rec`, replacing the host with the same id or appending.
    pub fn upsert_remote_host(&mut self, rec: RemoteHostRecord)
        requires
            old(self).wf(),
        ensures
            final(self).wf(),
            final(self).has_host(rec.id@),
            if old(self).has_host(rec.id@) {
                exists|i: int|
                    0 <= i < old(self).hosts@.len() && old(self).hosts@[i].id@ == rec.id@
                        && final(self).hosts@ == old(self).hosts@.update(i, rec)
            } else {
                final(self).hosts@ == old(self).hosts@.push(rec)
            },
            final(self).skills@ == old(self).skills@,
            final(self).targets@ == old(self).targets@,
            final(self).custom_targets@ == old(self).custom_targets@,
            final(self).settings_view() == old(self).settings_view(),
    {
        match self.host_index(rec.id.as_str()) {
            Some(i) => {
                self.hosts[i] = rec;
                proof {
                    assert(final(self).hosts@[i as int].id@ == rec.id@);
                }
            },
            None => {
                let ghost n = self.hosts@.len();
                self.hosts.push(rec);
                proof {
                    assert(final(self).hosts@[n as int].id@ == rec.id@);
                }
            },
        }
    }

    /// Deletes the host with `id`, if present.
    pub fn delete_remote_host(&mut self, id: &str)
        requires
            old(self).wf(),
        ensures
            final(self).wf(),
            final(self).hosts@ == old(self).hosts@.filter(|h: RemoteHostRecord| h.id@ != id@),
            !final(self).has_host(id@),
            final(self).skills@ == old(self).skills@,
            final(self).targets@ == old(self).targets@,
            final(self).custom_targets@ == old(self).custom_targets@,
            final(self).settings_view() == old(self).settings_view(),
    {
        let ghost old_hosts = self.hosts@;
        let mut kept: Vec<RemoteHostRecord> = Vec::new();
        let mut i: usize = 0;
        while i < self.hosts.len()
            invariant
                0 <= i <= self.hosts@.len(),
                self.hosts@ == old_hosts,
                kept@ == old_hosts.take(i as int).filter(|h: RemoteHostRecord| h.id@ != id@),
            decreases self.hosts@.len() - i,
        {
            let h = self.hosts[i].clone();
            proof {
                reveal(Seq::filter);
                assert(old_hosts.take(i + 1).drop_last() =~= old_hosts.take(i as int));
                assert(old_hosts.take(i + 1).last() == old_hosts[i as int]);
            }
            if !str_eq(h.id.as_str(), id) {
                kept.push(h);
            }
            i += 1;
        }
        proof {
            assert(old_hosts.take(old_hosts.len() as int) =~= old_hosts);
        }
        self.hosts = kept;
        proof {
            broadcast use vstd::seq_lib::group_filter_ensures;

            lemma_filter_keeps_pairwise(
                old_hosts,
                |h: RemoteHostRecord| h.id@ != id@,
                |x: RemoteHostRecord, y: RemoteHostRecord| x.id@ != y.id@,
            );
        }
    }

    /// Moves the host with `id` to `status`; when `last_sync_at` is given
    /// it is recorded too, else the old value stays. Absent hosts are left
    /// alone.
    pub fn update_remote_host_sync_status(
        &mut self,
        id: &str,
        status: HostStatus,
        last_sync_at: Option<i64>,
    )
        requires
            old(self).wf(),
        ensures
            final(self).wf(),
            if old(self).has_host(id@) {
                exists|i: int|
                    0 <= i < old(self).hosts@.len() && old(self).hosts@[i].id@ == id@
                        && final(self).hosts@ == old(self).hosts@.update(
                        i,
                        RemoteHostRecord {
                            status,
                            last_sync_at: if last_sync_at is Some {
                                last_sync_at
                            } else {
                                old(self).hosts@[i].last_sync_at
                            },
                            ..old(self).hosts@[i]
                        },
                    )
            } else {
                final(self).hosts@ == old(self).hosts@
            },
            final(self).skills@ == old(self).skills@,
            final(self).targets@ == old(self).targets@,
            final(self).custom_targets@ == old(self).custom_targets@,
            final(self).settings_view() == old(self).settings_view(),
    {
        match self.host_index(id) {
            Some(i) => {
                let mut rec = self.hosts[i].clone();
                rec.status = status;
                match last_sync_at {
                    Some(t) => {
                        rec.last_sync_at = Some(t);
                    },
                    None => {},
                }
                self.hosts[i] = rec;
            },
            None => {},
        }
    }

    // ── custom targets ──────────────────────────────────────────────

    /// The index of the custom target with `id`, if any.
    pub fn custom_target_index(&self, id: &str) -> (r: Option<usize>)
        ensures
            match r {
                Some(i) => i < self.custom_targets@.len() && self.custom_targets@[i as int].id@
                    == id@,
                None => !self.has_custom_target(id@),
            },
    {
        let mut i: usize = 0;
        while i < self.custom_targets.len()
            invariant
                0 <= i <= self.custom_targets@.len(),
                forall|j: int| 0 <= j < i ==> self.custom_targets@[j].id@ != id@,
            decreases self.custom_targets@.len() - i,
        {
            if str_eq(self.custom_targets[i].id.as_str(), id) {
                return Some(i);
            }
            i += 1;
        }
        None
    }

    /// The custom target with `id`, if any.
    pub fn get_custom_target_by_id(&self, id: &str) -> (r: Option<CustomTargetRecord>)
        ensures
            match r {
                Some(rec) => rec.id@ == id@ && self.custom_targets@.contains(rec),
                None => !self.has_custom_target(id@),
            },
    {
        match self.custom_target_index(id) {
            Some(i) => {
                let rec = self.custom_targets[i].clone();
                proof {
                    assert(self.custom_targets@.contains(self.custom_targets@[i as int]));
                }
                Some(rec)
            },
            None => None,
        }
    }

    /// Writes `rec`, replacing the custom target with the same id or
    /// appending.
    pub fn upsert_custom_target(&mut self, rec: CustomTargetRecord)
        requires
            old(self).wf(),
        ensures
            final(self).wf(),
            final(self).has_custom_target(rec.id@),
            if old(self).has_custom_target(rec.id@) {
                exists|i: int|
                    0 <= i < old(self).custom_targets@.len() && old(self).custom_targets@[i].id@
                        == rec.id@ && final(self).custom_targets@
                        == old(self).custom_targets@.update(i, rec)
            } else {
                final(self).custom_targets@ == old(self).custom_targets@.push(rec)
            },
            final(self).skills@ == old(self).skills@,
            final(self).targets@ == old(self).targets@,
            final(self).hosts@ == old(self).hosts@,
            final(self).settings_view() == old(self).settings_view(),
    {
        match self.custom_target_index(rec.id.as_str()) {
            Some(i) => {
                self.custom_targets[i] = rec;
                proof {
                    assert(final(self).custom_targets@[i as int].id@ == rec.id@);
                }
            },
            None => {
                let ghost n = self.custom_targets@.len();
                self.custom_targets.push(rec);
                proof {
                    assert(final(self).custom_targets@[n as int].id@ == rec.id@);
                }
            },
        }
    }

    /// Deletes the custom target with `id`, if present.
    pub fn delete_custom_target(&mut self, id: &str)
        requires
            old(self).wf(),
        ensures
            final(self).wf(),
            final(self).custom_targets@ == old(self).custom_targets@.filter(
                |c: CustomTargetRecord| c.id@ != id@,
            ),
            !final(self).has_custom_target(id@),
            final(self).skills@ == old(self).skills@,
            final(self).targets@ == old(self).targets@,
            final(self).hosts@ == old(self).hosts@,
            final(self).settings_view() == old(self).settings_view(),
    {
        let ghost old_customs = self.custom_targets@;
        let mut kept: Vec<CustomTargetRecord> = Vec::new();
        let mut i: usize = 0;
        while i < self.custom_targets.len()
            invariant
                0 <= i <= self.custom_targets@.len(),
                self.custom_targets@ == old_customs,
                kept@ == old_customs.take(i as int).filter(
                    |c: CustomTargetRecord| c.id@ != id@,
                ),
            decreases self.custom_targets@.len() - i,
        {
            let c = self.custom_targets[i].clone();
            proof {
                reveal(Seq::filter);
                assert(old_customs.take(i + 1).drop_last() =~= old_customs.take(i as int));
                assert(old_customs.take(i + 1).last() == old_customs[i as int]);
            }
            if !str_eq(c.id.as_str(), id) {
                kept.push(c);
            }
            i += 1;
        }
        proof {
            assert(old_customs.take(old_customs.len() as int) =~= old_customs);
        }
        self.custom_targets = kept;
        proof {
            broadcast use vstd::seq_lib::group_filter_ensures;

            lemma_filter_keeps_pairwise(
                old_customs,
                |c: CustomTargetRecord| c.id@ != id@,
                |x: CustomTargetRecord, y: CustomTargetRecord| x.id@ != y.id@,
            );
        }
    }

    // ── settings ────────────────────────────────────────────────────

    /// The setting stored under `key`, if any.
    pub fn get_setting(&self, key: &str) -> (r: Option<&String>)
        ensures
            match r {
                Some(v) => self.settings_view().contains_key(key@) && *v
                    == self.settings_view()[key@],
                None => !self.settings_view().contains_key(key@),
            },
    {
        self.settings.get(key)
    }

    /// Stores `value` under `key`, replacing any previous value.
    pub fn set_setting(&mut self, key: String, value: String)
        ensures
            final(self).settings_view() == old(self).settings_view().insert(key@, value),
            final(self).skills@ == old(self).skills@,
            final(self).targets@ == old(self).targets@,
            final(self).hosts@ == old(self).hosts@,
            final(self).custom_targets@ == old(self).custom_targets@,
            old(self).wf() ==> final(self).wf(),
    {
        self.settings.insert(key, value);
    }
}

// ── filter lemmas ───────────────────────────────────────────────────

/// Every element of a filtered sequence occurs in the original.
pub proof fn lemma_filter_elems_from<T>(s: Seq<T>, pred: spec_fn(T) -> bool)
    ensures
        forall|i: int|
            0 <= i < s.filter(pred).len() ==> exists|j: int|
                0 <= j < s.len() && s[j] == #[trigger] s.filter(pred)[i],
    decreases s.len(),
{
    reveal(Seq::filter);
    if s.len() > 0 {
        lemma_filter_elems_from(s.drop_last(), pred);
        assert forall|i: int| 0 <= i < s.filter(pred).len() implies exists|j: int|
            0 <= j < s.len() && s[j] == #[trigger] s.filter(pred)[i] by {
            if i < s.drop_last().filter(pred).len() {
                let j = choose|j: int|
                    0 <= j < s.drop_last().len() && s.drop_last()[j] == s.drop_last().filter(
                        pred,
                    )[i];
                assert(s[j] == s.filter(pred)[i]);
            } else {
                assert(s[s.len() - 1] == s.filter(pred)[i]);
            }
        }
    }
}

/// A filter that keeps every element changes nothing.
pub proof fn lemma_filter_all_kept<T>(s: Seq<T>, pred: spec_fn(T) -> bool)
    requires
        forall|i: int| 0 <= i < s.len() ==> pred(#[trigger] s[i]),
    ensures
        s.filter(pred) == s,
    decreases s.len(),
{
    reveal(Seq::filter);
    if s.len() > 0 {
        lemma_filter_all_kept(s.drop_last(), pred);
        assert(s.filter(pred) =~= s);
    }
}

/// A filter that keeps no element empties the sequence.
pub proof fn lemma_filter_none_kept<T>(s: Seq<T>, pred: spec_fn(T) -> bool)
    requires
        forall|i: int| 0 <= i < s.len() ==> !pred(#[trigger] s[i]),
    ensures
        s.filter(pred) == Seq::<T>::empty(),
    decreases s.len(),
{
    reveal(Seq::filter);
    if s.len() > 0 {
        lemma_filter_none_kept(s.drop_last(), pred);
    }
}

/// Pointwise-equal predicates filter alike.
pub proof fn lemma_filter_congruent<T>(s: Seq<T>, p1: spec_fn(T) -> bool, p2: spec_fn(T) -> bool)
    requires
        forall|i: int| 0 <= i < s.len() ==> p1(#[trigger] s[i]) == p2(s[i]),
    ensures
        s.filter(p1) == s.filter(p2),
    decreases s.len(),
{
    reveal(Seq::filter);
    if s.len() > 0 {
        lemma_filter_congruent(s.drop_last(), p1, p2);
    }
}

/// Filtering keeps any pairwise relation that held of the original
/// sequence, key uniqueness in particular.
pub proof fn lemma_filter_keeps_pairwise<T>(
    s: Seq<T>,
    pred: spec_fn(T) -> bool,
    rel: spec_fn(T, T) -> bool,
)
    requires
        forall|x: T, y: T| #[trigger] rel(x, y) == rel(y, x),
        forall|i: int, j: int| 0 <= i < j < s.len() ==> #[trigger] rel(s[i], s[j]),
    ensures
        forall|i: int, j: int|
            #![trigger s.filter(pred)[i], s.filter(pred)[j]]
            0 <= i < j < s.filter(pred).len() ==> rel(s.filter(pred)[i], s.filter(pred)[j]),
    decreases s.len(),
{
    reveal(Seq::filter);
    if s.len() > 0 {
        lemma_filter_keeps_pairwise(s.drop_last(), pred, rel);
        lemma_filter_elems_from(s.drop_last(), pred);
        let f = s.filter(pred);
        assert forall|i: int, j: int| 0 <= i < j < f.len() implies #[trigger] rel(
            f[i],
            f[j],
        ) by {
            let sub = s.drop_last().filter(pred);
            if j < sub.len() {
                assert(sub[i] == f[i] && sub[j] == f[j]);
            } else {
                assert(pred(s.last()) && f[j] == s.last());
                let k = choose|k: int|
                    0 <= k < s.drop_last().len() && s.drop_last()[k] == sub[i];
                assert(s[k] == f[i]);
                assert(rel(s[k], s[s.len() - 1]));
            }
        }
    }
}

} // verus!
