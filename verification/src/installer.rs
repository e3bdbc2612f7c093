//! The skill installer: creates or refreshes central-repository entries
//! from a resolved source, keeps every copy-mode destination in step when
//! a skill's content changes, deletes skills in the safe order, and
//! migrates the central repository root.

use vstd::prelude::*;
use crate::errors::SkillError;
use crate::fs_model::{spec_effective_content, FsModel, FsNode};
use crate::paths::{file_name_of, join_path, spec_file_name, spec_join_path};
use crate::store::{ManagedSkillRecord, SkillStore, SkillTargetRecord};
use crate::strutil::{concat3, spec_contains_string, str_eq, u64_to_string, spec_decimal};
use crate::SyncMode;

verus! {

/// A source materialized into a ready local directory: its kind, its
/// reference, and the fingerprint of its content.
#[derive(Debug)]
pub struct ResolvedSource {
    pub source_type: String,
    pub source_ref: Option<String>,
    pub content: u64,
}

/// What an installation produced.
#[derive(Debug)]
pub struct InstallResult {
    pub skill_id: String,
    pub name: String,
    pub central_path: String,
    pub content_hash: Option<u64>,
}

/// What an update produced: the refreshed fingerprint and the copy-mode
/// destinations that were re-materialized.
#[derive(Debug)]
pub struct UpdateOutcome {
    pub skill_id: String,
    pub name: String,
    pub content_hash: Option<u64>,
    pub source_revision: Option<String>,
    pub updated_targets: Vec<String>,
}

/// The cheap per-skill comparison of a fresh source probe against the
/// recorded fingerprint; `None` means the source was unreachable and the
/// answer is unknown.
#[derive(Debug)]
pub struct SkillUpdateStatus {
    pub skill_id: String,
    pub name: String,
    pub update_available: Option<bool>,
}

/// Turns a resolver's outcome into a result: an unresolvable source is
/// `SourceUnavailable`, never a panic.
pub fn source_resolution(
    resolved: Option<ResolvedSource>,
    detail: String,
) -> (r: Result<ResolvedSource, SkillError>)
    ensures
        match r {
            Ok(src) => resolved == Some(src),
            Err(e) => resolved is None && e matches SkillError::SourceUnavailable { .. },
        },
{
    match resolved {
        Some(src) => Ok(src),
        None => Err(SkillError::SourceUnavailable { detail }),
    }
}

/// Chooses the skill to install when a source root holds one or more
/// candidate manifests. With no subpath given, a single candidate is
/// taken and several are ambiguous — signaled distinctly so the caller
/// can re-invoke with a selection.
pub fn select_candidate(
    candidates: &Vec<String>,
    subpath: Option<&String>,
) -> (r: Result<String, SkillError>)
    ensures
        match r {
            Ok(c) => match subpath {
                Some(sp) => c@ == sp@ && spec_contains_string(candidates@, sp@),
                None => candidates@.len() == 1 && c@ == candidates@[0]@,
            },
            Err(e) => match e {
                SkillError::AmbiguousSelection { candidates: cs } => subpath is None
                    && candidates@.len() > 1 && cs@ == candidates@,
                SkillError::SourceUnavailable { .. } => subpath is None && candidates@.len()
                    == 0,
                SkillError::NotFound { what } => match subpath {
                    Some(sp) => what@ == sp@ && !spec_contains_string(candidates@, sp@),
                    None => false,
                },
                _ => false,
            },
        },
{
    match subpath {
        Some(sp) => {
            if crate::strutil::contains_string(candidates, sp.as_str()) {
                Ok(sp.clone())
            } else {
                Err(SkillError::NotFound { what: sp.clone() })
            }
        },
        None => {
            if candidates.len() == 0 {
                Err(SkillError::SourceUnavailable { detail: String::new() })
            } else if candidates.len() == 1 {
                Ok(candidates[0].clone())
            } else {
                let mut cs: Vec<String> = Vec::new();
                let mut i: usize = 0;
                while i < candidates.len()
                    invariant
                        0 <= i <= candidates@.len(),
                        cs@ == candidates@.take(i as int),
                    decreases candidates@.len() - i,
                {
                    cs.push(candidates[i].clone());
                    proof {
                        assert(cs@ =~= candidates@.take(i + 1));
                    }
                    i += 1;
                }
                proof {
                    assert(candidates@.take(candidates@.len() as int) =~= candidates@);
                }
                Err(SkillError::AmbiguousSelection { candidates: cs })
            }
        },
    }
}

/// Whether some skill record carries `name`.
pub open spec fn has_skill_name(skills: Seq<ManagedSkillRecord>, name: Seq<char>) -> bool {
    exists|i: int| 0 <= i < skills.len() && skills[i].name@ == name
}

/// Whether some skill record owns `path` as its central directory.
pub open spec fn central_taken(skills: Seq<ManagedSkillRecord>, path: Seq<char>) -> bool {
    exists|i: int| 0 <= i < skills.len() && skills[i].central_path@ == path
}

/// The candidate central directory for attempt `k`: the skill's name for
/// the first attempt, then `name-2`, `name-3`, ... under the root.
pub open spec fn spec_candidate(root: Seq<char>, name: Seq<char>, k: nat) -> Seq<char> {
    if k < 2 {
        spec_join_path(root, name)
    } else {
        spec_join_path(root, name + "-"@ + spec_decimal(k))
    }
}

/// Installs a resolved source as a new managed skill: allocates a central
/// subdirectory derived from the name (de-duplicated on collision),
/// materializes the content there, and writes the skill record under the
/// caller's fresh identifier. A name already managed is a conflict.
pub fn install_skill(
    store: &mut SkillStore,
    fs: &mut FsModel,
    root: &String,
    name: &String,
    id: String,
    source: ResolvedSource,
    now: i64,
) -> (r: Result<InstallResult, SkillError>)
    requires
        old(store).wf(),
        !old(store).has_skill(id@),
        old(store).skills@.len() + 3 <= usize::MAX,
    ensures
        final(store).wf(),
        final(store).targets@ == old(store).targets@,
        final(store).hosts@ == old(store).hosts@,
        final(store).custom_targets@ == old(store).custom_targets@,
        final(store).settings_view() == old(store).settings_view(),
        match r {
            Ok(res) => {
                &&& !has_skill_name(old(store).skills@, name@)
                &&& res.skill_id == id
                &&& res.name == *name
                &&& res.content_hash == Some(source.content)
                &&& !central_taken(old(store).skills@, res.central_path@)
                &&& !old(fs)@.contains_key(res.central_path@)
                &&& exists|k: nat|
                    k <= old(store).skills@.len() + 2 && res.central_path@ == spec_candidate(
                        root@,
                        name@,
                        k,
                    )
                &&& final(store).skills@.len() == old(store).skills@.len() + 1
                &&& final(store).skills@.drop_last() == old(store).skills@
                &&& final(store).skills@.last().id == id
                &&& final(store).skills@.last().name == *name
                &&& final(store).skills@.last().source_type == source.source_type
                &&& final(store).skills@.last().source_ref == source.source_ref
                &&& final(store).skills@.last().central_path == res.central_path
                &&& final(store).skills@.last().content_hash == Some(source.content)
                &&& final(store).skills@.last().created_at == now
                &&& final(store).skills@.last().updated_at == now
                &&& final(store).skills@.last().last_sync_at is None
                &&& final(store).skills@.last().status@ == "active"@
                &&& final(fs)@ == old(fs)@.insert(
                    res.central_path@,
                    FsNode::Dir { content: source.content },
                )
            },
            Err(e) => {
                &&& final(store).skills@ == old(store).skills@
                &&& final(fs)@ == old(fs)@
                &&& match e {
                    SkillError::DestinationConflict { path } => path@ == name@ && has_skill_name(
                        old(store).skills@,
                        name@,
                    ),
                    SkillError::StorageInconsistency { .. } => !has_skill_name(
                        old(store).skills@,
                        name@,
                    ) && forall|k: nat|
                        k <= old(store).skills@.len() + 2 ==> central_taken(
                            old(store).skills@,
                            spec_candidate(root@, name@, k),
                        ) || old(fs)@.contains_key(spec_candidate(root@, name@, k)),
                    _ => false,
                }
            },
        },
{
    // A name that is already managed conflicts.
    let mut i: usize = 0;
    while i < store.skills.len()
        invariant
            *store == *old(store),
            *fs == *old(fs),
            old(store).wf(),
            0 <= i <= store.skills@.len(),
            forall|j: int| 0 <= j < i ==> store.skills@[j].name@ != name@,
        decreases store.skills@.len() - i,
    {
        if str_eq(store.skills[i].name.as_str(), name.as_str()) {
            proof {
                assert(has_skill_name(old(store).skills@, name@));
            }
            return Err(SkillError::DestinationConflict { path: name.clone() });
        }
        i += 1;
    }

    // Allocate a central subdirectory, de-duplicating with a numeric
    // suffix while the candidate collides with a managed central path or
    // an existing filesystem entry.
    let central_found = find_free_central(store, fs, root, name);

    let central = match central_found {
        Some(c) => c,
        None => {
            return Err(SkillError::StorageInconsistency { detail: name.clone() });
        },
    };

    let record = ManagedSkillRecord {
        id: id.clone(),
        name: name.clone(),
        source_type: source.source_type,
        source_ref: source.source_ref,
        central_path: central.clone(),
        content_hash: Some(source.content),
        created_at: now,
        updated_at: now,
        last_sync_at: None,
        status: active_status(),
    };
    fs.set(central.clone(), FsNode::Dir { content: source.content });
    store.upsert_skill(record);
    proof {
        assert(final(store).skills@.drop_last() =~= old(store).skills@);
    }
    Ok(
        InstallResult {
            skill_id: id,
            name: name.clone(),
            central_path: central,
            content_hash: Some(source.content),
        },
    )
}

/// Searches for a free central directory: the name itself first, then
/// numerically suffixed variants, giving up after as many attempts as
/// there are skills plus two.
fn find_free_central(
    store: &SkillStore,
    fs: &FsModel,
    root: &String,
    name: &String,
) -> (r: Option<String>)
    requires
        store.skills@.len() + 3 <= usize::MAX,
    ensures
        match r {
            Some(c) => !central_taken(store.skills@, c@) && !fs@.contains_key(c@)
                && exists|k2: nat|
                k2 <= store.skills@.len() + 2 && c@ == spec_candidate(root@, name@, k2),
            None => forall|k2: nat|
                k2 <= store.skills@.len() + 2 ==> central_taken(
                    store.skills@,
                    spec_candidate(root@, name@, k2),
                ) || fs@.contains_key(spec_candidate(root@, name@, k2)),
        },
{
    let bound = store.skills.len() + 2;
    let mut k: usize = 0;
    while k <= bound
        invariant
            0 <= k <= bound + 1,
            bound == store.skills@.len() + 2,
            bound + 1 <= usize::MAX,
            forall|k2: nat|
                k2 < k ==> central_taken(store.skills@, spec_candidate(root@, name@, k2))
                    || fs@.contains_key(spec_candidate(root@, name@, k2)),
        decreases bound + 1 - k,
    {
        let cand: String = if k < 2 {
            join_path(root.as_str(), name.as_str())
        } else {
            let num = u64_to_string(k as u64);
            let suffixed = concat3(name.as_str(), "-", num.as_str());
            join_path(root.as_str(), suffixed.as_str())
        };
        proof {
            assert(cand@ == spec_candidate(root@, name@, k as nat));
        }
        let mut taken = fs.contains(cand.as_str());
        let mut j: usize = 0;
        while j < store.skills.len()
            invariant
                0 <= j <= store.skills@.len(),
                taken == (fs@.contains_key(cand@) || exists|j2: int|
                    0 <= j2 < j && store.skills@[j2].central_path@ == cand@),
            decreases store.skills@.len() - j,
        {
            if str_eq(store.skills[j].central_path.as_str(), cand.as_str()) {
                taken = true;
            }
            j += 1;
        }
        if !taken {
            proof {
                assert(k as nat <= store.skills@.len() + 2);
            }
            return Some(cand);
        }
        proof {
            assert forall|k2: nat|
                k2 < k + 1 implies central_taken(store.skills@, spec_candidate(root@, name@, k2))
                    || fs@.contains_key(spec_candidate(root@, name@, k2)) by {
                if k2 == k as nat {
                    assert(spec_candidate(root@, name@, k2) == cand@);
                    assert(fs@.contains_key(cand@) || central_taken(store.skills@, cand@));
                }
            }
        }
        k += 1;
    }
    None
}

/// The status a freshly installed skill carries.
pub fn active_status() -> (r: String)
    ensures
        r@ == "active"@,
{
    "active".to_owned()
}


/// Whether a node is a live link (symlink or junction) to `target`.
pub open spec fn is_link_to(n: FsNode, target: Seq<char>) -> bool {
    match n {
        FsNode::Symlink { target: t } => t@ == target,
        FsNode::Junction { target: t } => t@ == target,
        FsNode::Dir { .. } => false,
        FsNode::File { .. } => false,
    }
}

/// Re-resolves one skill's source and propagates a content change: when
/// the fingerprint is unchanged the call is a no-op; when it changed, the
/// central copy is replaced and every copy-mode destination is
/// re-materialized, while link-mode destinations see the change through
/// the link. The staging-and-swap of the real replacement belongs to the
/// caller; the model sees the completed swap.
#[verifier::rlimit(100)]
pub fn update_managed_skill_from_source(
    store: &mut SkillStore,
    fs: &mut FsModel,
    skill_id: &String,
    new_content: u64,
    source_revision: Option<String>,
    now: i64,
) -> (r: Result<UpdateOutcome, SkillError>)
    requires
        old(store).wf(),
    ensures
        final(store).wf(),
        final(store).hosts@ == old(store).hosts@,
        final(store).custom_targets@ == old(store).custom_targets@,
        final(store).settings_view() == old(store).settings_view(),
        final(store).targets@ == old(store).targets@,
        match r {
            Err(e) => {
                &&& e matches SkillError::NotFound { .. }
                &&& !old(store).has_skill(skill_id@)
                &&& final(store).skills@ == old(store).skills@
                &&& final(fs)@ == old(fs)@
            },
            Ok(rep) => exists|si: int|
                {
                    &&& 0 <= si < old(store).skills@.len()
                    &&& (#[trigger] old(store).skills@[si]).id@ == skill_id@
                    &&& rep.skill_id@ == skill_id@
                    &&& rep.name == old(store).skills@[si].name
                    &&& rep.content_hash == Some(new_content)
                    &&& rep.source_revision == source_revision
                    &&& if old(store).skills@[si].content_hash == Some(new_content) {
                        // Byte-identical source: a complete no-op.
                        &&& final(store).skills@ == old(store).skills@
                        &&& final(fs)@ == old(fs)@
                        &&& rep.updated_targets@.len() == 0
                    } else {
                        let sk = old(store).skills@[si];
                        let cp = sk.central_path@;
                        &&& final(store).skills@ == old(store).skills@.update(
                            si,
                            final(store).skills@[si],
                        )
                        &&& final(store).skills@[si].id == sk.id
                        &&& final(store).skills@[si].name == sk.name
                        &&& final(store).skills@[si].source_type == sk.source_type
                        &&& final(store).skills@[si].source_ref == sk.source_ref
                        &&& final(store).skills@[si].central_path == sk.central_path
                        &&& final(store).skills@[si].content_hash == Some(new_content)
                        &&& final(store).skills@[si].created_at == sk.created_at
                        &&& final(store).skills@[si].updated_at == now
                        &&& final(store).skills@[si].last_sync_at == sk.last_sync_at
                        &&& final(store).skills@[si].status == sk.status
                        // The central copy reflects the new content.
                        &&& final(fs)@.contains_key(cp)
                        &&& final(fs)@[cp] == (FsNode::Dir { content: new_content })
                        // Every copy-mode destination is re-materialized.
                        &&& forall|n: int|
                            0 <= n < old(store).targets@.len()
                                && (#[trigger] old(store).targets@[n]).skill_id@ == skill_id@
                                && old(store).targets@[n].mode == SyncMode::Copy
                                ==> final(fs)@.contains_key(old(store).targets@[n].target_path@)
                                && final(fs)@[old(store).targets@[n].target_path@]
                                == (FsNode::Dir { content: new_content })
                        // Nothing else moved: link-mode destinations are
                        // untouched and see the change through the link.
                        &&& forall|p: Seq<char>|
                            !(p == cp || exists|n: int|
                                0 <= n < old(store).targets@.len()
                                    && (#[trigger] old(store).targets@[n]).skill_id@ == skill_id@
                                    && old(store).targets@[n].mode == SyncMode::Copy
                                    && old(store).targets@[n].target_path@ == p) ==> (
                            #[trigger] final(fs)@.contains_key(p) == old(fs)@.contains_key(p)
                                && (final(fs)@.contains_key(p) ==> final(fs)@[p] == old(fs)@[p]))
                        // Checksum equality at each destination: every
                        // copy-mode destination and every destination
                        // linked to the central copy reads the new
                        // content.
                        &&& forall|n: int|
                            0 <= n < old(store).targets@.len()
                                && (#[trigger] old(store).targets@[n]).skill_id@ == skill_id@
                                && (old(store).targets@[n].mode == SyncMode::Copy || (old(fs)@.contains_key(old(store).targets@[n].target_path@) && is_link_to(
                                old(fs)@[old(store).targets@[n].target_path@],
                                cp,
                            ))) ==> spec_effective_content(
                                final(fs)@,
                                old(store).targets@[n].target_path@,
                            ) == Some(new_content)
                        &&& rep.updated_targets@.map_values(|t: String| t@) == old(store).targets@.filter(|t: SkillTargetRecord| t.skill_id@ == skill_id@).filter(
                            |t: SkillTargetRecord| t.mode == SyncMode::Copy,
                        ).map_values(|t: SkillTargetRecord| t.target_path@)
                    }
                },
        },
{
    let si = match store.skill_index(skill_id.as_str()) {
        Some(i) => i,
        None => {
            return Err(SkillError::NotFound { what: skill_id.clone() });
        },
    };
    let skill = store.skills[si].clone();
    let unchanged = match skill.content_hash {
        Some(h) => h == new_content,
        None => false,
    };
    if unchanged {
        return Ok(
            UpdateOutcome {
                skill_id: skill_id.clone(),
                name: skill.name,
                content_hash: skill.content_hash,
                source_revision,
                updated_targets: Vec::new(),
            },
        );
    }

    let ghost cp = skill.central_path@;
    fs.set(skill.central_path.clone(), FsNode::Dir { content: new_content });
    let ghost fs1 = fs@;
    let tlist = store.list_skill_targets(skill_id.as_str());
    let updated = repush_copy_targets(fs, &tlist, new_content);
    proof {
        // The central entry carries the new content whether or not some
        // copy-mode destination shares its path.
        assert(fs@.contains_key(cp) && fs@[cp] == (FsNode::Dir { content: new_content })) by {
            if !(exists|j: int|
                0 <= j < tlist@.len() && (#[trigger] tlist@[j]).mode == SyncMode::Copy
                    && tlist@[j].target_path@ == cp) {
                assert(fs1.contains_key(cp));
            }
        }
    }

    let mut rec = skill.clone();
    rec.content_hash = Some(new_content);
    rec.updated_at = now;
    let name_out = skill.name.clone();
    proof {
        assert forall|j: int|
            0 <= j < store.skills@.len() && store.skills@[j].id@ != rec.id@
                implies store.skills@[j].central_path@ != rec.central_path@ by {
            if j != si as int {
                assert(store.skills@[j].central_path@ != store.skills@[si as int].central_path@);
            }
        }
    }
    let ghost pre = *store;
    store.upsert_skill(rec);
    proof {
        let m = choose|m: int|
            0 <= m < pre.skills@.len() && pre.skills@[m].id@ == skill_id@ && store.skills@
                == pre.skills@.update(m, rec);
        assert(m == si as int);
        // Copy-mode targets of the skill appear in the filtered list, so
        // the loop has re-materialized each of them.
        assert forall|n: int|
            0 <= n < old(store).targets@.len() && (#[trigger] old(store).targets@[n]).skill_id@
                == skill_id@ && old(store).targets@[n].mode == SyncMode::Copy
                implies fs@.contains_key(old(store).targets@[n].target_path@) && fs@[old(store).targets@[n].target_path@] == (FsNode::Dir { content: new_content }) by {
            broadcast use vstd::seq_lib::group_filter_ensures;

            assert(tlist@.contains(old(store).targets@[n]));
            let j = choose|j: int| 0 <= j < tlist@.len() && tlist@[j] == old(store).targets@[n];
        }
        // Bridge the loop's filtered-list frame to the contract's frame
        // over the raw target table.
        assert forall|p: Seq<char>|
            !(p == cp || exists|n: int|
                0 <= n < old(store).targets@.len() && (#[trigger] old(store).targets@[n]).skill_id@
                    == skill_id@ && old(store).targets@[n].mode == SyncMode::Copy && old(store).targets@[n].target_path@ == p) implies (#[trigger] fs@.contains_key(p) == old(fs)@.contains_key(p) && (fs@.contains_key(p) ==> fs@[p] == old(fs)@[p])) by {
            broadcast use vstd::seq_lib::group_filter_ensures;

            if p != cp {
                if exists|j: int|
                    0 <= j < tlist@.len() && (#[trigger] tlist@[j]).mode == SyncMode::Copy
                        && tlist@[j].target_path@ == p {
                    let j = choose|j: int|
                        0 <= j < tlist@.len() && (#[trigger] tlist@[j]).mode == SyncMode::Copy
                            && tlist@[j].target_path@ == p;
                    crate::store::lemma_filter_elems_from(
                        old(store).targets@,
                        |t: SkillTargetRecord| t.skill_id@ == skill_id@,
                    );
                    let n = choose|n: int|
                        0 <= n < old(store).targets@.len() && old(store).targets@[n] == tlist@[j];
                    assert(false);
                }
            }
        }
        assert forall|n: int|
            0 <= n < old(store).targets@.len() && (#[trigger] old(store).targets@[n]).skill_id@
                == skill_id@ && (old(store).targets@[n].mode == SyncMode::Copy || (old(fs)@.contains_key(old(store).targets@[n].target_path@) && is_link_to(
            old(fs)@[old(store).targets@[n].target_path@],
            cp,
        ))) implies spec_effective_content(fs@, old(store).targets@[n].target_path@) == Some(
            new_content,
        ) by {
            broadcast use vstd::seq_lib::group_filter_ensures;

            let tp = old(store).targets@[n].target_path@;
            if old(store).targets@[n].mode == SyncMode::Copy {
                assert(tlist@.contains(old(store).targets@[n]));
            } else {
                if !(tp == cp || exists|j: int|
                    0 <= j < tlist@.len() && (#[trigger] tlist@[j]).mode == SyncMode::Copy
                        && tlist@[j].target_path@ == tp) {
                    assert(fs@.contains_key(tp) && fs@[tp] == old(fs)@[tp]);
                    assert(is_link_to(fs@[tp], cp));
                    assert(fs@.contains_key(cp) && fs@[cp] == (FsNode::Dir {
                        content: new_content,
                    }));
                }
            }
        }
    }
    proof {
        assert((si as int) < old(store).skills@.len() && old(store).skills@[si as int].id@
            == skill_id@);
    }
    Ok(
        UpdateOutcome {
            skill_id: skill_id.clone(),
            name: name_out,
            content_hash: Some(new_content),
            source_revision,
            updated_targets: updated,
        },
    )
}

/// The cheap pass over all skills: compares a fresh source fingerprint
/// probe (positional, `None` where the source was unreachable) against
/// each recorded fingerprint, mutating nothing and degrading to "unknown"
/// rather than failing.
pub fn check_skill_updates(store: &SkillStore, probes: &Vec<Option<u64>>) -> (r: Vec<
    SkillUpdateStatus,
>)
    requires
        probes@.len() == store.skills@.len(),
    ensures
        r@.len() == store.skills@.len(),
        forall|i: int|
            0 <= i < r@.len() ==> (#[trigger] r@[i]).skill_id == store.skills@[i].id
                && r@[i].name == store.skills@[i].name && r@[i].update_available == (match (
                probes@[i],
                store.skills@[i].content_hash,
            ) {
                (Some(p), Some(h)) => Some(p != h),
                _ => None::<bool>,
            }),
{
    let mut out: Vec<SkillUpdateStatus> = Vec::new();
    let mut i: usize = 0;
    while i < store.skills.len()
        invariant
            probes@.len() == store.skills@.len(),
            0 <= i <= store.skills@.len(),
            out@.len() == i,
            forall|j: int|
                0 <= j < i ==> (#[trigger] out@[j]).skill_id == store.skills@[j].id
                    && out@[j].name == store.skills@[j].name && out@[j].update_available == (match (
                    probes@[j],
                    store.skills@[j].content_hash,
                ) {
                    (Some(p), Some(h)) => Some(p != h),
                    _ => None::<bool>,
                }),
        decreases store.skills@.len() - i,
    {
        let available: Option<bool> = match (probes[i], store.skills[i].content_hash) {
            (Some(p), Some(h)) => Some(p != h),
            _ => None,
        };
        out.push(
            SkillUpdateStatus {
                skill_id: store.skills[i].id.clone(),
                name: store.skills[i].name.clone(),
                update_available: available,
            },
        );
        i += 1;
    }
    out
}

/// Deletes a managed skill in the safe order: first every recorded
/// destination's physical path, then the central directory, then the
/// records — so no orphaned link ever points at a deleted central copy.
pub fn delete_managed_skill(
    store: &mut SkillStore,
    fs: &mut FsModel,
    skill_id: &String,
) -> (r: Result<(), SkillError>)
    requires
        old(store).wf(),
    ensures
        r is Ok,
        final(store).wf(),
        final(store).hosts@ == old(store).hosts@,
        final(store).custom_targets@ == old(store).custom_targets@,
        final(store).settings_view() == old(store).settings_view(),
        final(store).skills@ == old(store).skills@.filter(
            |sk: ManagedSkillRecord| sk.id@ != skill_id@,
        ),
        final(store).targets@ == old(store).targets@.filter(
            |t: SkillTargetRecord| t.skill_id@ != skill_id@,
        ),
        !final(store).has_skill(skill_id@),
        forall|tool: Seq<char>| !final(store).has_target(skill_id@, tool),
        // Every recorded destination of the skill is gone.
        forall|n: int|
            0 <= n < old(store).targets@.len() && (#[trigger] old(store).targets@[n]).skill_id@
                == skill_id@ ==> !final(fs)@.contains_key(old(store).targets@[n].target_path@),
        // The central directory is gone.
        forall|si: int|
            0 <= si < old(store).skills@.len() && (#[trigger] old(store).skills@[si]).id@
                == skill_id@ ==> !final(fs)@.contains_key(old(store).skills@[si].central_path@),
        // Nothing else moved.
        forall|p: Seq<char>|
            #[trigger] final(fs)@.contains_key(p) <==> old(fs)@.contains_key(p) && !(exists|n: int|
                0 <= n < old(store).targets@.len() && (#[trigger] old(store).targets@[n]).skill_id@
                    == skill_id@ && old(store).targets@[n].target_path@ == p) && !(exists|si: int|
                0 <= si < old(store).skills@.len() && (#[trigger] old(store).skills@[si]).id@
                    == skill_id@ && old(store).skills@[si].central_path@ == p),
        forall|p: Seq<char>| #[trigger] final(fs)@.contains_key(p) ==> final(fs)@[p] == old(fs)@[p],
{
    let tlist = store.list_skill_targets(skill_id.as_str());
    let mut i: usize = 0;
    while i < tlist.len()
        invariant
            *store == *old(store),
            old(store).wf(),
            0 <= i <= tlist@.len(),
            tlist@ == old(store).targets@.filter(|t: SkillTargetRecord| t.skill_id@ == skill_id@),
            forall|p: Seq<char>|
                #[trigger] fs@.contains_key(p) <==> old(fs)@.contains_key(p) && !(exists|j: int|
                    0 <= j < i && (#[trigger] tlist@[j]).target_path@ == p),
            forall|p: Seq<char>| #[trigger] fs@.contains_key(p) ==> fs@[p] == old(fs)@[p],
        decreases tlist@.len() - i,
    {
        fs.remove(tlist[i].target_path.as_str());
        i += 1;
    }
    let ghost fs_loop = fs@;
    let idx = store.skill_index(skill_id.as_str());
    match idx {
        Some(si) => {
            let central = store.skills[si].central_path.clone();
            fs.remove(central.as_str());
        },
        None => {},
    }
    store.delete_skill(skill_id.as_str());
    proof {
        broadcast use vstd::seq_lib::group_filter_ensures;

        crate::store::lemma_filter_elems_from(
            old(store).targets@,
            |t: SkillTargetRecord| t.skill_id@ == skill_id@,
        );
        // A path is recorded for the skill exactly when the filtered list
        // names it.
        assert forall|p: Seq<char>|
            #![trigger old(fs)@.contains_key(p)]
            (exists|n: int|
                0 <= n < old(store).targets@.len() && (#[trigger] old(store).targets@[n]).skill_id@
                    == skill_id@ && old(store).targets@[n].target_path@ == p) == (exists|j: int|
                0 <= j < tlist@.len() && (#[trigger] tlist@[j]).target_path@ == p) by {
            if exists|n: int|
                0 <= n < old(store).targets@.len() && (#[trigger] old(store).targets@[n]).skill_id@
                    == skill_id@ && old(store).targets@[n].target_path@ == p {
                let n = choose|n: int|
                    0 <= n < old(store).targets@.len() && (#[trigger] old(store).targets@[n]).skill_id@ == skill_id@ && old(store).targets@[n].target_path@
                        == p;
                assert(tlist@.contains(old(store).targets@[n]));
                let j = choose|j: int| 0 <= j < tlist@.len() && tlist@[j] == old(store).targets@[n];
                assert(tlist@[j].target_path@ == p);
            }
            if exists|j: int| 0 <= j < tlist@.len() && (#[trigger] tlist@[j]).target_path@ == p {
                let j = choose|j: int|
                    0 <= j < tlist@.len() && (#[trigger] tlist@[j]).target_path@ == p;
                let n = choose|n: int|
                    0 <= n < old(store).targets@.len() && old(store).targets@[n] == tlist@[j];
                assert(old(store).targets@[n].skill_id@ == skill_id@ && old(store).targets@[n].target_path@ == p);
            }
        }
        // The skill's central path, when the skill exists, is the one the
        // removal step dropped: ids are unique.
        assert forall|p: Seq<char>|
            #[trigger] fs@.contains_key(p) <==> old(fs)@.contains_key(p) && !(exists|n: int|
                0 <= n < old(store).targets@.len() && (#[trigger] old(store).targets@[n]).skill_id@
                    == skill_id@ && old(store).targets@[n].target_path@ == p) && !(exists|si: int|
                0 <= si < old(store).skills@.len() && (#[trigger] old(store).skills@[si]).id@
                    == skill_id@ && old(store).skills@[si].central_path@ == p) by {
            match idx {
                Some(si) => {
                    assert(old(store).skills@[si as int].id@ == skill_id@);
                    assert forall|si2: int|
                        0 <= si2 < old(store).skills@.len() && (#[trigger] old(store).skills@[si2]).id@ == skill_id@ implies si2 == si as int by {}
                },
                None => {
                    assert(!old(store).has_skill(skill_id@));
                },
            }
        }
        assert forall|n: int|
            0 <= n < old(store).targets@.len() && (#[trigger] old(store).targets@[n]).skill_id@
                == skill_id@ implies !fs@.contains_key(old(store).targets@[n].target_path@) by {}
    }
    Ok(())
}


/// Re-materializes every copy-mode destination in `tlist` with the new
/// content; link-mode destinations and everything else stay untouched.
fn repush_copy_targets(
    fs: &mut FsModel,
    tlist: &Vec<SkillTargetRecord>,
    new_content: u64,
) -> (updated: Vec<String>)
    ensures
        updated@.map_values(|t: String| t@) == tlist@.filter(
            |t: SkillTargetRecord| t.mode == SyncMode::Copy,
        ).map_values(|t: SkillTargetRecord| t.target_path@),
        forall|j: int|
            0 <= j < tlist@.len() && (#[trigger] tlist@[j]).mode == SyncMode::Copy
                ==> final(fs)@.contains_key(tlist@[j].target_path@)
                && final(fs)@[tlist@[j].target_path@] == (FsNode::Dir { content: new_content }),
        forall|p: Seq<char>|
            !(exists|j: int|
                0 <= j < tlist@.len() && (#[trigger] tlist@[j]).mode == SyncMode::Copy
                    && tlist@[j].target_path@ == p) ==> #[trigger] final(fs)@.contains_key(p)
                == old(fs)@.contains_key(p) && (final(fs)@.contains_key(p) ==> final(fs)@[p]
                == old(fs)@[p]),
{
    let mut updated: Vec<String> = Vec::new();
    let mut i: usize = 0;
    while i < tlist.len()
        invariant
            0 <= i <= tlist@.len(),
            updated@.map_values(|t: String| t@) == tlist@.take(i as int).filter(
                |t: SkillTargetRecord| t.mode == SyncMode::Copy,
            ).map_values(|t: SkillTargetRecord| t.target_path@),
            forall|j: int|
                0 <= j < i && (#[trigger] tlist@[j]).mode == SyncMode::Copy
                    ==> fs@.contains_key(tlist@[j].target_path@)
                    && fs@[tlist@[j].target_path@] == (FsNode::Dir { content: new_content }),
            forall|p: Seq<char>|
                !(exists|j: int|
                    0 <= j < i && (#[trigger] tlist@[j]).mode == SyncMode::Copy
                        && tlist@[j].target_path@ == p) ==> #[trigger] fs@.contains_key(p) == old(fs)@.contains_key(p) && (fs@.contains_key(p) ==> fs@[p] == old(fs)@[p]),
        decreases tlist@.len() - i,
    {
        proof {
            reveal(Seq::filter);
            assert(tlist@.take(i + 1).drop_last() =~= tlist@.take(i as int));
            assert(tlist@.take(i + 1).last() == tlist@[i as int]);
        }
        let ghost fs_before = fs@;
        if tlist[i].mode == SyncMode::Copy {
            fs.set(tlist[i].target_path.clone(), FsNode::Dir { content: new_content });
            updated.push(tlist[i].target_path.clone());
            proof {
                assert(updated@.map_values(|t: String| t@) =~= tlist@.take(i as int).filter(
                    |t: SkillTargetRecord| t.mode == SyncMode::Copy,
                ).map_values(|t: SkillTargetRecord| t.target_path@).push(
                    tlist@[i as int].target_path@,
                ));
                let ghost tp = tlist@[i as int].target_path@;
                assert forall|j: int|
                    0 <= j < i + 1 && (#[trigger] tlist@[j]).mode == SyncMode::Copy
                        implies fs@.contains_key(tlist@[j].target_path@)
                        && fs@[tlist@[j].target_path@] == (FsNode::Dir {
                        content: new_content,
                    }) by {
                    if j < i && tlist@[j].target_path@ != tp {
                        assert(fs_before.contains_key(tlist@[j].target_path@)
                            && fs_before[tlist@[j].target_path@] == (FsNode::Dir {
                            content: new_content,
                        }));
                    }
                }
            }
        }
        i += 1;
    }
    proof {
        assert(tlist@.take(tlist@.len() as int) =~= tlist@);
    }
    updated
}


/// The central directory a skill moves to under a new root.
pub open spec fn spec_new_central(new_base: Seq<char>, old_path: Seq<char>) -> Seq<char> {
    spec_join_path(new_base, spec_file_name(old_path))
}

/// Whether moving every skill under `new_base` can go through: each
/// current central directory exists and ends in a usable name, and no
/// new location is taken — neither on disk nor by another skill's move.
pub open spec fn migration_valid(
    skills: Seq<ManagedSkillRecord>,
    fs0: Map<Seq<char>, FsNode>,
    new_base: Seq<char>,
) -> bool {
    forall|i: int|
        0 <= i < skills.len() ==> {
            &&& fs0.contains_key((#[trigger] skills[i]).central_path@)
            &&& spec_file_name(skills[i].central_path@).len() > 0
            &&& !fs0.contains_key(spec_new_central(new_base, skills[i].central_path@))
            &&& forall|j: int|
                0 <= j < i ==> spec_new_central(new_base, skills[j].central_path@)
                    != spec_new_central(new_base, skills[i].central_path@)
        }
}

/// Whether the settings area of `store1` records `new_base` as the
/// central repository root and keeps everything else from `store0`.
pub open spec fn setting_recorded(
    store0: &SkillStore,
    store1: &SkillStore,
    new_base: Seq<char>,
) -> bool {
    &&& store1.settings_view().contains_key("central_repo_path"@)
    &&& store1.settings_view()["central_repo_path"@]@ == new_base
    &&& forall|k: Seq<char>|
        k != "central_repo_path"@ ==> (#[trigger] store1.settings_view().contains_key(k)
            == store0.settings_view().contains_key(k) && (store1.settings_view().contains_key(k)
            ==> store1.settings_view()[k] == store0.settings_view()[k]))
}

/// The combined effect of a completed migration: every skill's record
/// points under the new base with its move time stamped, every central
/// directory moved with its node intact, nothing else on the filesystem
/// touched, and the new root recorded in the settings.
pub open spec fn migration_applied(
    store0: &SkillStore,
    store1: &SkillStore,
    fs0: &FsModel,
    fs1: &FsModel,
    new_base: Seq<char>,
    now: i64,
) -> bool {
    &&& store1.skills@.len() == store0.skills@.len()
    &&& forall|i: int|
        0 <= i < store0.skills@.len() ==> {
            let sk = #[trigger] store0.skills@[i];
            let d = store1.skills@[i];
            &&& d.id == sk.id
            &&& d.name == sk.name
            &&& d.source_type == sk.source_type
            &&& d.source_ref == sk.source_ref
            &&& d.central_path@ == spec_new_central(new_base, sk.central_path@)
            &&& d.content_hash == sk.content_hash
            &&& d.created_at == sk.created_at
            &&& d.updated_at == now
            &&& d.last_sync_at == sk.last_sync_at
            &&& d.status == sk.status
        }
    &&& forall|i: int|
        0 <= i < store0.skills@.len() ==> fs1@.contains_key(
            spec_new_central(new_base, (#[trigger] store0.skills@[i]).central_path@),
        ) && fs1@[spec_new_central(new_base, store0.skills@[i].central_path@)]
            == fs0@[store0.skills@[i].central_path@]
    &&& forall|i: int|
        0 <= i < store0.skills@.len() ==> !fs1@.contains_key(
            (#[trigger] store0.skills@[i]).central_path@,
        )
    &&& forall|p: Seq<char>|
        !(exists|i: int|
            0 <= i < store0.skills@.len() && p == (#[trigger] store0.skills@[i]).central_path@)
            && !(exists|i: int|
            0 <= i < store0.skills@.len() && p == spec_new_central(
                new_base,
                (#[trigger] store0.skills@[i]).central_path@,
            )) ==> (#[trigger] fs1@.contains_key(p) == fs0@.contains_key(p) && (
        fs1@.contains_key(p) ==> fs1@[p] == fs0@[p]))
    &&& setting_recorded(store0, store1, new_base)
}

/// Moves the whole central repository to a new root: every skill's
/// central directory is validated first, then renamed under the new base
/// and its record updated, and the new root is recorded in the settings.
/// Validation failures leave everything untouched.
pub fn migrate_central_repo(
    store: &mut SkillStore,
    fs: &mut FsModel,
    new_base: &String,
    now: i64,
) -> (r: Result<(), SkillError>)
    requires
        old(store).wf(),
    ensures
        final(store).wf(),
        final(store).targets@ == old(store).targets@,
        final(store).hosts@ == old(store).hosts@,
        final(store).custom_targets@ == old(store).custom_targets@,
        r is Ok <==> migration_valid(old(store).skills@, old(fs)@, new_base@),
        match r {
            Ok(()) => migration_applied(old(store), final(store), old(fs), final(fs), new_base@, now),
            Err(e) => {
                &&& final(store).skills@ == old(store).skills@
                &&& final(fs)@ == old(fs)@
                &&& final(store).settings_view() == old(store).settings_view()
                &&& match e {
                    SkillError::StorageInconsistency { .. } => true,
                    SkillError::InvalidInput { .. } => true,
                    SkillError::DestinationConflict { .. } => true,
                    _ => false,
                }
            },
        },
{
    // Validate every move first, so a failure changes nothing.
    let mut news: Vec<String> = Vec::new();
    let mut i: usize = 0;
    while i < store.skills.len()
        invariant
            *store == *old(store),
            *fs == *old(fs),
            old(store).wf(),
            0 <= i <= store.skills@.len(),
            news@.len() == i,
            forall|j: int|
                0 <= j < i ==> (#[trigger] news@[j])@ == spec_new_central(
                    new_base@,
                    old(store).skills@[j].central_path@,
                ),
            forall|j: int|
                0 <= j < i ==> {
                    &&& old(fs)@.contains_key((#[trigger] old(store).skills@[j]).central_path@)
                    &&& spec_file_name(old(store).skills@[j].central_path@).len() > 0
                    &&& !old(fs)@.contains_key(
                        spec_new_central(new_base@, old(store).skills@[j].central_path@),
                    )
                    &&& forall|k: int|
                        0 <= k < j ==> spec_new_central(
                            new_base@,
                            old(store).skills@[k].central_path@,
                        ) != spec_new_central(new_base@, old(store).skills@[j].central_path@)
                },
        decreases store.skills@.len() - i,
    {
        let old_path = store.skills[i].central_path.clone();
        if !fs.contains(old_path.as_str()) {
            return Err(SkillError::StorageInconsistency { detail: old_path });
        }
        let fname = file_name_of(old_path.as_str());
        if fname.as_str().unicode_len() == 0 {
            return Err(SkillError::InvalidInput { detail: old_path });
        }
        let newp = join_path(new_base.as_str(), fname.as_str());
        if fs.contains(newp.as_str()) {
            return Err(SkillError::DestinationConflict { path: newp });
        }
        if crate::strutil::contains_string(&news, newp.as_str()) {
            return Err(SkillError::DestinationConflict { path: newp });
        }
        news.push(newp);
        proof {
            assert forall|k: int|
                0 <= k < i implies spec_new_central(
                new_base@,
                old(store).skills@[k].central_path@,
            ) != spec_new_central(new_base@, old(store).skills@[i as int].central_path@) by {
                assert(news@[k]@ == spec_new_central(
                    new_base@,
                    old(store).skills@[k].central_path@,
                ));
            }
        }
        i += 1;
    }
    proof {
        assert(migration_valid(old(store).skills@, old(fs)@, new_base@));
    }

    // Commit: every move is independent — a new location collides with
    // no old one (each old location is on disk, each new one is not) and
    // with no other new one.
    let mut i: usize = 0;
    while i < store.skills.len()
        invariant
            old(store).wf(),
            migration_valid(old(store).skills@, old(fs)@, new_base@),
            store.wf(),
            store.skills@.len() == old(store).skills@.len(),
            store.targets@ == old(store).targets@,
            store.hosts@ == old(store).hosts@,
            store.custom_targets@ == old(store).custom_targets@,
            store.settings_view() == old(store).settings_view(),
            0 <= i <= store.skills@.len(),
            news@.len() == store.skills@.len(),
            forall|j: int|
                0 <= j < store.skills@.len() ==> (#[trigger] news@[j])@ == spec_new_central(
                    new_base@,
                    old(store).skills@[j].central_path@,
                ),
            forall|j: int|
                i <= j < store.skills@.len() ==> #[trigger] store.skills@[j] == old(store).skills@[j],
            forall|j: int|
                0 <= j < i ==> {
                    let sk = #[trigger] old(store).skills@[j];
                    let d = store.skills@[j];
                    &&& d.id == sk.id
                    &&& d.name == sk.name
                    &&& d.source_type == sk.source_type
                    &&& d.source_ref == sk.source_ref
                    &&& d.central_path@ == spec_new_central(new_base@, sk.central_path@)
                    &&& d.content_hash == sk.content_hash
                    &&& d.created_at == sk.created_at
                    &&& d.updated_at == now
                    &&& d.last_sync_at == sk.last_sync_at
                    &&& d.status == sk.status
                },
            forall|j: int|
                0 <= j < i ==> #[trigger] fs@.contains_key(
                    spec_new_central(new_base@, old(store).skills@[j].central_path@),
                ) && fs@[spec_new_central(new_base@, old(store).skills@[j].central_path@)] == old(fs)@[old(store).skills@[j].central_path@],
            forall|j: int|
                0 <= j < i ==> !fs@.contains_key(
                    (#[trigger] old(store).skills@[j]).central_path@,
                ),
            forall|j: int|
                i <= j < store.skills@.len() ==> #[trigger] fs@.contains_key(
                    old(store).skills@[j].central_path@,
                ) && fs@[old(store).skills@[j].central_path@] == old(fs)@[old(store).skills@[j].central_path@],
            forall|p: Seq<char>|
                !(exists|j: int|
                    0 <= j < i && p == (#[trigger] old(store).skills@[j]).central_path@) && !(
                exists|j: int|
                    0 <= j < i && p == spec_new_central(
                        new_base@,
                        (#[trigger] old(store).skills@[j]).central_path@,
                    )) ==> (#[trigger] fs@.contains_key(p) == old(fs)@.contains_key(p) && (
                fs@.contains_key(p) ==> fs@[p] == old(fs)@[p])),
        decreases store.skills@.len() - i,
    {
        let old_path = store.skills[i].central_path.clone();
        let newp = news[i].clone();
        let node: FsNode = match fs.get(old_path.as_str()) {
            Some(n) => n.clone(),
            None => {
                proof {
                    assert(fs@.contains_key(old(store).skills@[i as int].central_path@));
                    assert(false);
                }
                FsNode::Dir { content: 0 }
            },
        };
        fs.remove(old_path.as_str());
        fs.set(newp.clone(), node);
        let mut rec = store.skills[i].clone();
        rec.central_path = newp;
        rec.updated_at = now;
        store.skills[i] = rec;
        proof {
            // The moved-to location of this skill collides with nothing:
            // not with any old location (they are all on disk, it is
            // not), not with any other new one (validated pairwise).
            assert forall|j: int, k: int|
                0 <= j < k < store.skills@.len() implies store.skills@[j].central_path@
                != store.skills@[k].central_path@ by {
                if k <= i as int {
                    assert(spec_new_central(new_base@, old(store).skills@[j].central_path@)
                        != spec_new_central(new_base@, old(store).skills@[k].central_path@));
                } else if j <= i as int && k > i as int {
                    assert(old(fs)@.contains_key(old(store).skills@[k].central_path@));
                    assert(!old(fs)@.contains_key(
                        spec_new_central(new_base@, old(store).skills@[j].central_path@),
                    ));
                }
            }
        }
        i += 1;
    }
    store.set_setting("central_repo_path".to_owned(), new_base.clone());
    Ok(())
}


/// Rewrites a skill's recorded source — used after a registry install,
/// whose temporary download path must not outlive the record.
pub fn set_skill_source(
    store: &mut SkillStore,
    skill_id: &String,
    source_type: String,
    source_ref: Option<String>,
) -> (r: Result<(), SkillError>)
    requires
        old(store).wf(),
    ensures
        final(store).wf(),
        final(store).targets@ == old(store).targets@,
        final(store).hosts@ == old(store).hosts@,
        final(store).custom_targets@ == old(store).custom_targets@,
        final(store).settings_view() == old(store).settings_view(),
        match r {
            Ok(()) => exists|si: int|
                0 <= si < old(store).skills@.len() && (#[trigger] old(store).skills@[si]).id@
                    == skill_id@ && final(store).skills@ == old(store).skills@.update(
                    si,
                    ManagedSkillRecord {
                        source_type: source_type,
                        source_ref: source_ref,
                        ..old(store).skills@[si]
                    },
                ),
            Err(e) => e matches SkillError::NotFound { .. } && !old(store).has_skill(skill_id@)
                && final(store).skills@ == old(store).skills@,
        },
{
    let si = match store.skill_index(skill_id.as_str()) {
        Some(i) => i,
        None => {
            return Err(SkillError::NotFound { what: skill_id.clone() });
        },
    };
    let mut rec = store.skills[si].clone();
    rec.source_type = source_type;
    rec.source_ref = source_ref;
    proof {
        assert forall|j: int|
            0 <= j < store.skills@.len() && store.skills@[j].id@ != rec.id@
                implies store.skills@[j].central_path@ != rec.central_path@ by {
            if j != si as int {
                assert(store.skills@[j].central_path@ != store.skills@[si as int].central_path@);
            }
        }
    }
    let ghost pre = *store;
    store.upsert_skill(rec);
    proof {
        let m = choose|m: int|
            0 <= m < pre.skills@.len() && pre.skills@[m].id@ == skill_id@ && store.skills@
                == pre.skills@.update(m, rec);
        assert(m == si as int);
    }
    Ok(())
}

/// The path of a skill's content document under its central directory.
pub fn skill_content_path(store: &SkillStore, skill_id: &String) -> (r: Result<
    String,
    SkillError,
>)
    requires
        store.wf(),
    ensures
        match r {
            Ok(p) => exists|si: int|
                0 <= si < store.skills@.len() && (#[trigger] store.skills@[si]).id@ == skill_id@
                    && p@ == spec_join_path(store.skills@[si].central_path@, "SKILL.md"@),
            Err(e) => e matches SkillError::NotFound { .. } && !store.has_skill(skill_id@),
        },
{
    match store.skill_index(skill_id.as_str()) {
        Some(si) => Ok(join_path(store.skills[si].central_path.as_str(), "SKILL.md")),
        None => Err(SkillError::NotFound { what: skill_id.clone() }),
    }
}


/// Sets the central repository root: when the new base is the current
/// one, only the setting is rewritten and nothing is moved; otherwise
/// every skill migrates under the new base first. The caller hands in the
/// currently effective base (the recorded setting, or the platform
/// default).
pub fn set_central_repo_root(
    store: &mut SkillStore,
    fs: &mut FsModel,
    current_base: &String,
    new_base: &String,
    now: i64,
) -> (r: Result<(), SkillError>)
    requires
        old(store).wf(),
    ensures
        final(store).wf(),
        final(store).targets@ == old(store).targets@,
        final(store).hosts@ == old(store).hosts@,
        final(store).custom_targets@ == old(store).custom_targets@,
        r is Ok <==> (current_base@ == new_base@ || migration_valid(
            old(store).skills@,
            old(fs)@,
            new_base@,
        )),
        current_base@ == new_base@ ==> final(store).skills@ == old(store).skills@ && final(fs)@
            == old(fs)@ && setting_recorded(old(store), final(store), new_base@),
        current_base@ != new_base@ ==> match r {
            Ok(()) => migration_applied(old(store), final(store), old(fs), final(fs), new_base@, now),
            Err(e) => {
                &&& final(store).skills@ == old(store).skills@
                &&& final(fs)@ == old(fs)@
                &&& final(store).settings_view() == old(store).settings_view()
                &&& match e {
                    SkillError::StorageInconsistency { .. } => true,
                    SkillError::InvalidInput { .. } => true,
                    SkillError::DestinationConflict { .. } => true,
                    _ => false,
                }
            },
        },
{
    if crate::strutil::str_eq(current_base.as_str(), new_base.as_str()) {
        store.set_setting("central_repo_path".to_owned(), new_base.clone());
        return Ok(());
    }
    migrate_central_repo(store, fs, new_base, now)
}

} // verus!
