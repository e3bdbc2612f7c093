//! Custom (non-tool) destinations: labelled paths a skill can be synced
//! to, optionally bound to a remote host. A custom target is addressed in
//! the sync-target table under a destination key derived from its id.

use vstd::prelude::*;
use crate::engine::{spec_is_dir, sync_dir_hybrid_with_overwrite, SyncOutcome};
use crate::errors::SkillError;
use crate::fs_model::{FsModel, FsNode};
use crate::paths::{expand_home_path, is_absolute, join_path, spec_expand_home, spec_is_absolute, spec_join_path};
use crate::remote::{apply_remote_rm_rf, apply_remote_symlink, apply_upload_dir, central_path_for, link_state};
use crate::store::{CustomTargetRecord, SkillStore, SkillTargetRecord, TargetStatus, target_keyed};
use crate::strutil::concat2;
use crate::SyncMode;

verus! {

/// The destination key a custom target occupies in the sync-target
/// table.
pub open spec fn spec_custom_key(target_id: Seq<char>) -> Seq<char> {
    "custom:"@ + target_id
}

pub fn custom_target_key(target_id: &str) -> (r: String)
    ensures
        r@ == spec_custom_key(target_id@),
{
    concat2("custom:", target_id)
}

/// Validates and writes a new custom target. A remote target's path must
/// be absolute on the remote host; a local path is expanded against the
/// home directory and must come out absolute (the caller creates the
/// directory itself).
pub fn add_custom_target(
    store: &mut SkillStore,
    id: String,
    label: String,
    path: &String,
    remote_host_id: Option<String>,
    home: &String,
    now: i64,
) -> (r: Result<CustomTargetRecord, SkillError>)
    requires
        old(store).wf(),
        !old(store).has_custom_target(id@),
    ensures
        final(store).wf(),
        final(store).skills@ == old(store).skills@,
        final(store).targets@ == old(store).targets@,
        final(store).hosts@ == old(store).hosts@,
        final(store).settings_view() == old(store).settings_view(),
        match r {
            Ok(rec) => {
                &&& rec.id == id
                &&& rec.label == label
                &&& rec.remote_host_id == remote_host_id
                &&& rec.created_at == now
                &&& match remote_host_id {
                    Some(rh) => old(store).has_host(rh@) && spec_is_absolute(path@) && rec.path@
                        == path@,
                    None => spec_expand_home(path@, home@) == Some(rec.path@) && spec_is_absolute(
                        rec.path@,
                    ),
                }
                &&& final(store).custom_targets@ == old(store).custom_targets@.push(rec)
            },
            Err(e) => {
                &&& final(store).custom_targets@ == old(store).custom_targets@
                &&& match e {
                    SkillError::InvalidInput { .. } => match remote_host_id {
                        Some(_) => !spec_is_absolute(path@),
                        None => match spec_expand_home(path@, home@) {
                            Some(p) => !spec_is_absolute(p),
                            None => true,
                        },
                    },
                    SkillError::NotFound { what } => match remote_host_id {
                        Some(rh) => spec_is_absolute(path@) && what@ == rh@ && !old(store).has_host(rh@),
                        None => false,
                    },
                    _ => false,
                }
            },
        },
{
    let canonical: String = match &remote_host_id {
        Some(rh) => {
            if !is_absolute(path.as_str()) {
                return Err(SkillError::InvalidInput { detail: path.clone() });
            }
            match store.get_remote_host_by_id(rh.as_str()) {
                Some(_) => {},
                None => {
                    return Err(SkillError::NotFound { what: rh.clone() });
                },
            }
            path.clone()
        },
        None => {
            let expanded = match expand_home_path(path.as_str(), home.as_str()) {
                Ok(p) => p,
                Err(_) => {
                    return Err(SkillError::InvalidInput { detail: path.clone() });
                },
            };
            if !is_absolute(expanded.as_str()) {
                return Err(SkillError::InvalidInput { detail: expanded });
            }
            expanded
        },
    };
    let rec = CustomTargetRecord {
        id,
        label,
        path: canonical,
        remote_host_id,
        created_at: now,
    };
    let out = rec.clone();
    store.upsert_custom_target(rec);
    Ok(out)
}

/// Syncs one skill to a custom target. A local target is materialized by
/// the sync engine's strategy chain under the overwrite policy; a remote
/// target is staged under the remote central directory and force-linked,
/// and always records the symlink mode. Either way the pairing is
/// recorded under the target's destination key.
pub fn sync_skill_to_custom_target(
    store: &mut SkillStore,
    fs: &mut FsModel,
    rfs: &mut FsModel,
    caps: crate::FsCapabilities,
    source_path: &String,
    skill_id: &String,
    custom_target_id: &String,
    name: &String,
    overwrite: bool,
    remote_home: &String,
    now: i64,
) -> (r: Result<SyncOutcome, SkillError>)
    requires
        old(store).wf(),
        spec_is_dir(old(fs)@, source_path@),
    ensures
        final(store).wf(),
        final(store).skills@ == old(store).skills@,
        final(store).hosts@ == old(store).hosts@,
        final(store).custom_targets@ == old(store).custom_targets@,
        final(store).settings_view() == old(store).settings_view(),
        match r {
            Ok(out) => exists|ci: int|
                {
                    &&& 0 <= ci < old(store).custom_targets@.len()
                    &&& (#[trigger] old(store).custom_targets@[ci]).id@ == custom_target_id@
                    &&& {
                        let ct = old(store).custom_targets@[ci];
                        &&& match ct.remote_host_id {
                            Some(rh) => {
                                let central = remote_home@ + "/.skillshub/"@ + name@;
                                &&& old(store).has_host(rh@)
                                &&& out.mode_used == SyncMode::Symlink
                                &&& out.target_path@ == spec_join_path(ct.path@, name@)
                                &&& link_state(final(rfs)@, out.target_path@, central)
                                &&& out.target_path@ != central ==> final(rfs)@.contains_key(
                                    central,
                                ) && final(rfs)@[central] == (FsNode::Dir {
                                    content: crate::engine::spec_dir_content(
                                        old(fs)@,
                                        source_path@,
                                    ),
                                })
                                &&& final(fs)@ == old(fs)@
                            },
                            None => {
                                &&& out.mode_used == crate::spec_choose_mode(
                                    SyncMode::Auto,
                                    caps,
                                )
                                &&& out.target_path@ == spec_join_path(ct.path@, name@)
                                &&& !(old(fs)@.contains_key(out.target_path@) && !overwrite)
                                &&& final(fs)@.contains_key(out.target_path@)
                                &&& crate::engine::mode_matches_node(
                                    out.mode_used,
                                    final(fs)@[out.target_path@],
                                    source_path@,
                                    crate::engine::spec_dir_content(old(fs)@, source_path@),
                                )
                                &&& final(fs)@ == old(fs)@.insert(
                                    out.target_path@,
                                    final(fs)@[out.target_path@],
                                )
                                &&& final(rfs)@ == old(rfs)@
                            },
                        }
                        &&& exists|n: int|
                            0 <= n < final(store).targets@.len() && (#[trigger] final(store).targets@[n]).skill_id@ == skill_id@ && final(store).targets@[n].tool@
                                == spec_custom_key(custom_target_id@) && final(store).targets@[n].target_path@ == out.target_path@ && final(store).targets@[n].mode == out.mode_used && final(store).targets@[n].status
                                == TargetStatus::Synced && final(store).targets@[n].synced_at
                                == Some(now)
                        &&& forall|rec: SkillTargetRecord|
                            #[trigger] final(store).targets@.contains(rec) ==> old(store).targets@.contains(rec) || (rec.skill_id@ == skill_id@ && rec.tool@
                                == spec_custom_key(custom_target_id@))
                        &&& forall|rec: SkillTargetRecord|
                            #[trigger] old(store).targets@.contains(rec) && !(rec.skill_id@
                                == skill_id@ && rec.tool@ == spec_custom_key(custom_target_id@))
                                ==> final(store).targets@.contains(rec)
                    }
                },
            Err(e) => {
                &&& final(store).targets@ == old(store).targets@
                &&& final(fs)@ == old(fs)@
                &&& final(rfs)@ == old(rfs)@
                &&& match e {
                    SkillError::NotFound { what } => (what@ == custom_target_id@ && !old(store).has_custom_target(custom_target_id@)) || (exists|ci: int|
                        0 <= ci < old(store).custom_targets@.len() && (#[trigger] old(store).custom_targets@[ci]).id@ == custom_target_id@ && old(store).custom_targets@[ci].remote_host_id == Some(what) && !old(store).has_host(what@)),
                    SkillError::TargetExists { path } => exists|ci: int|
                        0 <= ci < old(store).custom_targets@.len() && (#[trigger] old(store).custom_targets@[ci]).id@ == custom_target_id@ && old(store).custom_targets@[ci].remote_host_id is None && !overwrite && path@
                            == spec_join_path(old(store).custom_targets@[ci].path@, name@) && old(fs)@.contains_key(path@),
                    _ => false,
                }
            },
        },
{
    let ct = match store.get_custom_target_by_id(custom_target_id.as_str()) {
        Some(c) => c,
        None => {
            return Err(SkillError::NotFound { what: custom_target_id.clone() });
        },
    };
    let ghost ci = choose|ci: int|
        0 <= ci < store.custom_targets@.len() && store.custom_targets@[ci] == ct;
    let tool_key = custom_target_key(custom_target_id.as_str());

    let outcome: SyncOutcome = match &ct.remote_host_id {
        Some(rh) => {
            match store.get_remote_host_by_id(rh.as_str()) {
                Some(_) => {},
                None => {
                    return Err(SkillError::NotFound { what: rh.clone() });
                },
            }
            let central = central_path_for(remote_home.as_str(), name.as_str());
            match apply_upload_dir(rfs, fs, source_path, &central) {
                Ok(()) => {},
                Err(_) => {
                    proof {
                        assert(false);
                    }
                },
            }
            let dest = join_path(ct.path.as_str(), name.as_str());
            apply_remote_symlink(rfs, &central, &dest);
            SyncOutcome { mode_used: SyncMode::Symlink, target_path: dest }
        },
        None => {
            let target = join_path(ct.path.as_str(), name.as_str());
            match sync_dir_hybrid_with_overwrite(fs, caps, source_path, &target, overwrite) {
                Ok(out) => out,
                Err(e) => {
                    return Err(e);
                },
            }
        },
    };

    let rec = SkillTargetRecord {
        id: crate::ids::new_record_id(),
        skill_id: skill_id.clone(),
        tool: tool_key,
        target_path: outcome.target_path.clone(),
        mode: outcome.mode_used,
        status: TargetStatus::Synced,
        last_error: None,
        synced_at: Some(now),
    };
    let ghost pre = *store;
    let ghost before = store.targets@;
    store.upsert_skill_target(rec);
    proof {
        assert(store.targets@.contains(rec));
        assert forall|r2: SkillTargetRecord| #[trigger]
            store.targets@.contains(r2) implies before.contains(r2) || r2 == rec by {
            let n2 = choose|n: int| 0 <= n < store.targets@.len() && store.targets@[n] == r2;
            if pre.has_target(rec.skill_id@, rec.tool@) {
                let m = choose|m: int|
                    0 <= m < before.len() && target_keyed(before[m], rec.skill_id@, rec.tool@)
                        && store.targets@ == before.update(m, rec);
                if n2 != m {
                    assert(before[n2] == r2);
                }
            } else {
                if n2 < before.len() {
                    assert(before[n2] == r2);
                }
            }
        }
        assert forall|r2: SkillTargetRecord| #[trigger]
            before.contains(r2) && !(r2.skill_id@ == skill_id@ && r2.tool@ == spec_custom_key(
                custom_target_id@,
            )) implies store.targets@.contains(r2) by {
            let n2 = choose|n: int| 0 <= n < before.len() && before[n] == r2;
            if pre.has_target(rec.skill_id@, rec.tool@) {
                let m = choose|m: int|
                    0 <= m < before.len() && target_keyed(before[m], rec.skill_id@, rec.tool@)
                        && store.targets@ == before.update(m, rec);
                assert(n2 != m);
                assert(store.targets@[n2] == r2);
            } else {
                assert(store.targets@[n2] == r2);
            }
        }
    }
    Ok(outcome)
}

/// Whether the custom target with `id` is bound to a remote host.
pub open spec fn custom_target_remote(store0: &SkillStore, id: Seq<char>) -> bool {
    exists|ci: int|
        0 <= ci < store0.custom_targets@.len() && (#[trigger] store0.custom_targets@[ci]).id@
            == id && store0.custom_targets@[ci].remote_host_id is Some
}

/// Unsyncs one skill from a custom target: the recorded destination is
/// removed — over SSH when the target is bound to a remote host, locally
/// otherwise (also when the custom target itself is already gone) — and
/// the record is deleted with it; record and path die together. Without a
/// record the call is a no-op.
pub fn unsync_skill_from_custom_target(
    store: &mut SkillStore,
    fs: &mut FsModel,
    rfs: &mut FsModel,
    skill_id: &String,
    custom_target_id: &String,
) -> (r: Result<(), SkillError>)
    requires
        old(store).wf(),
    ensures
        final(store).wf(),
        final(store).skills@ == old(store).skills@,
        final(store).hosts@ == old(store).hosts@,
        final(store).custom_targets@ == old(store).custom_targets@,
        final(store).settings_view() == old(store).settings_view(),
        match r {
            Ok(()) => {
                &&& !final(store).has_target(skill_id@, spec_custom_key(custom_target_id@))
                &&& final(store).targets@ == old(store).targets@.filter(
                    |t: SkillTargetRecord| !target_keyed(
                        t,
                        skill_id@,
                        spec_custom_key(custom_target_id@),
                    ),
                )
                &&& if !old(store).has_target(skill_id@, spec_custom_key(custom_target_id@)) {
                    final(fs)@ == old(fs)@ && final(rfs)@ == old(rfs)@
                } else {
                    exists|n: int|
                        0 <= n < old(store).targets@.len() && target_keyed(
                            #[trigger] old(store).targets@[n],
                            skill_id@,
                            spec_custom_key(custom_target_id@),
                        ) && (if custom_target_remote(old(store), custom_target_id@) {
                            final(rfs)@ == old(rfs)@.remove(
                                old(store).targets@[n].target_path@,
                            ) && final(fs)@ == old(fs)@
                        } else {
                            final(fs)@ == old(fs)@.remove(old(store).targets@[n].target_path@)
                                && final(rfs)@ == old(rfs)@
                        })
                }
            },
            Err(e) => {
                &&& final(store).targets@ == old(store).targets@
                &&& final(fs)@ == old(fs)@
                &&& final(rfs)@ == old(rfs)@
                &&& old(store).has_target(skill_id@, spec_custom_key(custom_target_id@))
                &&& custom_target_remote(old(store), custom_target_id@)
                &&& e matches SkillError::NotFound { what } && exists|ci: int|
                    0 <= ci < old(store).custom_targets@.len() && (#[trigger] old(
                        store,
                    ).custom_targets@[ci]).id@ == custom_target_id@ && (match old(
                        store,
                    ).custom_targets@[ci].remote_host_id {
                        Some(rh) => what@ == rh@ && !old(store).has_host(rh@),
                        None => false,
                    })
            },
        },
{
    let tool_key = custom_target_key(custom_target_id.as_str());
    let target = match store.get_skill_target(skill_id.as_str(), tool_key.as_str()) {
        Some(t) => t,
        None => {
            proof {
                crate::store::lemma_filter_all_kept(
                    store.targets@,
                    |t: SkillTargetRecord| !target_keyed(
                        t,
                        skill_id@,
                        spec_custom_key(custom_target_id@),
                    ),
                );
            }
            return Ok(());
        },
    };
    let ghost n0 = choose|n: int|
        0 <= n < store.targets@.len() && store.targets@[n] == target;
    let ct = store.get_custom_target_by_id(custom_target_id.as_str());
    match ct {
        Some(c) => {
            let ghost ci0 = choose|ci: int|
                0 <= ci < store.custom_targets@.len() && store.custom_targets@[ci] == c;
            match &c.remote_host_id {
                Some(rh) => {
                    proof {
                        assert(custom_target_remote(store, custom_target_id@));
                    }
                    match store.get_remote_host_by_id(rh.as_str()) {
                        Some(_) => {},
                        None => {
                            return Err(SkillError::NotFound { what: rh.clone() });
                        },
                    }
                    apply_remote_rm_rf(rfs, &target.target_path);
                    proof {
                        // Only the looked-up row carries this id, so the
                        // target really is remote.
                        assert(target_keyed(
                            store.targets@[n0],
                            skill_id@,
                            spec_custom_key(custom_target_id@),
                        ));
                    }
                },
                None => {
                    proof {
                        // The one row with this id is not bound to a host.
                        assert forall|ci: int|
                            0 <= ci < store.custom_targets@.len() && (#[trigger] store.custom_targets@[ci]).id@
                                == custom_target_id@ implies !(store.custom_targets@[ci].remote_host_id
                            is Some) by {
                            assert(ci == ci0);
                        }
                    }
                    fs.remove(target.target_path.as_str());
                },
            }
        },
        None => {
            // The custom target row is already gone but the pairing
            // remains: clean the local path up anyway.
            proof {
                assert(!custom_target_remote(store, custom_target_id@));
            }
            fs.remove(target.target_path.as_str());
        },
    }
    store.delete_skill_target(skill_id.as_str(), tool_key.as_str());
    proof {
        assert(target_keyed(
            old(store).targets@[n0],
            skill_id@,
            spec_custom_key(custom_target_id@),
        ));
    }
    Ok(())
}

/// Deletes a custom target: every skill's recorded destination under it
/// is removed from the local filesystem, the pairings are deleted with
/// them, and the custom-target row goes last.
pub fn delete_custom_target(
    store: &mut SkillStore,
    fs: &mut FsModel,
    custom_target_id: &String,
) -> (r: Result<(), SkillError>)
    requires
        old(store).wf(),
    ensures
        r is Ok,
        final(store).wf(),
        final(store).skills@ == old(store).skills@,
        final(store).hosts@ == old(store).hosts@,
        final(store).settings_view() == old(store).settings_view(),
        final(store).custom_targets@ == old(store).custom_targets@.filter(
            |c: CustomTargetRecord| c.id@ != custom_target_id@,
        ),
        final(store).targets@ == old(store).targets@.filter(
            |t: SkillTargetRecord| t.tool@ != spec_custom_key(custom_target_id@),
        ),
        !final(store).has_custom_target(custom_target_id@),
        forall|n: int|
            0 <= n < old(store).targets@.len() && (#[trigger] old(store).targets@[n]).tool@
                == spec_custom_key(custom_target_id@) ==> !final(fs)@.contains_key(
                old(store).targets@[n].target_path@,
            ),
        forall|p: Seq<char>|
            #[trigger] final(fs)@.contains_key(p) <==> old(fs)@.contains_key(p) && !(exists|n: int|
                0 <= n < old(store).targets@.len() && (#[trigger] old(store).targets@[n]).tool@
                    == spec_custom_key(custom_target_id@) && old(store).targets@[n].target_path@
                    == p),
        forall|p: Seq<char>| #[trigger] final(fs)@.contains_key(p) ==> final(fs)@[p] == old(fs)@[p],
{
    let tool_key = custom_target_key(custom_target_id.as_str());
    let tlist = store.list_targets_for_tool(tool_key.as_str());
    proof {
        crate::store::lemma_filter_congruent(
            store.targets@,
            |t: SkillTargetRecord| t.tool@ == tool_key@,
            |t: SkillTargetRecord| t.tool@ == spec_custom_key(custom_target_id@),
        );
    }
    let mut i: usize = 0;
    while i < tlist.len()
        invariant
            *store == *old(store),
            old(store).wf(),
            0 <= i <= tlist@.len(),
            tool_key@ == spec_custom_key(custom_target_id@),
            tlist@ == old(store).targets@.filter(
                |t: SkillTargetRecord| t.tool@ == spec_custom_key(custom_target_id@),
            ),
            forall|p: Seq<char>|
                #[trigger] fs@.contains_key(p) <==> old(fs)@.contains_key(p) && !(exists|j: int|
                    0 <= j < i && (#[trigger] tlist@[j]).target_path@ == p),
            forall|p: Seq<char>| #[trigger] fs@.contains_key(p) ==> fs@[p] == old(fs)@[p],
        decreases tlist@.len() - i,
    {
        fs.remove(tlist[i].target_path.as_str());
        i += 1;
    }
    proof {
        crate::store::lemma_filter_congruent(
            store.targets@,
            |t: SkillTargetRecord| t.tool@ != tool_key@,
            |t: SkillTargetRecord| t.tool@ != spec_custom_key(custom_target_id@),
        );
    }
    store.delete_targets_for_tool(tool_key.as_str());
    store.delete_custom_target(custom_target_id.as_str());
    proof {
        broadcast use vstd::seq_lib::group_filter_ensures;

        crate::store::lemma_filter_elems_from(
            old(store).targets@,
            |t: SkillTargetRecord| t.tool@ == spec_custom_key(custom_target_id@),
        );
        assert forall|p: Seq<char>|
            #![trigger old(fs)@.contains_key(p)]
            (exists|n: int|
                0 <= n < old(store).targets@.len() && (#[trigger] old(store).targets@[n]).tool@
                    == spec_custom_key(custom_target_id@) && old(store).targets@[n].target_path@
                    == p) == (exists|j: int|
                0 <= j < tlist@.len() && (#[trigger] tlist@[j]).target_path@ == p) by {
            if exists|n: int|
                0 <= n < old(store).targets@.len() && (#[trigger] old(store).targets@[n]).tool@
                    == spec_custom_key(custom_target_id@) && old(store).targets@[n].target_path@
                    == p {
                let n = choose|n: int|
                    0 <= n < old(store).targets@.len() && (#[trigger] old(store).targets@[n]).tool@
                        == spec_custom_key(custom_target_id@) && old(store).targets@[n].target_path@ == p;
                assert(tlist@.contains(old(store).targets@[n]));
                let j = choose|j: int| 0 <= j < tlist@.len() && tlist@[j] == old(store).targets@[n];
                assert(tlist@[j].target_path@ == p);
            }
            if exists|j: int| 0 <= j < tlist@.len() && (#[trigger] tlist@[j]).target_path@ == p {
                let j = choose|j: int|
                    0 <= j < tlist@.len() && (#[trigger] tlist@[j]).target_path@ == p;
                let n = choose|n: int|
                    0 <= n < old(store).targets@.len() && old(store).targets@[n] == tlist@[j];
                assert(old(store).targets@[n].tool@ == spec_custom_key(custom_target_id@) && old(store).targets@[n].target_path@ == p);
            }
        }
    }
    Ok(())
}

} // verus!
