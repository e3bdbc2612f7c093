//! A verified core for distributing reusable skill directories from a
//! central repository to local tool directories and remote hosts.
//!
//! The library models the filesystem and the persistent record store
//! explicitly, so that the sync engine, the remote sync engine and the
//! installer can be verified against exact contracts. Calls into outside
//! crates stand behind small trusted wrappers.
//!
//! - [`store`] — the durable records: skills, sync targets, remote hosts,
//!   custom targets, settings.
//! - [`fs_model`] — a filesystem as a map from path to node, local or
//!   remote.
//! - [`engine`] — the local sync engine: strategy fallback, overwrite
//!   policy, shared-destination groups, unsync.
//! - [`installer`] — install, update propagation, update checks, deletion
//!   in the safe order, repository migration.
//! - [`remote`] — the remote sync engine: command building and parsing,
//!   staging, force-linking, batch sync, the host state machine.
//! - [`targets`] — custom destinations, local or over SSH.
//! - [`clawhub`] — the registry client's logic: URLs, search filtering,
//!   detail assembly, archive extraction planning.
//! - [`dto`] — the plain shapes handed to the interactive surface.
//! - [`errors`] — the structured failure taxonomy.
//! - [`paths`], [`strutil`] — verified path and string arithmetic.
//! - [`ids`] — fresh record identifiers.

pub mod clawhub;
pub mod dto;
pub mod engine;
pub mod errors;
pub mod fs_model;
pub mod ids;
pub mod installer;
pub mod paths;
pub mod remote;
pub mod store;
pub mod strutil;
pub mod targets;

use vstd::prelude::*;

verus! {

/// The concrete mechanism used to materialize a destination from the
/// central copy. `Auto` is a request, never a recorded outcome.
#[derive(Clone, Copy, Debug, PartialEq, Eq, Structural)]
pub enum SyncMode {
    Auto,
    Symlink,
    Junction,
    Copy,
}

/// What the destination filesystem is capable of; a full recursive copy
/// is always possible.
#[derive(Clone, Copy, Debug, PartialEq, Eq, Structural)]
pub struct FsCapabilities {
    pub symlink: bool,
    pub junction: bool,
}

/// The concrete mode the fallback chain settles on: a symbolic link when
/// the platform allows one, else a junction, else a full copy. Explicit
/// requests are honored as given.
pub open spec fn spec_choose_mode(requested: SyncMode, caps: FsCapabilities) -> SyncMode {
    match requested {
        SyncMode::Auto => if caps.symlink {
            SyncMode::Symlink
        } else if caps.junction {
            SyncMode::Junction
        } else {
            SyncMode::Copy
        },
        m => m,
    }
}

/// Evaluates the ordered strategy list (symlink, then junction, then copy)
/// against the destination's capabilities.
pub fn choose_mode(requested: SyncMode, caps: FsCapabilities) -> (m: SyncMode)
    ensures
        m == spec_choose_mode(requested, caps),
        requested == SyncMode::Auto ==> m != SyncMode::Auto,
{
    match requested {
        SyncMode::Auto => {
            if caps.symlink {
                SyncMode::Symlink
            } else if caps.junction {
                SyncMode::Junction
            } else {
                SyncMode::Copy
            }
        },
        m => m,
    }
}

} // verus!
