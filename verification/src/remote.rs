//! The remote sync engine: reproduces the sync engine's contract across
//! an SSH connection, where a skill is staged under the remote central
//! directory and force-linked to each tool's skills directory. Every
//! remote operation is one shell command built and parsed here; the
//! session I/O itself stays outside the library, and the remote
//! filesystem is modelled explicitly so the staging and linking logic is
//! verified.

use vstd::prelude::*;
use crate::engine::{find_adapter, spec_find_adapter, ToolAdapter};
use crate::errors::SkillError;
use crate::fs_model::{FsModel, FsNode};
use crate::installer::is_link_to;
use crate::store::{HostStatus, RemoteHostRecord, SkillStore};
use crate::strutil::{
    concat2, concat3, concat5, contains_string, join_with, spec_contains_string, spec_join,
    spec_split, spec_starts_with, spec_trim, split_on, str_eq, strip_prefix, trim,
};

verus! {

// ── remote command building ─────────────────────────────────────────

/// The command that prints the remote home directory; SFTP does not
/// expand `~`, so `$HOME` is resolved explicitly first.
pub fn echo_home_command() -> (r: &'static str)
    ensures
        r@ == "echo $HOME"@,
{
    "echo $HOME"
}

/// The command that creates a remote directory and its parents; it
/// succeeds when the directory already exists, so it is idempotent.
pub fn mkdir_p_command(path: &str) -> (r: String)
    ensures
        r@ == "mkdir -p '"@ + path@ + "'"@,
{
    concat3("mkdir -p '", path, "'")
}

/// The command that force-creates a symlink, replacing an existing link
/// atomically, which makes re-syncing the same destination idempotent.
pub fn ln_sfn_command(source: &str, target: &str) -> (r: String)
    ensures
        r@ == "ln -sfn '"@ + source@ + "' '"@ + target@ + "'"@,
{
    concat5("ln -sfn '", source, "' '", target, "'")
}

/// The command that removes a remote path, link or directory alike.
pub fn rm_rf_command(path: &str) -> (r: String)
    ensures
        r@ == "rm -rf '"@ + path@ + "'"@,
{
    concat3("rm -rf '", path, "'")
}

/// The command that lists the remote central directory, tolerating its
/// absence.
pub fn list_skills_command() -> (r: &'static str)
    ensures
        r@ == "ls -1 ~/.skillshub/ 2>/dev/null || true"@,
{
    "ls -1 ~/.skillshub/ 2>/dev/null || true"
}

/// The command that lists the directories directly under `path`, one
/// name per line.
pub fn find_dirs_command(path: &str) -> (r: String)
    ensures
        r@ == "find '"@ + path@
            + "' -maxdepth 1 -mindepth 1 -type d -printf '%f\\n' 2>/dev/null | sort"@,
{
    concat3(
        "find '",
        path,
        "' -maxdepth 1 -mindepth 1 -type d -printf '%f\\n' 2>/dev/null | sort",
    )
}

/// One tool's existence check: prints `EXISTS:key` or `MISSING:key`.
pub open spec fn spec_detect_check(a: ToolAdapter) -> Seq<char> {
    "[ -d ~/"@ + a.detect_dir@ + " ] && echo 'EXISTS:"@ + a.key@ + "' || echo 'MISSING:"@ + a.key@
        + "'"@
}

pub fn detect_check_command(adapter: &ToolAdapter) -> (r: String)
    ensures
        r@ == spec_detect_check(*adapter),
{
    let a = concat5(
        "[ -d ~/",
        adapter.detect_dir.as_str(),
        " ] && echo 'EXISTS:",
        adapter.key.as_str(),
        "' || echo 'MISSING:",
    );
    concat3(a.as_str(), adapter.key.as_str(), "'")
}

/// The batched introspection command: every tool's check in one round
/// trip, joined with `" ; "`, to bound latency.
pub fn detect_tools_command(adapters: &Vec<ToolAdapter>) -> (r: String)
    ensures
        r@ == spec_join(
            adapters@.map_values(|a: ToolAdapter| spec_detect_check(a)),
            " ; "@,
        ),
{
    let mut checks: Vec<String> = Vec::new();
    let mut i: usize = 0;
    while i < adapters.len()
        invariant
            0 <= i <= adapters@.len(),
            checks@.map_values(|t: String| t@) == adapters@.take(i as int).map_values(
                |a: ToolAdapter| spec_detect_check(a),
            ),
        decreases adapters@.len() - i,
    {
        let ghost pre = checks@;
        checks.push(detect_check_command(&adapters[i]));
        proof {
            assert(adapters@.take(i + 1).drop_last() =~= adapters@.take(i as int));
            assert(adapters@.take(i + 1).map_values(|a: ToolAdapter| spec_detect_check(a))
                =~= adapters@.take(i as int).map_values(|a: ToolAdapter| spec_detect_check(a)).push(
                spec_detect_check(adapters@[i as int]),
            ));
            assert(checks@.map_values(|t: String| t@) =~= pre.map_values(|t: String| t@).push(
                checks@[i as int]@,
            ));
        }
        i += 1;
    }
    proof {
        assert(adapters@.take(adapters@.len() as int) =~= adapters@);
    }
    join_with(&checks, " ; ")
}

// ── remote paths ────────────────────────────────────────────────────

/// The remote central directory.
pub fn central_root_for(home: &str) -> (r: String)
    ensures
        r@ == home@ + "/.skillshub"@,
{
    concat2(home, "/.skillshub")
}

/// The staging path of one skill under the remote central directory.
pub fn central_path_for(home: &str, name: &str) -> (r: String)
    ensures
        r@ == home@ + "/.skillshub/"@ + name@,
{
    concat3(home, "/.skillshub/", name)
}

/// The destination of one skill inside a tool's remote skills directory.
pub fn tool_skill_path(home: &str, skills_dir: &str, name: &str) -> (r: String)
    ensures
        r@ == home@ + "/"@ + skills_dir@ + "/"@ + name@,
{
    concat5(home, "/", skills_dir, "/", name)
}

/// The path a remote browse starts from: the home directory by default,
/// with a `~` prefix resolved against it.
pub open spec fn spec_browse_path(raw: Option<Seq<char>>, home: Seq<char>) -> Seq<char> {
    match raw {
        None => home,
        Some(p) => if p == "~"@ {
            home
        } else if spec_starts_with(p, "~/"@) {
            home + p.skip(1)
        } else {
            p
        },
    }
}

pub fn resolve_browse_path(raw: Option<&String>, home: &str) -> (r: String)
    ensures
        r@ == spec_browse_path(
            match raw {
                Some(p) => Some(p@),
                None => None,
            },
            home@,
        ),
{
    match raw {
        None => home.to_owned(),
        Some(p) => {
            if str_eq(p.as_str(), "~") {
                home.to_owned()
            } else {
                match strip_prefix(p.as_str(), "~/") {
                    Some(rest) => {
                        let joined = concat3(home, "/", rest.as_str());
                        proof {
                            reveal_strlit("~/");
                            reveal_strlit("/");
                            assert(p@.skip(1) =~= "/"@ + rest@);
                            assert(joined@ =~= home@ + p@.skip(1));
                        }
                        joined
                    },
                    None => p.clone(),
                }
            }
        },
    }
}

// ── command outcomes ────────────────────────────────────────────────

/// Settles a finished remote command: a zero exit status yields its
/// stdout, any other carries the command and the captured stderr.
pub fn command_outcome(
    command: String,
    exit_code: i64,
    stdout: String,
    stderr: String,
) -> (r: Result<String, SkillError>)
    ensures
        match r {
            Ok(out) => exit_code == 0 && out == stdout,
            Err(e) => exit_code != 0 && (e matches SkillError::RemoteCommandFailed {
                command: c,
                exit_code: x,
                stderr: s,
            } && c == command && x == exit_code && s == stderr),
        },
{
    if exit_code == 0 {
        Ok(stdout)
    } else {
        Err(SkillError::RemoteCommandFailed { command, exit_code, stderr })
    }
}

/// Whether a failed remote mkdir is absorbed as success: the SFTP status
/// codes for a general failure on an existing directory and for "file
/// already exists", or the directory being present after all — remote
/// directory creation must be idempotent, races included.
pub fn mkdir_failure_absorbed(code: i64, exists_after: bool) -> (r: bool)
    ensures
        r == (code == 4 || code == 11 || exists_after),
{
    code == 4 || code == 11 || exists_after
}

/// Settles the post-handshake authentication state: an unauthenticated
/// session fails fast.
pub fn session_auth_outcome(authenticated: bool, username: &String) -> (r: Result<
    (),
    SkillError,
>)
    ensures
        match r {
            Ok(()) => authenticated,
            Err(e) => !authenticated && (e matches SkillError::AuthenticationFailed {
                username: u,
            } && u@ == username@),
        },
{
    if authenticated {
        Ok(())
    } else {
        Err(SkillError::AuthenticationFailed { username: username.clone() })
    }
}

/// The private-key file the session will authenticate with: an explicit
/// non-empty path (a `~/` prefix expanded against the home directory),
/// else the first default key name present under `~/.ssh`.
pub open spec fn spec_default_key(home: Seq<char>, available: Seq<String>) -> Option<Seq<char>> {
    if spec_contains_string(available, "id_ed25519"@) {
        Some(home + "/.ssh/"@ + "id_ed25519"@)
    } else if spec_contains_string(available, "id_rsa"@) {
        Some(home + "/.ssh/"@ + "id_rsa"@)
    } else if spec_contains_string(available, "id_ecdsa"@) {
        Some(home + "/.ssh/"@ + "id_ecdsa"@)
    } else {
        None
    }
}

pub fn resolve_key_path(
    key_path: Option<&String>,
    home: &String,
    available: &Vec<String>,
) -> (r: Result<String, SkillError>)
    ensures
        match r {
            Ok(p) => match key_path {
                Some(kp) => if kp@.len() > 0 {
                    if spec_starts_with(kp@, "~/"@) {
                        p@ == home@ + kp@.skip(1)
                    } else {
                        p@ == kp@
                    }
                } else {
                    spec_default_key(home@, available@) == Some(p@)
                },
                None => spec_default_key(home@, available@) == Some(p@),
            },
            Err(e) => {
                &&& e matches SkillError::NotFound { .. }
                &&& spec_default_key(home@, available@) is None
                &&& match key_path {
                    Some(kp) => kp@.len() == 0,
                    None => true,
                }
            },
        },
{
    match key_path {
        Some(kp) => {
            if kp.as_str().unicode_len() > 0 {
                match strip_prefix(kp.as_str(), "~/") {
                    Some(rest) => {
                        let joined = concat3(home.as_str(), "/", rest.as_str());
                        proof {
                            reveal_strlit("~/");
                            reveal_strlit("/");
                            assert(kp@.skip(1) =~= "/"@ + rest@);
                            assert(joined@ =~= home@ + kp@.skip(1));
                        }
                        return Ok(joined);
                    },
                    None => {
                        return Ok(kp.clone());
                    },
                }
            }
            default_key_path(home, available)
        },
        None => default_key_path(home, available),
    }
}

/// The first of the conventional key file names present under `~/.ssh`.
fn default_key_path(home: &String, available: &Vec<String>) -> (r: Result<String, SkillError>)
    ensures
        match r {
            Ok(p) => spec_default_key(home@, available@) == Some(p@),
            Err(e) => e matches SkillError::NotFound { .. } && spec_default_key(
                home@,
                available@,
            ) is None,
        },
{
    if contains_string(available, "id_ed25519") {
        Ok(concat3(home.as_str(), "/.ssh/", "id_ed25519"))
    } else if contains_string(available, "id_rsa") {
        Ok(concat3(home.as_str(), "/.ssh/", "id_rsa"))
    } else if contains_string(available, "id_ecdsa") {
        Ok(concat3(home.as_str(), "/.ssh/", "id_ecdsa"))
    } else {
        Err(SkillError::NotFound { what: "~/.ssh".to_owned() })
    }
}

// ── output parsing ──────────────────────────────────────────────────

/// The non-empty trimmed lines of a command's output.
pub open spec fn spec_output_names(s: Seq<char>) -> Seq<Seq<char>> {
    crate::strutil::spec_split_lines(s).map_values(|l: Seq<char>| spec_trim(l)).filter(
        |l: Seq<char>| l.len() > 0,
    )
}

/// Parses a one-name-per-line listing: names are trimmed and blank lines
/// dropped; an absent directory gives an empty listing.
pub fn parse_name_list(output: &str) -> (r: Vec<String>)
    ensures
        r@.map_values(|t: String| t@) == spec_output_names(output@),
{
    let lines = crate::strutil::split_lines(output);
    let ghost trimmed = lines@.map_values(|l: String| l@).map_values(|l: Seq<char>| spec_trim(l));
    let mut out: Vec<String> = Vec::new();
    let mut i: usize = 0;
    while i < lines.len()
        invariant
            0 <= i <= lines@.len(),
            trimmed == lines@.map_values(|l: String| l@).map_values(
                |l: Seq<char>| spec_trim(l),
            ),
            out@.map_values(|t: String| t@) == trimmed.take(i as int).filter(
                |l: Seq<char>| l.len() > 0,
            ),
        decreases lines@.len() - i,
    {
        let t = trim(lines[i].as_str());
        proof {
            reveal(Seq::filter);
            assert(trimmed.take(i + 1).drop_last() =~= trimmed.take(i as int));
            assert(trimmed.take(i + 1).last() == trimmed[i as int]);
            assert(trimmed[i as int] == t@);
        }
        if t.as_str().unicode_len() > 0 {
            out.push(t);
        }
        i += 1;
    }
    proof {
        assert(trimmed.take(trimmed.len() as int) =~= trimmed);
    }
    out
}

/// One remote tool's detected state.
#[derive(Debug)]
pub struct RemoteToolState {
    pub key: String,
    pub label: String,
    pub installed: bool,
}

impl Clone for RemoteToolState {
    /// A clone is equal to the original.
    fn clone(&self) -> (r: Self)
        ensures
            r == *self,
    {
        RemoteToolState {
            key: self.key.clone(),
            label: self.label.clone(),
            installed: self.installed,
        }
    }
}

/// The parse of one detection line against the registry: the named
/// tool's key, its label, and whether the marker directory existed.
pub open spec fn spec_detect_line(
    line: Seq<char>,
    adapters: Seq<ToolAdapter>,
) -> Option<(Seq<char>, Seq<char>, bool)> {
    let l = spec_trim(line);
    if spec_starts_with(l, "EXISTS:"@) {
        match spec_find_adapter(adapters, l.skip(7)) {
            Some(a) => Some((a.key@, a.label@, true)),
            None => None,
        }
    } else if spec_starts_with(l, "MISSING:"@) {
        match spec_find_adapter(adapters, l.skip(8)) {
            Some(a) => Some((a.key@, a.label@, false)),
            None => None,
        }
    } else {
        None
    }
}

/// The parse of a whole detection output, line by line, in order.
pub open spec fn spec_detect_parse(
    lines: Seq<Seq<char>>,
    adapters: Seq<ToolAdapter>,
) -> Seq<(Seq<char>, Seq<char>, bool)>
    decreases lines.len(),
{
    if lines.len() == 0 {
        Seq::empty()
    } else {
        (match spec_detect_line(lines[0], adapters) {
            Some(t) => seq![t],
            None => Seq::empty(),
        }) + spec_detect_parse(lines.drop_first(), adapters)
    }
}

/// Parses one line of the batched detection output against the registry.
fn parse_detect_line(line: &String, adapters: &Vec<ToolAdapter>) -> (r: Option<RemoteToolState>)
    ensures
        match r {
            Some(st) => spec_detect_line(line@, adapters@) == Some((st.key@, st.label@,
            st.installed)),
            None => spec_detect_line(line@, adapters@) is None,
        },
{
    let t = trim(line.as_str());
    match strip_prefix(t.as_str(), "EXISTS:") {
        Some(key) => {
            proof {
                reveal_strlit("EXISTS:");
                assert(t@.skip(7) =~= key@);
            }
            match find_adapter(adapters, key.as_str()) {
                Some(ai) => Some(
                    RemoteToolState {
                        key: adapters[ai].key.clone(),
                        label: adapters[ai].label.clone(),
                        installed: true,
                    },
                ),
                None => None,
            }
        },
        None => {
            match strip_prefix(t.as_str(), "MISSING:") {
                Some(key) => {
                    proof {
                        reveal_strlit("MISSING:");
                        reveal_strlit("EXISTS:");
                        assert(t@.skip(8) =~= key@);
                    }
                    match find_adapter(adapters, key.as_str()) {
                        Some(ai) => Some(
                            RemoteToolState {
                                key: adapters[ai].key.clone(),
                                label: adapters[ai].label.clone(),
                                installed: false,
                            },
                        ),
                        None => None,
                    }
                },
                None => {
                    proof {
                        reveal_strlit("MISSING:");
                        reveal_strlit("EXISTS:");
                    }
                    None
                },
            }
        },
    }
}

/// Parses the batched detection output: each recognized line yields the
/// named tool's key and label and whether it is installed remotely.
pub fn parse_detect_output(output: &str, adapters: &Vec<ToolAdapter>) -> (r: Vec<RemoteToolState>)
    ensures
        r@.map_values(|t: RemoteToolState| (t.key@, t.label@, t.installed)) == spec_detect_parse(
            crate::strutil::spec_split_lines(output@),
            adapters@,
        ),
{
    let lines = crate::strutil::split_lines(output);
    let ghost lviews = lines@.map_values(|l: String| l@);
    let mut out: Vec<RemoteToolState> = Vec::new();
    let mut i: usize = 0;
    proof {
        assert(lviews.skip(0) =~= lviews);
    }
    while i < lines.len()
        invariant
            0 <= i <= lines@.len(),
            lviews == lines@.map_values(|l: String| l@),
            out@.map_values(|t: RemoteToolState| (t.key@, t.label@, t.installed))
                + spec_detect_parse(lviews.skip(i as int), adapters@) == spec_detect_parse(
                lviews,
                adapters@,
            ),
        decreases lines@.len() - i,
    {
        proof {
            assert(lviews.skip(i as int).drop_first() =~= lviews.skip(i + 1));
            assert(lviews.skip(i as int)[0] == lviews[i as int]);
        }
        let parsed = parse_detect_line(&lines[i], adapters);
        let ghost out_before = out@.map_values(|t: RemoteToolState| (t.key@, t.label@,
        t.installed));
        match parsed {
            Some(state) => {
                out.push(state);
                proof {
                    assert(out@.map_values(|t: RemoteToolState| (t.key@, t.label@, t.installed))
                        =~= out_before.push(
                        (out@.last().key@, out@.last().label@, out@.last().installed),
                    ));
                    assert(out@.map_values(|t: RemoteToolState| (t.key@, t.label@, t.installed))
                        + spec_detect_parse(lviews.skip(i + 1), adapters@) =~= spec_detect_parse(
                        lviews,
                        adapters@,
                    ));
                }
            },
            None => {},
        }
        i += 1;
    }
    proof {
        assert(lviews.skip(lviews.len() as int) =~= Seq::<Seq<char>>::empty());
        assert(out@.map_values(|t: RemoteToolState| (t.key@, t.label@, t.installed))
            + spec_detect_parse(Seq::<Seq<char>>::empty(), adapters@) =~= out@.map_values(
            |t: RemoteToolState| (t.key@, t.label@, t.installed),
        ));
    }
    out
}


// ── remote filesystem operations ────────────────────────────────────

/// Models `mkdir -p` on the remote filesystem: an absent path becomes an
/// empty directory (fingerprint 0); an existing entry is left alone, so
/// the operation is idempotent.
pub fn apply_remote_mkdir_p(rfs: &mut FsModel, path: &String)
    ensures
        final(rfs)@ == if old(rfs)@.contains_key(path@) {
            old(rfs)@
        } else {
            old(rfs)@.insert(path@, FsNode::Dir { content: 0 })
        },
{
    if !rfs.contains(path.as_str()) {
        rfs.set(path.clone(), FsNode::Dir { content: 0 });
    }
}

/// Models `rm -rf` on the remote filesystem: whatever stands at the path
/// is gone afterwards; removing an absent path succeeds.
pub fn apply_remote_rm_rf(rfs: &mut FsModel, path: &String)
    ensures
        final(rfs)@ == old(rfs)@.remove(path@),
{
    rfs.remove(path.as_str());
}

/// Models the recursive SFTP upload of a local directory into a remote
/// staging path: the staged entry afterwards carries the local source's
/// fingerprint; a missing local source fails before anything is created.
pub fn apply_upload_dir(
    rfs: &mut FsModel,
    local: &FsModel,
    source: &String,
    staging: &String,
) -> (r: Result<(), SkillError>)
    ensures
        match r {
            Ok(()) => local@.contains_key(source@) && final(rfs)@ == old(rfs)@.insert(
                staging@,
                FsNode::Dir { content: crate::engine::spec_dir_content(local@, source@) },
            ),
            Err(e) => !local@.contains_key(source@) && (e matches SkillError::SourceUnavailable {
                detail,
            } && detail@ == source@) && final(rfs)@ == old(rfs)@,
        },
{
    match local.get(source.as_str()) {
        None => Err(SkillError::SourceUnavailable { detail: source.clone() }),
        Some(node) => {
            let content = match node {
                FsNode::Dir { content } => *content,
                FsNode::File { content } => *content,
                FsNode::Symlink { .. } => 0,
                FsNode::Junction { .. } => 0,
            };
            rfs.set(staging.clone(), FsNode::Dir { content });
            Ok(())
        },
    }
}

/// Whether `dest` is a symbolic link to `staged`.
pub open spec fn link_state(m: Map<Seq<char>, FsNode>, dest: Seq<char>, staged: Seq<char>) -> bool {
    m.contains_key(dest) && m[dest] is Symlink && is_link_to(m[dest], staged)
}

/// Models the remote force-link (`ln -sfn`): afterwards exactly one link
/// stands at the destination, pointing at the staged source, whatever
/// stood there before; with the link already in place nothing changes, so
/// re-syncing the same (skill, destination) is idempotent and the second
/// invocation reports no error.
pub fn apply_remote_symlink(rfs: &mut FsModel, staged: &String, dest: &String)
    ensures
        link_state(final(rfs)@, dest@, staged@),
        final(rfs)@ == if link_state(old(rfs)@, dest@, staged@) {
            old(rfs)@
        } else {
            old(rfs)@.insert(dest@, final(rfs)@[dest@])
        },
{
    let already = match rfs.get(dest.as_str()) {
        Some(node) => match node {
            FsNode::Symlink { target } => str_eq(target.as_str(), staged.as_str()),
            _ => false,
        },
        None => false,
    };
    if !already {
        rfs.set(dest.clone(), FsNode::Symlink { target: staged.clone() });
    }
}

/// Writing one link node is idempotent at the model level: inserting the
/// same node at the same destination twice leaves the filesystem exactly
/// as one insertion does — which is why the remote force-link may be
/// re-run freely for the same staged source and destination.
pub proof fn lemma_force_link_idempotent(
    m: Map<Seq<char>, FsNode>,
    dest: Seq<char>,
    node: FsNode,
)
    ensures
        m.insert(dest, node).insert(dest, node) == m.insert(dest, node),
{
    assert(m.insert(dest, node).insert(dest, node) =~= m.insert(dest, node));
}

// ── remote per-skill sync ───────────────────────────────────────────

/// Syncs one skill to one tool on the remote host: the skill is uploaded
/// to the remote central staging path, then force-linked into the tool's
/// skills directory.
pub fn sync_skill_to_remote_tool(
    rfs: &mut FsModel,
    local: &FsModel,
    adapters: &Vec<ToolAdapter>,
    home: &String,
    skill_name: &String,
    local_skill_path: &String,
    tool_key: &String,
) -> (r: Result<(), SkillError>)
    ensures
        match r {
            Ok(()) => match spec_find_adapter(adapters@, tool_key@) {
                Some(ad) => {
                    let central = home@ + "/.skillshub/"@ + skill_name@;
                    let dest = home@ + "/"@ + ad.skills_dir@ + "/"@ + skill_name@;
                    &&& local@.contains_key(local_skill_path@)
                    &&& link_state(final(rfs)@, dest, central)
                    &&& dest != central ==> final(rfs)@.contains_key(central)
                        && final(rfs)@[central] == (FsNode::Dir {
                        content: crate::engine::spec_dir_content(local@, local_skill_path@),
                    })
                    &&& forall|p: Seq<char>|
                        p != central && p != dest ==> (#[trigger] final(rfs)@.contains_key(p)
                            == old(rfs)@.contains_key(p) && (final(rfs)@.contains_key(p)
                            ==> final(rfs)@[p] == old(rfs)@[p]))
                },
                None => false,
            },
            Err(e) => match e {
                SkillError::NotFound { what } => what@ == tool_key@ && spec_find_adapter(
                    adapters@,
                    tool_key@,
                ) is None && final(rfs)@ == old(rfs)@,
                SkillError::SourceUnavailable { .. } => spec_find_adapter(
                    adapters@,
                    tool_key@,
                ) is Some && !local@.contains_key(local_skill_path@) && final(rfs)@ == old(rfs)@,
                _ => false,
            },
        },
{
    let ai = match find_adapter(adapters, tool_key.as_str()) {
        Some(i) => i,
        None => {
            return Err(SkillError::NotFound { what: tool_key.clone() });
        },
    };
    let central = central_path_for(home.as_str(), skill_name.as_str());
    match apply_upload_dir(rfs, local, local_skill_path, &central) {
        Ok(()) => {},
        Err(e) => {
            return Err(e);
        },
    }
    let dest = tool_skill_path(home.as_str(), adapters[ai].skills_dir.as_str(), skill_name.as_str());
    apply_remote_symlink(rfs, &central, &dest);
    Ok(())
}

// ── remote batch sync ───────────────────────────────────────────────

/// The staging path of one skill, abstractly.
pub open spec fn central_of(home: Seq<char>, name: Seq<char>) -> Seq<char> {
    home + "/.skillshub/"@ + name
}

/// One skill's destination inside one tool's remote skills directory,
/// abstractly.
pub open spec fn tool_path_of(home: Seq<char>, dir: Seq<char>, name: Seq<char>) -> Seq<char> {
    home + "/"@ + dir + "/"@ + name
}

/// Appending to a common prefix is cancellable, so distinct names stage
/// at distinct central paths.
pub proof fn lemma_append_cancel(a: Seq<char>, b: Seq<char>, c: Seq<char>)
    requires
        a + b == a + c,
    ensures
        b == c,
{
    assert(b =~= (a + b).skip(a.len() as int));
    assert(c =~= (a + c).skip(a.len() as int));
}

/// The names of the batch items that synced: their local source exists
/// and their transfer went through.
pub open spec fn spec_synced_names(
    items: Seq<(String, String)>,
    ok: Seq<bool>,
    local: Map<Seq<char>, FsNode>,
) -> Seq<Seq<char>>
    decreases items.len(),
{
    if items.len() == 0 {
        Seq::empty()
    } else {
        (if local.contains_key(items[0].1@) && ok[0] {
            seq![items[0].0@]
        } else {
            Seq::empty()
        }) + spec_synced_names(items.drop_first(), ok.drop_first(), local)
    }
}

/// The names of the batch items that failed: their local source exists
/// but the transfer did not go through. A missing local source is a skip,
/// not a failure.
pub open spec fn spec_failed_names(
    items: Seq<(String, String)>,
    ok: Seq<bool>,
    local: Map<Seq<char>, FsNode>,
) -> Seq<Seq<char>>
    decreases items.len(),
{
    if items.len() == 0 {
        Seq::empty()
    } else {
        (if local.contains_key(items[0].1@) && !ok[0] {
            seq![items[0].0@]
        } else {
            Seq::empty()
        }) + spec_failed_names(items.drop_first(), ok.drop_first(), local)
    }
}

/// A found adapter occurs in the registry.
pub proof fn lemma_find_adapter_exists(s: Seq<ToolAdapter>, key: Seq<char>, a: ToolAdapter)
    requires
        spec_find_adapter(s, key) == Some(a),
    ensures
        exists|ix: int| 0 <= ix < s.len() && s[ix] == a,
    decreases s.len(),
{
    if s.len() > 0 {
        if s[0].key@ == key {
            assert(s[0] == a);
        } else {
            lemma_find_adapter_exists(s.drop_first(), key, a);
            let ix = choose|ix: int| 0 <= ix < s.drop_first().len() && s.drop_first()[ix] == a;
            assert(s[ix + 1] == a);
        }
    }
}

/// Whether batch item `i` is synced and is the last synced occurrence of
/// its name before `upto`, and no tool destination of any batch skill
/// collides with its staging path — the conditions under which its staged
/// copy survives the whole batch.
pub open spec fn batch_item_settles(
    skills: Seq<(String, String)>,
    ok: Seq<bool>,
    local: Map<Seq<char>, FsNode>,
    adapters: Seq<ToolAdapter>,
    home: Seq<char>,
    i: int,
    upto: int,
) -> bool {
    &&& 0 <= i < upto
    &&& i < skills.len()
    &&& local.contains_key(skills[i].1@)
    &&& ok[i]
    &&& forall|j: int|
        i < j < upto ==> !(local.contains_key((#[trigger] skills[j]).1@) && ok[j]
            && skills[j].0@ == skills[i].0@)
    &&& forall|j: int, k: int|
        0 <= j < skills.len() && 0 <= k < adapters.len() ==> tool_path_of(
            home,
            (#[trigger] adapters[k]).skills_dir@,
            (#[trigger] skills[j]).0@,
        ) != central_of(home, skills[i].0@)
}

/// Whether `dest` stays a link written for `name` through a whole batch:
/// no batch skill stages at `dest`, and every tool destination of a batch
/// skill that equals `dest` belongs to the same name (so any rewrite
/// targets the same staged copy).
pub open spec fn batch_link_clear(
    skills: Seq<(String, String)>,
    adapters: Seq<ToolAdapter>,
    home: Seq<char>,
    dest: Seq<char>,
    name: Seq<char>,
) -> bool {
    &&& forall|j: int|
        0 <= j < skills.len() ==> central_of(home, (#[trigger] skills[j]).0@) != dest
    &&& forall|j: int, k: int|
        0 <= j < skills.len() && 0 <= k < adapters.len() && tool_path_of(
            home,
            (#[trigger] adapters[k]).skills_dir@,
            (#[trigger] skills[j]).0@,
        ) == dest ==> skills[j].0@ == name
}

/// Whether the link of batch item `i` for requested key `k` is claimed:
/// the item settles, the key names a known adapter, and its destination
/// is clear of batch collisions.
pub open spec fn batch_link_applies(
    skills: Seq<(String, String)>,
    ok: Seq<bool>,
    local: Map<Seq<char>, FsNode>,
    adapters: Seq<ToolAdapter>,
    home: Seq<char>,
    tool_keys: Seq<String>,
    i: int,
    k: int,
    upto: int,
) -> bool {
    &&& batch_item_settles(skills, ok, local, adapters, home, i, upto)
    &&& 0 <= k < tool_keys.len()
    &&& match spec_find_adapter(adapters, tool_keys[k]@) {
        Some(ad) => batch_link_clear(
            skills,
            adapters,
            home,
            tool_path_of(home, ad.skills_dir@, skills[i].0@),
            skills[i].0@,
        ),
        None => false,
    }
}

/// Force-links one staged skill into every requested tool's skills
/// directory. Every written destination points at the same staged copy,
/// so later keys never undo earlier ones; everything else is untouched.
fn link_skill_for_keys(
    rfs: &mut FsModel,
    tool_keys: &Vec<String>,
    adapters: &Vec<ToolAdapter>,
    home: &String,
    name: &String,
    central: &String,
)
    requires
        central@ == central_of(home@, name@),
    ensures
        forall|k: int|
            0 <= k < tool_keys@.len() ==> match spec_find_adapter(
                adapters@,
                (#[trigger] tool_keys@[k])@,
            ) {
                Some(ad) => link_state(
                    final(rfs)@,
                    tool_path_of(home@, ad.skills_dir@, name@),
                    central@,
                ),
                None => true,
            },
        forall|p: Seq<char>|
            !(exists|k: int|
                0 <= k < tool_keys@.len() && (match spec_find_adapter(
                    adapters@,
                    (#[trigger] tool_keys@[k])@,
                ) {
                    Some(ad) => p == tool_path_of(home@, ad.skills_dir@, name@),
                    None => false,
                })) ==> #[trigger] final(rfs)@.contains_key(p) == old(rfs)@.contains_key(p) && (
            final(rfs)@.contains_key(p) ==> final(rfs)@[p] == old(rfs)@[p]),
        forall|p: Seq<char>|
            #[trigger] final(rfs)@.contains_key(p) && (!old(rfs)@.contains_key(p) || final(rfs)@[p] != old(rfs)@[p]) ==> link_state(final(rfs)@, p, central@),
        forall|p: Seq<char>| old(rfs)@.contains_key(p) ==> #[trigger] final(rfs)@.contains_key(p),
{
    let mut k: usize = 0;
    while k < tool_keys.len()
        invariant
            central@ == central_of(home@, name@),
            0 <= k <= tool_keys@.len(),
            forall|k2: int|
                0 <= k2 < k ==> match spec_find_adapter(
                    adapters@,
                    (#[trigger] tool_keys@[k2])@,
                ) {
                    Some(ad) => link_state(
                        rfs@,
                        tool_path_of(home@, ad.skills_dir@, name@),
                        central@,
                    ),
                    None => true,
                },
            forall|p: Seq<char>|
                !(exists|k2: int|
                    0 <= k2 < k && (match spec_find_adapter(
                        adapters@,
                        (#[trigger] tool_keys@[k2])@,
                    ) {
                        Some(ad) => p == tool_path_of(home@, ad.skills_dir@, name@),
                        None => false,
                    })) ==> #[trigger] rfs@.contains_key(p) == old(rfs)@.contains_key(p) && (
                rfs@.contains_key(p) ==> rfs@[p] == old(rfs)@[p]),
            forall|p: Seq<char>|
                #[trigger] rfs@.contains_key(p) && (!old(rfs)@.contains_key(p) || rfs@[p] != old(rfs)@[p]) ==> link_state(rfs@, p, central@),
            forall|p: Seq<char>| old(rfs)@.contains_key(p) ==> #[trigger] rfs@.contains_key(p),
        decreases tool_keys@.len() - k,
    {
        match find_adapter(adapters, tool_keys[k].as_str()) {
            Some(ai) => {
                let dest = tool_skill_path(
                    home.as_str(),
                    adapters[ai].skills_dir.as_str(),
                    name.as_str(),
                );
                let ghost pre = rfs@;
                apply_remote_symlink(rfs, central, &dest);
                proof {
                    assert(dest@ == tool_path_of(
                        home@,
                        adapters@[ai as int].skills_dir@,
                        name@,
                    ));
                    // Earlier links either sit elsewhere or were rewritten
                    // with the very same target.
                    assert forall|k2: int|
                        0 <= k2 < k + 1 implies match spec_find_adapter(
                        adapters@,
                        (#[trigger] tool_keys@[k2])@,
                    ) {
                        Some(ad) => link_state(
                            rfs@,
                            tool_path_of(home@, ad.skills_dir@, name@),
                            central@,
                        ),
                        None => true,
                    } by {
                        match spec_find_adapter(adapters@, tool_keys@[k2]@) {
                            Some(ad) => {
                                let d2 = tool_path_of(home@, ad.skills_dir@, name@);
                                if k2 < k && d2 != dest@ {
                                    assert(link_state(pre, d2, central@));
                                }
                            },
                            None => {},
                        }
                    }
                }
            },
            None => {},
        }
        k += 1;
    }
}

/// Syncs a batch of skills to the remote host: each (name, local central
/// path) pair is uploaded to the remote staging area and force-linked for
/// every requested tool. A skill whose local source directory is missing
/// is skipped without aborting the batch; per-skill transfer failures
/// (`transfer_ok`, what the network decided) are collected rather than
/// propagated; only a batch in which every attempted skill failed is an
/// error. The returned list is exactly the synced subset, in order.
#[verifier::rlimit(100)]
pub fn sync_all_skills_to_remote(
    rfs: &mut FsModel,
    local: &FsModel,
    skills: &Vec<(String, String)>,
    transfer_ok: &Vec<bool>,
    tool_keys: &Vec<String>,
    adapters: &Vec<ToolAdapter>,
    home: &String,
) -> (r: Result<Vec<String>, SkillError>)
    requires
        transfer_ok@.len() == skills@.len(),
    ensures
        match r {
            Ok(synced) => {
                &&& synced@.map_values(|t: String| t@) == spec_synced_names(
                    skills@,
                    transfer_ok@,
                    local@,
                )
                &&& !(spec_failed_names(skills@, transfer_ok@, local@).len() > 0
                    && spec_synced_names(skills@, transfer_ok@, local@).len() == 0)
            },
            Err(e) => {
                &&& e matches SkillError::AllBatchItemsFailed { .. }
                &&& spec_failed_names(skills@, transfer_ok@, local@).len() > 0
                &&& spec_synced_names(skills@, transfer_ok@, local@).len() == 0
            },
        },
        // Only staging paths and tool destinations of batch skills are
        // touched.
        forall|p: Seq<char>|
            !(exists|i: int|
                0 <= i < skills@.len() && p == home@ + "/.skillshub/"@ + (
                #[trigger] skills@[i]).0@) && !(exists|i: int, k: int|
                0 <= i < skills@.len() && 0 <= k < adapters@.len() && p == home@ + "/"@ + (
                #[trigger] adapters@[k]).skills_dir@ + "/"@ + (#[trigger] skills@[i]).0@) ==> (
            #[trigger] final(rfs)@.contains_key(p) == old(rfs)@.contains_key(p)
                && (final(rfs)@.contains_key(p) ==> final(rfs)@[p] == old(rfs)@[p])),
        // Every synced skill is uploaded: its staging path carries the
        // local source's fingerprint, for the last synced occurrence of
        // each name, staging paths clear of tool-destination collisions.
        forall|i: int|
            #[trigger] batch_item_settles(
                skills@,
                transfer_ok@,
                local@,
                adapters@,
                home@,
                i,
                skills@.len() as int,
            ) ==> final(rfs)@.contains_key(central_of(home@, skills@[i].0@))
                && final(rfs)@[central_of(home@, skills@[i].0@)] == (FsNode::Dir {
                content: crate::engine::spec_dir_content(local@, skills@[i].1@),
            }),
        // ... and linked: each requested key naming a known adapter holds
        // a symlink from the tool's skills directory to the staged copy,
        // wherever the destination is clear of batch collisions.
        forall|i: int, k: int|
            #[trigger] batch_link_applies(
                skills@,
                transfer_ok@,
                local@,
                adapters@,
                home@,
                tool_keys@,
                i,
                k,
                skills@.len() as int,
            ) ==> match spec_find_adapter(adapters@, tool_keys@[k]@) {
                Some(ad) => link_state(
                    final(rfs)@,
                    tool_path_of(home@, ad.skills_dir@, skills@[i].0@),
                    central_of(home@, skills@[i].0@),
                ),
                None => true,
            },
{
    let ghost all_synced = spec_synced_names(skills@, transfer_ok@, local@);
    let ghost all_failed = spec_failed_names(skills@, transfer_ok@, local@);
    let mut synced: Vec<String> = Vec::new();
    let mut failed: Vec<String> = Vec::new();
    let mut i: usize = 0;
    proof {
        assert(skills@.skip(0) =~= skills@);
        assert(transfer_ok@.skip(0) =~= transfer_ok@);
    }
    while i < skills.len()
        invariant
            transfer_ok@.len() == skills@.len(),
            0 <= i <= skills@.len(),
            all_synced == spec_synced_names(skills@, transfer_ok@, local@),
            all_failed == spec_failed_names(skills@, transfer_ok@, local@),
            synced@.map_values(|t: String| t@) + spec_synced_names(
                skills@.skip(i as int),
                transfer_ok@.skip(i as int),
                local@,
            ) == all_synced,
            failed@.map_values(|t: String| t@) + spec_failed_names(
                skills@.skip(i as int),
                transfer_ok@.skip(i as int),
                local@,
            ) == all_failed,
            forall|p: Seq<char>|
                !(exists|j: int|
                    0 <= j < i && p == home@ + "/.skillshub/"@ + (#[trigger] skills@[j]).0@) && !(
                exists|j: int, k: int|
                    0 <= j < i && 0 <= k < adapters@.len() && p == home@ + "/"@ + (
                    #[trigger] adapters@[k]).skills_dir@ + "/"@ + (#[trigger] skills@[j]).0@)
                    ==> (#[trigger] rfs@.contains_key(p) == old(rfs)@.contains_key(p) && (
                rfs@.contains_key(p) ==> rfs@[p] == old(rfs)@[p])),
            forall|i2: int|
                #[trigger] batch_item_settles(
                    skills@,
                    transfer_ok@,
                    local@,
                    adapters@,
                    home@,
                    i2,
                    i as int,
                ) ==> rfs@.contains_key(central_of(home@, skills@[i2].0@))
                    && rfs@[central_of(home@, skills@[i2].0@)] == (FsNode::Dir {
                    content: crate::engine::spec_dir_content(local@, skills@[i2].1@),
                }),
            forall|i2: int, k2: int|
                #[trigger] batch_link_applies(
                    skills@,
                    transfer_ok@,
                    local@,
                    adapters@,
                    home@,
                    tool_keys@,
                    i2,
                    k2,
                    i as int,
                ) ==> match spec_find_adapter(adapters@, tool_keys@[k2]@) {
                    Some(ad) => link_state(
                        rfs@,
                        tool_path_of(home@, ad.skills_dir@, skills@[i2].0@),
                        central_of(home@, skills@[i2].0@),
                    ),
                    None => true,
                },
        decreases skills@.len() - i,
    {
        proof {
            assert(skills@.skip(i as int).drop_first() =~= skills@.skip(i + 1));
            assert(transfer_ok@.skip(i as int).drop_first() =~= transfer_ok@.skip(i + 1));
            assert(skills@.skip(i as int)[0] == skills@[i as int]);
            assert(transfer_ok@.skip(i as int)[0] == transfer_ok@[i as int]);
        }
        let name = skills[i].0.clone();
        let path = skills[i].1.clone();
        if !local.contains(path.as_str()) {
            // The local source is missing: skip this skill, sync the rest.
            proof {
                assert forall|i2: int|
                    batch_item_settles(
                        skills@,
                        transfer_ok@,
                        local@,
                        adapters@,
                        home@,
                        i2,
                        i + 1,
                    ) implies rfs@.contains_key(central_of(home@, skills@[i2].0@))
                    && rfs@[central_of(home@, skills@[i2].0@)] == (FsNode::Dir {
                    content: crate::engine::spec_dir_content(local@, skills@[i2].1@),
                }) by {
                    assert(batch_item_settles(
                        skills@,
                        transfer_ok@,
                        local@,
                        adapters@,
                        home@,
                        i2,
                        i as int,
                    ));
                }
                assert forall|i2: int, k2: int| #[trigger]
                    batch_link_applies(
                        skills@,
                        transfer_ok@,
                        local@,
                        adapters@,
                        home@,
                        tool_keys@,
                        i2,
                        k2,
                        i + 1,
                    ) implies match spec_find_adapter(adapters@, tool_keys@[k2]@) {
                    Some(ad) => link_state(
                        rfs@,
                        tool_path_of(home@, ad.skills_dir@, skills@[i2].0@),
                        central_of(home@, skills@[i2].0@),
                    ),
                    None => true,
                } by {
                    assert(batch_link_applies(
                        skills@,
                        transfer_ok@,
                        local@,
                        adapters@,
                        home@,
                        tool_keys@,
                        i2,
                        k2,
                        i as int,
                    ));
                }
            }
            i += 1;
            continue;
        }
        if !transfer_ok[i] {
            failed.push(name);
            proof {
                assert(failed@.map_values(|t: String| t@) =~= failed@.map_values(
                    |t: String| t@,
                ).drop_last().push(failed@.last()@));
                assert forall|i2: int|
                    batch_item_settles(
                        skills@,
                        transfer_ok@,
                        local@,
                        adapters@,
                        home@,
                        i2,
                        i + 1,
                    ) implies rfs@.contains_key(central_of(home@, skills@[i2].0@))
                    && rfs@[central_of(home@, skills@[i2].0@)] == (FsNode::Dir {
                    content: crate::engine::spec_dir_content(local@, skills@[i2].1@),
                }) by {
                    assert(batch_item_settles(
                        skills@,
                        transfer_ok@,
                        local@,
                        adapters@,
                        home@,
                        i2,
                        i as int,
                    ));
                }
                assert forall|i2: int, k2: int| #[trigger]
                    batch_link_applies(
                        skills@,
                        transfer_ok@,
                        local@,
                        adapters@,
                        home@,
                        tool_keys@,
                        i2,
                        k2,
                        i + 1,
                    ) implies match spec_find_adapter(adapters@, tool_keys@[k2]@) {
                    Some(ad) => link_state(
                        rfs@,
                        tool_path_of(home@, ad.skills_dir@, skills@[i2].0@),
                        central_of(home@, skills@[i2].0@),
                    ),
                    None => true,
                } by {
                    assert(batch_link_applies(
                        skills@,
                        transfer_ok@,
                        local@,
                        adapters@,
                        home@,
                        tool_keys@,
                        i2,
                        k2,
                        i as int,
                    ));
                }
            }
            i += 1;
            continue;
        }
        let central = central_path_for(home.as_str(), name.as_str());
        let ghost rfs_pre = rfs@;
        match apply_upload_dir(rfs, local, &path, &central) {
            Ok(()) => {},
            Err(_) => {
                proof {
                    assert(false);
                }
            },
        }
        proof {
            // The fresh staging entry is in place, and every earlier
            // settled staging entry survives: a settled skill's name
            // differs from this one's, so its staging path does too.
            assert forall|i2: int|
                batch_item_settles(skills@, transfer_ok@, local@, adapters@, home@, i2, i + 1)
                implies rfs@.contains_key(central_of(home@, skills@[i2].0@))
                && rfs@[central_of(home@, skills@[i2].0@)] == (FsNode::Dir {
                content: crate::engine::spec_dir_content(local@, skills@[i2].1@),
            }) by {
                if i2 == i as int {
                } else {
                    assert(i2 < i as int);
                    assert(batch_item_settles(
                        skills@,
                        transfer_ok@,
                        local@,
                        adapters@,
                        home@,
                        i2,
                        i as int,
                    ));
                    if central_of(home@, skills@[i2].0@) == central_of(home@, skills@[i as int].0@) {
                        lemma_append_cancel(
                            home@ + "/.skillshub/"@,
                            skills@[i2].0@,
                            skills@[i as int].0@,
                        );
                        assert(false);
                    }
                    assert(rfs_pre.contains_key(central_of(home@, skills@[i2].0@)));
                }
            }
            // Earlier settled links sit away from the fresh staging entry.
            assert forall|i2: int, k2: int| #[trigger]
                batch_link_applies(
                    skills@,
                    transfer_ok@,
                    local@,
                    adapters@,
                    home@,
                    tool_keys@,
                    i2,
                    k2,
                    i as int,
                ) implies match spec_find_adapter(adapters@, tool_keys@[k2]@) {
                Some(ad) => link_state(
                    rfs@,
                    tool_path_of(home@, ad.skills_dir@, skills@[i2].0@),
                    central_of(home@, skills@[i2].0@),
                ),
                None => true,
            } by {
                match spec_find_adapter(adapters@, tool_keys@[k2]@) {
                    Some(ad) => {
                        let d2 = tool_path_of(home@, ad.skills_dir@, skills@[i2].0@);
                        assert(central_of(home@, skills@[i as int].0@) != d2);
                        assert(link_state(rfs_pre, d2, central_of(home@, skills@[i2].0@)));
                    },
                    None => {},
                }
            }
        }
        let ghost rfs_mid = rfs@;
        link_skill_for_keys(rfs, tool_keys, adapters, home, &name, &central);
        proof {
            let ghost name_i = skills@[i as int].0@;
            // The staged copies survive the linking: no tool destination of
            // a settled skill collides with its staging path.
            assert forall|i2: int|
                batch_item_settles(skills@, transfer_ok@, local@, adapters@, home@, i2, i + 1)
                implies rfs@.contains_key(central_of(home@, skills@[i2].0@))
                && rfs@[central_of(home@, skills@[i2].0@)] == (FsNode::Dir {
                content: crate::engine::spec_dir_content(local@, skills@[i2].1@),
            }) by {
                let c2 = central_of(home@, skills@[i2].0@);
                if exists|k3: int|
                    0 <= k3 < tool_keys@.len() && (match spec_find_adapter(
                        adapters@,
                        (#[trigger] tool_keys@[k3])@,
                    ) {
                        Some(ad3) => c2 == tool_path_of(home@, ad3.skills_dir@, name@),
                        None => false,
                    }) {
                    let k3 = choose|k3: int|
                        0 <= k3 < tool_keys@.len() && (match spec_find_adapter(
                            adapters@,
                            (#[trigger] tool_keys@[k3])@,
                        ) {
                            Some(ad3) => c2 == tool_path_of(home@, ad3.skills_dir@, name@),
                            None => false,
                        });
                    match spec_find_adapter(adapters@, tool_keys@[k3]@) {
                        Some(ad3) => {
                            lemma_find_adapter_exists(adapters@, tool_keys@[k3]@, ad3);
                            let ix3 = choose|ix3: int|
                                0 <= ix3 < adapters@.len() && adapters@[ix3] == ad3;
                            assert(tool_path_of(
                                home@,
                                adapters@[ix3].skills_dir@,
                                skills@[i as int].0@,
                            ) != c2);
                            assert(false);
                        },
                        None => {},
                    }
                }
                assert(rfs_mid.contains_key(c2));
            }
            // Settled links: the fresh skill's links were just written;
            // earlier ones were either untouched or rewritten for the same
            // name, hence with the same staged target.
            assert forall|i2: int, k2: int| #[trigger]
                batch_link_applies(
                    skills@,
                    transfer_ok@,
                    local@,
                    adapters@,
                    home@,
                    tool_keys@,
                    i2,
                    k2,
                    i + 1,
                ) implies match spec_find_adapter(adapters@, tool_keys@[k2]@) {
                Some(ad) => link_state(
                    rfs@,
                    tool_path_of(home@, ad.skills_dir@, skills@[i2].0@),
                    central_of(home@, skills@[i2].0@),
                ),
                None => true,
            } by {
                match spec_find_adapter(adapters@, tool_keys@[k2]@) {
                    Some(ad) => {
                        let d2 = tool_path_of(home@, ad.skills_dir@, skills@[i2].0@);
                        let c2 = central_of(home@, skills@[i2].0@);
                        if i2 == i as int {
                            assert(link_state(rfs@, tool_path_of(home@, ad.skills_dir@, name@),
                                central@));
                        } else {
                            assert(i2 < i as int);
                            assert(batch_link_applies(
                                skills@,
                                transfer_ok@,
                                local@,
                                adapters@,
                                home@,
                                tool_keys@,
                                i2,
                                k2,
                                i as int,
                            ));
                            assert(link_state(rfs_mid, d2, c2));
                            assert(rfs@.contains_key(d2));
                            if rfs_mid.contains_key(d2) && rfs@[d2] == rfs_mid[d2] {
                            } else {
                                assert(link_state(rfs@, d2, central@));
                                if !(exists|k3: int|
                                    0 <= k3 < tool_keys@.len() && (match spec_find_adapter(
                                        adapters@,
                                        (#[trigger] tool_keys@[k3])@,
                                    ) {
                                        Some(ad3) => d2 == tool_path_of(
                                            home@,
                                            ad3.skills_dir@,
                                            name@,
                                        ),
                                        None => false,
                                    })) {
                                    assert(rfs@.contains_key(d2) == rfs_mid.contains_key(d2)
                                        && (rfs@.contains_key(d2) ==> rfs@[d2] == rfs_mid[d2]));
                                    assert(false);
                                }
                                let k3 = choose|k3: int|
                                    0 <= k3 < tool_keys@.len() && (match spec_find_adapter(
                                        adapters@,
                                        (#[trigger] tool_keys@[k3])@,
                                    ) {
                                        Some(ad3) => d2 == tool_path_of(
                                            home@,
                                            ad3.skills_dir@,
                                            name@,
                                        ),
                                        None => false,
                                    });
                                match spec_find_adapter(adapters@, tool_keys@[k3]@) {
                                    Some(ad3) => {
                                        lemma_find_adapter_exists(
                                            adapters@,
                                            tool_keys@[k3]@,
                                            ad3,
                                        );
                                        let ix3 = choose|ix3: int|
                                            0 <= ix3 < adapters@.len() && adapters@[ix3] == ad3;
                                        assert(tool_path_of(
                                            home@,
                                            adapters@[ix3].skills_dir@,
                                            skills@[i as int].0@,
                                        ) == d2);
                                        assert(skills@[i as int].0@ == skills@[i2].0@);
                                        assert(central@ == c2);
                                    },
                                    None => {
                                        assert(false);
                                    },
                                }
                            }
                        }
                    },
                    None => {},
                }
            }
            // Nothing outside the batch's staging and tool paths moved.
            assert forall|p: Seq<char>|
                !(exists|j: int|
                    0 <= j < i + 1 && p == home@ + "/.skillshub/"@ + (#[trigger] skills@[j]).0@)
                    && !(exists|j: int, k2: int|
                    0 <= j < i + 1 && 0 <= k2 < adapters@.len() && p == home@ + "/"@ + (
                    #[trigger] adapters@[k2]).skills_dir@ + "/"@ + (#[trigger] skills@[j]).0@)
                    implies (rfs@.contains_key(p) == old(rfs)@.contains_key(p) && (
                rfs@.contains_key(p) ==> rfs@[p] == old(rfs)@[p])) by {
                assert(rfs_pre.contains_key(p) == old(rfs)@.contains_key(p) && (
                rfs_pre.contains_key(p) ==> rfs_pre[p] == old(rfs)@[p]));
                assert(p != central_of(home@, skills@[i as int].0@));
                assert(rfs_mid.contains_key(p) == rfs_pre.contains_key(p) && (
                rfs_mid.contains_key(p) ==> rfs_mid[p] == rfs_pre[p]));
                if exists|k3: int|
                    0 <= k3 < tool_keys@.len() && (match spec_find_adapter(
                        adapters@,
                        (#[trigger] tool_keys@[k3])@,
                    ) {
                        Some(ad3) => p == tool_path_of(home@, ad3.skills_dir@, name@),
                        None => false,
                    }) {
                    let k3 = choose|k3: int|
                        0 <= k3 < tool_keys@.len() && (match spec_find_adapter(
                            adapters@,
                            (#[trigger] tool_keys@[k3])@,
                        ) {
                            Some(ad3) => p == tool_path_of(home@, ad3.skills_dir@, name@),
                            None => false,
                        });
                    match spec_find_adapter(adapters@, tool_keys@[k3]@) {
                        Some(ad3) => {
                            lemma_find_adapter_exists(adapters@, tool_keys@[k3]@, ad3);
                            let ix3 = choose|ix3: int|
                                0 <= ix3 < adapters@.len() && adapters@[ix3] == ad3;
                            assert(p == home@ + "/"@ + adapters@[ix3].skills_dir@ + "/"@
                                + skills@[i as int].0@);
                            assert(false);
                        },
                        None => {},
                    }
                }
                assert(rfs@.contains_key(p) == rfs_mid.contains_key(p) && (
                rfs@.contains_key(p) ==> rfs@[p] == rfs_mid[p]));
            }
        }
        synced.push(name);
        proof {
            assert(synced@.map_values(|t: String| t@) =~= synced@.map_values(
                |t: String| t@,
            ).drop_last().push(synced@.last()@));
        }
        i += 1;
    }
    proof {
        assert(skills@.skip(skills@.len() as int) =~= Seq::<(String, String)>::empty());
        assert(transfer_ok@.skip(skills@.len() as int) =~= Seq::<bool>::empty());
        assert(synced@.map_values(|t: String| t@) + Seq::<Seq<char>>::empty() =~= synced@.map_values(
            |t: String| t@,
        ));
        assert(failed@.map_values(|t: String| t@) + Seq::<Seq<char>>::empty() =~= failed@.map_values(
            |t: String| t@,
        ));
    }
    if failed.len() > 0 && synced.len() == 0 {
        return Err(SkillError::AllBatchItemsFailed { failures: failed });
    }
    Ok(synced)
}

/// The (name, central path) pairs of the skills whose ids were selected.
pub fn filter_skills_by_ids(
    skills: &Vec<crate::store::ManagedSkillRecord>,
    ids: &Vec<String>,
) -> (r: Vec<(String, String)>)
    ensures
        r@.map_values(|p: (String, String)| (p.0@, p.1@)) == skills@.filter(
            |sk: crate::store::ManagedSkillRecord| spec_contains_string(ids@, sk.id@),
        ).map_values(|sk: crate::store::ManagedSkillRecord| (sk.name@, sk.central_path@)),
{
    let mut out: Vec<(String, String)> = Vec::new();
    let mut i: usize = 0;
    while i < skills.len()
        invariant
            0 <= i <= skills@.len(),
            out@.map_values(|p: (String, String)| (p.0@, p.1@)) == skills@.take(i as int).filter(
                |sk: crate::store::ManagedSkillRecord| spec_contains_string(ids@, sk.id@),
            ).map_values(|sk: crate::store::ManagedSkillRecord| (sk.name@, sk.central_path@)),
        decreases skills@.len() - i,
    {
        proof {
            reveal(Seq::filter);
            assert(skills@.take(i + 1).drop_last() =~= skills@.take(i as int));
            assert(skills@.take(i + 1).last() == skills@[i as int]);
        }
        let ghost pre = out@;
        if contains_string(ids, skills[i].id.as_str()) {
            out.push((skills[i].name.clone(), skills[i].central_path.clone()));
            proof {
                assert(out@.map_values(|p: (String, String)| (p.0@, p.1@)) =~= pre.map_values(
                    |p: (String, String)| (p.0@, p.1@),
                ).push((skills@[i as int].name@, skills@[i as int].central_path@)));
                assert(skills@.take(i + 1).filter(
                    |sk: crate::store::ManagedSkillRecord| spec_contains_string(ids@, sk.id@),
                ).map_values(
                    |sk: crate::store::ManagedSkillRecord| (sk.name@, sk.central_path@),
                ) =~= skills@.take(i as int).filter(
                    |sk: crate::store::ManagedSkillRecord| spec_contains_string(ids@, sk.id@),
                ).map_values(
                    |sk: crate::store::ManagedSkillRecord| (sk.name@, sk.central_path@),
                ).push((skills@[i as int].name@, skills@[i as int].central_path@)));
            }
        }
        i += 1;
    }
    proof {
        assert(skills@.take(skills@.len() as int) =~= skills@);
    }
    out
}

// ── remote host records and their state machine ─────────────────────

/// Validates and writes a new remote host profile; the port must be a
/// real TCP port.
pub fn add_remote_host(
    store: &mut SkillStore,
    id: String,
    label: String,
    host: String,
    port: i64,
    username: String,
    auth_method: crate::store::AuthMethod,
    key_path: Option<String>,
    now: i64,
) -> (r: Result<RemoteHostRecord, SkillError>)
    requires
        old(store).wf(),
        !old(store).has_host(id@),
    ensures
        final(store).wf(),
        final(store).skills@ == old(store).skills@,
        final(store).targets@ == old(store).targets@,
        final(store).custom_targets@ == old(store).custom_targets@,
        final(store).settings_view() == old(store).settings_view(),
        match r {
            Ok(rec) => {
                &&& 1 <= port <= 65535
                &&& rec.id == id
                &&& rec.label == label
                &&& rec.host == host
                &&& rec.port == port
                &&& rec.username == username
                &&& rec.auth_method == auth_method
                &&& rec.key_path == key_path
                &&& rec.created_at == now
                &&& rec.updated_at == now
                &&& rec.last_sync_at is None
                &&& rec.status == HostStatus::Idle
                &&& final(store).hosts@ == old(store).hosts@.push(rec)
            },
            Err(e) => {
                &&& !(1 <= port <= 65535)
                &&& e matches SkillError::InvalidInput { .. }
                &&& final(store).hosts@ == old(store).hosts@
            },
        },
{
    if !(1 <= port && port <= 65535) {
        return Err(
            SkillError::InvalidInput { detail: crate::strutil::concat2("port out of range for ", host.as_str()) },
        );
    }
    let rec = RemoteHostRecord {
        id,
        label,
        host,
        port,
        username,
        auth_method,
        key_path,
        created_at: now,
        updated_at: now,
        last_sync_at: None,
        status: HostStatus::Idle,
    };
    let out = rec.clone();
    store.upsert_remote_host(rec);
    Ok(out)
}

/// Rewrites an existing host's connection profile, keeping its creation
/// time, last sync time and status.
pub fn update_remote_host(
    store: &mut SkillStore,
    id: &String,
    label: String,
    host: String,
    port: i64,
    username: String,
    auth_method: crate::store::AuthMethod,
    key_path: Option<String>,
    now: i64,
) -> (r: Result<RemoteHostRecord, SkillError>)
    requires
        old(store).wf(),
    ensures
        final(store).wf(),
        final(store).skills@ == old(store).skills@,
        final(store).targets@ == old(store).targets@,
        final(store).custom_targets@ == old(store).custom_targets@,
        final(store).settings_view() == old(store).settings_view(),
        match r {
            Ok(rec) => {
                &&& 1 <= port <= 65535
                &&& rec.id@ == id@
                &&& rec.label == label
                &&& rec.host == host
                &&& rec.port == port
                &&& rec.username == username
                &&& rec.auth_method == auth_method
                &&& rec.key_path == key_path
                &&& rec.updated_at == now
                &&& exists|i: int|
                    0 <= i < old(store).hosts@.len() && (#[trigger] old(store).hosts@[i]).id@
                        == id@ && rec.created_at == old(store).hosts@[i].created_at
                        && rec.last_sync_at == old(store).hosts@[i].last_sync_at && rec.status
                        == old(store).hosts@[i].status && final(store).hosts@ == old(store).hosts@.update(i, rec)
            },
            Err(e) => {
                &&& final(store).hosts@ == old(store).hosts@
                &&& match e {
                    SkillError::InvalidInput { .. } => !(1 <= port <= 65535),
                    SkillError::NotFound { .. } => (1 <= port <= 65535) && !old(store).has_host(
                        id@,
                    ),
                    _ => false,
                }
            },
        },
{
    if !(1 <= port && port <= 65535) {
        return Err(
            SkillError::InvalidInput { detail: crate::strutil::concat2("port out of range for ", host.as_str()) },
        );
    }
    let hi = match store.host_index(id.as_str()) {
        Some(i) => i,
        None => {
            return Err(SkillError::NotFound { what: id.clone() });
        },
    };
    let existing = store.hosts[hi].clone();
    let rec = RemoteHostRecord {
        id: existing.id,
        label,
        host,
        port,
        username,
        auth_method,
        key_path,
        created_at: existing.created_at,
        updated_at: now,
        last_sync_at: existing.last_sync_at,
        status: existing.status,
    };
    let out = rec.clone();
    let ghost pre = *store;
    store.upsert_remote_host(rec);
    proof {
        let m = choose|m: int|
            0 <= m < pre.hosts@.len() && pre.hosts@[m].id@ == id@ && store.hosts@
                == pre.hosts@.update(m, out);
        assert(m == hi as int);
    }
    Ok(out)
}

/// Marks a host as syncing: the state a sync attempt begins in.
pub fn begin_remote_sync(store: &mut SkillStore, host_id: &String)
    requires
        old(store).wf(),
    ensures
        final(store).wf(),
        final(store).skills@ == old(store).skills@,
        final(store).targets@ == old(store).targets@,
        final(store).custom_targets@ == old(store).custom_targets@,
        final(store).settings_view() == old(store).settings_view(),
        if old(store).has_host(host_id@) {
            exists|i: int|
                0 <= i < old(store).hosts@.len() && (#[trigger] old(store).hosts@[i]).id@
                    == host_id@ && final(store).hosts@ == old(store).hosts@.update(
                    i,
                    RemoteHostRecord { status: HostStatus::Syncing, ..old(store).hosts@[i] },
                )
        } else {
            final(store).hosts@ == old(store).hosts@
        },
{
    store.update_remote_host_sync_status(host_id.as_str(), HostStatus::Syncing, None);
}

/// Settles a finished sync attempt: success records the sync time and
/// moves the host to its healthy state; failure records the error state
/// without touching the last sync time.
pub fn finish_remote_sync(store: &mut SkillStore, host_id: &String, ok: bool, now: i64)
    requires
        old(store).wf(),
    ensures
        final(store).wf(),
        final(store).skills@ == old(store).skills@,
        final(store).targets@ == old(store).targets@,
        final(store).custom_targets@ == old(store).custom_targets@,
        final(store).settings_view() == old(store).settings_view(),
        if old(store).has_host(host_id@) {
            exists|i: int|
                0 <= i < old(store).hosts@.len() && (#[trigger] old(store).hosts@[i]).id@
                    == host_id@ && final(store).hosts@ == old(store).hosts@.update(
                    i,
                    RemoteHostRecord {
                        status: if ok {
                            HostStatus::SyncOk
                        } else {
                            HostStatus::SyncError
                        },
                        last_sync_at: if ok {
                            Some(now)
                        } else {
                            old(store).hosts@[i].last_sync_at
                        },
                        ..old(store).hosts@[i]
                    },
                )
        } else {
            final(store).hosts@ == old(store).hosts@
        },
{
    if ok {
        store.update_remote_host_sync_status(host_id.as_str(), HostStatus::SyncOk, Some(now));
    } else {
        store.update_remote_host_sync_status(host_id.as_str(), HostStatus::SyncError, None);
    }
}

/// Records that a passive skill listing succeeded: it resets a prior
/// error to the healthy state and otherwise drives nothing — the status
/// machine is driven by sync attempts, never by listing.
pub fn note_remote_list_success(store: &mut SkillStore, host_id: &String)
    requires
        old(store).wf(),
    ensures
        final(store).wf(),
        final(store).skills@ == old(store).skills@,
        final(store).targets@ == old(store).targets@,
        final(store).custom_targets@ == old(store).custom_targets@,
        final(store).settings_view() == old(store).settings_view(),
        if exists|i: int|
            0 <= i < old(store).hosts@.len() && (#[trigger] old(store).hosts@[i]).id@ == host_id@
                && old(store).hosts@[i].status == HostStatus::SyncError {
            exists|i: int|
                0 <= i < old(store).hosts@.len() && (#[trigger] old(store).hosts@[i]).id@
                    == host_id@ && old(store).hosts@[i].status == HostStatus::SyncError
                    && final(store).hosts@ == old(store).hosts@.update(
                    i,
                    RemoteHostRecord { status: HostStatus::SyncOk, ..old(store).hosts@[i] },
                )
        } else {
            final(store).hosts@ == old(store).hosts@
        },
{
    match store.host_index(host_id.as_str()) {
        Some(i) => {
            if store.hosts[i].status == HostStatus::SyncError {
                store.update_remote_host_sync_status(host_id.as_str(), HostStatus::SyncOk, None);
            }
        },
        None => {},
    }
}


// ── upload planning ─────────────────────────────────────────────────

/// One entry of a walked local directory tree, relative to its root.
#[derive(Debug)]
pub struct WalkEntry {
    pub rel_path: String,
    pub is_dir: bool,
}

/// One step of a recursive upload: ensure a remote directory, or put one
/// file at a remote path from a relative local one.
#[derive(Debug)]
pub enum UploadAction {
    EnsureDir { path: String },
    PutFile { path: String, rel_path: String },
}

/// The view of one upload action: directory flag, remote path, relative
/// source.
pub open spec fn action_view(a: UploadAction) -> (bool, Seq<char>, Seq<char>) {
    match a {
        UploadAction::EnsureDir { path } => (true, path@, Seq::empty()),
        UploadAction::PutFile { path, rel_path } => (false, path@, rel_path@),
    }
}

/// Whether a relative path has a version-control metadata component.
pub open spec fn has_git_component(s: Seq<char>) -> bool {
    spec_split(s, '/').contains(".git"@)
}

pub fn path_has_git_component(s: &str) -> (r: bool)
    ensures
        r == has_git_component(s@),
{
    let parts = split_on(s, '/');
    let r = contains_string(&parts, ".git");
    proof {
        let views = parts@.map_values(|t: String| t@);
        if spec_contains_string(parts@, ".git"@) {
            let i = choose|i: int| 0 <= i < parts@.len() && parts@[i]@ == ".git"@;
            assert(views[i] == ".git"@);
        }
        if views.contains(".git"@) {
            let i = choose|i: int| 0 <= i < views.len() && views[i] == ".git"@;
            assert(parts@[i]@ == ".git"@);
        }
    }
    r
}

/// The planned actions for the walked entries: empty and version-control
/// entries are skipped, directories become remote directories, files are
/// put at the base joined with their relative path.
pub open spec fn spec_upload_actions(
    items: Seq<(Seq<char>, bool)>,
    base: Seq<char>,
) -> Seq<(bool, Seq<char>, Seq<char>)>
    decreases items.len(),
{
    if items.len() == 0 {
        Seq::empty()
    } else {
        let rel = items[0].0;
        (if rel.len() == 0 || has_git_component(rel) {
            Seq::empty()
        } else if items[0].1 {
            seq![(true, base + "/"@ + rel, Seq::<char>::empty())]
        } else {
            seq![(false, base + "/"@ + rel, rel)]
        }) + spec_upload_actions(items.drop_first(), base)
    }
}

/// Plans a recursive upload: first the base directory itself, then one
/// action per kept entry, in walk order.
pub fn upload_plan(entries: &Vec<WalkEntry>, remote_base: &String) -> (r: Vec<UploadAction>)
    ensures
        r@.len() >= 1,
        action_view(r@[0]) == (true, remote_base@, Seq::<char>::empty()),
        r@.map_values(|a: UploadAction| action_view(a)) == seq![
            (true, remote_base@, Seq::<char>::empty()),
        ] + spec_upload_actions(
            entries@.map_values(|e: WalkEntry| (e.rel_path@, e.is_dir)),
            remote_base@,
        ),
{
    let ghost items = entries@.map_values(|e: WalkEntry| (e.rel_path@, e.is_dir));
    let mut out: Vec<UploadAction> = Vec::new();
    out.push(UploadAction::EnsureDir { path: remote_base.clone() });
    let mut i: usize = 0;
    proof {
        assert(items.skip(0) =~= items);
        assert(out@.map_values(|a: UploadAction| action_view(a)) =~= seq![
            (true, remote_base@, Seq::<char>::empty()),
        ]);
    }
    while i < entries.len()
        invariant
            0 <= i <= entries@.len(),
            items == entries@.map_values(|e: WalkEntry| (e.rel_path@, e.is_dir)),
            out@.len() >= 1,
            action_view(out@[0]) == (true, remote_base@, Seq::<char>::empty()),
            out@.map_values(|a: UploadAction| action_view(a)) + spec_upload_actions(
                items.skip(i as int),
                remote_base@,
            ) == seq![(true, remote_base@, Seq::<char>::empty())] + spec_upload_actions(
                items,
                remote_base@,
            ),
        decreases entries@.len() - i,
    {
        proof {
            assert(items.skip(i as int).drop_first() =~= items.skip(i + 1));
            assert(items.skip(i as int)[0] == items[i as int]);
        }
        let e = &entries[i];
        let skip_entry = e.rel_path.as_str().unicode_len() == 0 || path_has_git_component(
            e.rel_path.as_str(),
        );
        if !skip_entry {
            let target = concat3(remote_base.as_str(), "/", e.rel_path.as_str());
            let ghost pre = out@;
            if e.is_dir {
                out.push(UploadAction::EnsureDir { path: target });
            } else {
                out.push(UploadAction::PutFile { path: target, rel_path: e.rel_path.clone() });
            }
            proof {
                assert(out@.map_values(|a: UploadAction| action_view(a)) =~= pre.map_values(
                    |a: UploadAction| action_view(a),
                ).push(action_view(out@.last())));
            }
        }
        i += 1;
    }
    proof {
        assert(items.skip(items.len() as int) =~= Seq::<(Seq<char>, bool)>::empty());
        assert(out@.map_values(|a: UploadAction| action_view(a)) + Seq::<(
            bool,
            Seq<char>,
            Seq<char>,
        )>::empty() =~= out@.map_values(|a: UploadAction| action_view(a)));
    }
    out
}

} // verus!
