//! Verified path arithmetic over plain strings: joining, home-directory
//! expansion, absoluteness, and file-name extraction. Paths are modelled
//! as character strings; the platform home directory comes from a trusted
//! wrapper and is otherwise an ordinary argument.

use vstd::prelude::*;
use crate::errors::SkillError;
use crate::strutil::{
    concat3, spec_starts_with, spec_trim, spec_trim_end_slashes, str_eq, strip_prefix, trim,
    trim_end_slashes,
};

verus! {

/// `base` with trailing slashes trimmed, a single `'/'`, then `name`.
pub open spec fn spec_join_path(base: Seq<char>, name: Seq<char>) -> Seq<char> {
    spec_trim_end_slashes(base) + "/"@ + name
}

/// Joins a directory and an entry name with exactly one separator.
pub fn join_path(base: &str, name: &str) -> (r: String)
    ensures
        r@ == spec_join_path(base@, name@),
{
    let trimmed = trim_end_slashes(base);
    concat3(trimmed.as_str(), "/", name)
}

/// Whether a path is absolute: it starts with `'/'`.
pub open spec fn spec_is_absolute(s: Seq<char>) -> bool {
    s.len() > 0 && s[0] == '/'
}

pub fn is_absolute(s: &str) -> (r: bool)
    ensures
        r == spec_is_absolute(s@),
{
    s.unicode_len() > 0 && s.get_char(0) == '/'
}

/// The expansion of `input` against `home`: trimmed, with a leading `"~"`
/// or `"~/"` replaced by the home directory; `None` when nothing but
/// whitespace was given.
pub open spec fn spec_expand_home(input: Seq<char>, home: Seq<char>) -> Option<Seq<char>> {
    let t = spec_trim(input);
    if t.len() == 0 {
        None
    } else if t == "~"@ {
        Some(home)
    } else if spec_starts_with(t, "~/"@) {
        Some(home + t.skip(1))
    } else {
        Some(t)
    }
}

/// Expands a user-supplied storage path against the home directory.
pub fn expand_home_path(input: &str, home: &str) -> (r: Result<String, SkillError>)
    ensures
        match r {
            Ok(p) => spec_expand_home(input@, home@) == Some(p@),
            Err(e) => spec_expand_home(input@, home@) is None && e matches
                SkillError::InvalidInput { .. },
        },
{
    let t = trim(input);
    if t.as_str().unicode_len() == 0 {
        return Err(SkillError::InvalidInput { detail: t });
    }
    if str_eq(t.as_str(), "~") {
        return Ok(home.to_owned());
    }
    match strip_prefix(t.as_str(), "~/") {
        Some(rest) => {
            let joined = concat3(home, "/", rest.as_str());
            proof {
                reveal_strlit("~/");
                reveal_strlit("/");
                assert(t@.skip(1) =~= "/"@ + rest@);
                assert(joined@ =~= home@ + t@.skip(1));
            }
            Ok(joined)
        },
        None => Ok(t),
    }
}

/// The suffix of `s` after its last `'/'`; empty when `s` ends with a
/// slash or is empty.
pub open spec fn spec_file_name(s: Seq<char>) -> Seq<char>
    decreases s.len(),
{
    if s.len() == 0 || s[s.len() - 1] == '/' {
        Seq::empty()
    } else {
        spec_file_name(s.drop_last()) + seq![s[s.len() - 1]]
    }
}

/// A suffix of `s` free of slashes and preceded by one (or by nothing) is
/// exactly its file name.
proof fn lemma_file_name_suffix(s: Seq<char>, k: int)
    requires
        0 <= k <= s.len(),
        forall|j: int| k <= j < s.len() ==> s[j] != '/',
        k == 0 || s[k - 1] == '/',
    ensures
        spec_file_name(s) == s.skip(k),
    decreases s.len(),
{
    if s.len() == 0 {
        assert(s.skip(k) =~= Seq::<char>::empty());
    } else if s[s.len() - 1] == '/' {
        assert(k == s.len());
        assert(s.skip(k) =~= Seq::<char>::empty());
    } else {
        assert(k < s.len());
        lemma_file_name_suffix(s.drop_last(), k);
        assert(spec_file_name(s) =~= s.drop_last().skip(k) + seq![s[s.len() - 1]]);
        assert(s.skip(k) =~= s.drop_last().skip(k) + seq![s[s.len() - 1]]);
    }
}

/// The entry name a path ends in.
pub fn file_name_of(s: &str) -> (r: String)
    ensures
        r@ == spec_file_name(s@),
{
    let n = s.unicode_len();
    let mut k: usize = n;
    while k > 0
        invariant
            0 <= k <= n,
            n == s@.len(),
            forall|j: int| k <= j < n ==> s@[j] != '/',
        decreases k,
    {
        if s.get_char(k - 1) == '/' {
            let r = s.substring_char(k, n);
            proof {
                lemma_file_name_suffix(s@, k as int);
                assert(r@ =~= s@.skip(k as int));
            }
            return r.to_owned();
        }
        k -= 1;
    }
    let r = s.substring_char(0, n);
    proof {
        lemma_file_name_suffix(s@, 0);
        assert(r@ =~= s@.skip(0));
    }
    r.to_owned()
}

/// Relies on dirs::home_dir: the platform home directory, when the
/// environment defines one; nothing is promised of the value.
#[verifier::external_body]
pub fn home_dir_path() -> (r: Option<String>) {
    dirs::home_dir().map(|p| p.to_string_lossy().to_string())
}

} // verus!
