//! The registry client's logic: building its API URLs, filtering search
//! results, assembling a skill's detail view, and unpacking a downloaded
//! skill archive. The HTTP transfers themselves stay outside the library;
//! percent-encoding and archive decoding are outside-crate calls behind
//! trusted wrappers.

use vstd::prelude::*;
use crate::errors::SkillError;
use crate::paths::{join_path, spec_join_path};
use crate::strutil::{
    concat2, concat3, spec_decimal, spec_starts_with, spec_trim_end_slashes, starts_with,
    trim_end_slashes, u64_to_string,
};

verus! {

// ── percent-encoding ────────────────────────────────────────────────

/// What urlencoding::encode returns for a given input; a function of the
/// characters alone.
pub uninterp spec fn url_encoded(s: Seq<char>) -> Seq<char>;

/// Relies on urlencoding::encode: percent-encodes every byte except
/// alphanumerics and `-`, `_`, `.`, `~`, deterministically in the input.
#[verifier::external_body]
pub fn url_encode(s: &str) -> (r: String)
    ensures
        r@ == url_encoded(s@),
{
    urlencoding::encode(s).into_owned()
}

// ── archive decoding ────────────────────────────────────────────────

/// One entry of a decoded skill archive.
#[derive(Debug)]
pub struct ZipEntry {
    pub name: String,
    pub is_dir: bool,
    pub data: Vec<u8>,
}

/// The view of one archive entry: name, directory flag, contents.
pub open spec fn zip_entry_view(e: ZipEntry) -> (Seq<char>, bool, Seq<u8>) {
    (e.name@, e.is_dir, e.data@)
}

/// The entry list a byte string decodes to as a zip archive, or nothing
/// when the bytes are not a readable archive; a function of the bytes
/// alone.
pub uninterp spec fn zip_entries_of(bytes: Seq<u8>) -> Option<Seq<(Seq<char>, bool, Seq<u8>)>>;

/// Relies on zip::ZipArchive over an in-memory reader: decodes the
/// archive's entries in order, each with its name, directory flag and
/// decompressed contents.
#[verifier::external_body]
fn read_zip_archive(bytes: &Vec<u8>) -> (r: Result<Vec<ZipEntry>, SkillError>)
    ensures
        match r {
            Ok(entries) => zip_entries_of(bytes@) == Some(
                entries@.map_values(|e: ZipEntry| zip_entry_view(e)),
            ),
            Err(e) => zip_entries_of(bytes@) is None && e matches SkillError::SourceUnavailable {
                ..
            },
        },
{
    let oops = |d: String| SkillError::SourceUnavailable { detail: d };
    let mut archive =
        zip::ZipArchive::new(std::io::Cursor::new(bytes)).map_err(|e| oops(e.to_string()))?;
    let mut out = Vec::new();
    for i in 0..archive.len() {
        let mut f = archive.by_index(i).map_err(|e| oops(e.to_string()))?;
        let (name, is_dir) = (f.name().to_string(), f.is_dir());
        let mut data = Vec::new();
        std::io::Read::read_to_end(&mut f, &mut data).map_err(|e| oops(e.to_string()))?;
        out.push(ZipEntry { name, is_dir, data });
    }
    Ok(out)
}

// ── registry URLs ───────────────────────────────────────────────────

/// The search limit clamped to the range the registry accepts.
pub open spec fn spec_clamped_limit(limit: u64) -> u64 {
    if limit < 1 {
        1
    } else if limit > 50 {
        50
    } else {
        limit
    }
}

/// The registry search URL for a query and a result limit.
pub fn search_url(base_url: &str, query: &str, limit: u64) -> (r: String)
    ensures
        r@ == spec_trim_end_slashes(base_url@) + "/api/v1/search?q="@ + url_encoded(query@)
            + "&limit="@ + spec_decimal(spec_clamped_limit(limit) as nat),
{
    let base = trim_end_slashes(base_url);
    let clamped: u64 = if limit < 1 {
        1
    } else if limit > 50 {
        50
    } else {
        limit
    };
    let head = concat3(base.as_str(), "/api/v1/search?q=", url_encode(query).as_str());
    concat3(head.as_str(), "&limit=", u64_to_string(clamped).as_str())
}

/// The registry detail URL for one skill.
pub fn skill_url(base_url: &str, slug: &str) -> (r: String)
    ensures
        r@ == spec_trim_end_slashes(base_url@) + "/api/v1/skills/"@ + url_encoded(slug@),
{
    let base = trim_end_slashes(base_url);
    concat3(base.as_str(), "/api/v1/skills/", url_encode(slug).as_str())
}

/// The registry download URL for one skill, optionally pinned to a
/// version.
pub fn download_url(base_url: &str, slug: &str, version: Option<&String>) -> (r: String)
    ensures
        r@ == spec_trim_end_slashes(base_url@) + "/api/v1/download?slug="@ + url_encoded(slug@)
            + (match version {
            Some(v) => "&version="@ + url_encoded(v@),
            None => Seq::<char>::empty(),
        }),
{
    let base = trim_end_slashes(base_url);
    let head = concat3(base.as_str(), "/api/v1/download?slug=", url_encode(slug).as_str());
    match version {
        Some(v) => {
            let r = concat3(head.as_str(), "&version=", url_encode(v.as_str()).as_str());
            proof {
                assert(r@ =~= spec_trim_end_slashes(base_url@) + "/api/v1/download?slug="@
                    + url_encoded(slug@) + ("&version="@ + url_encoded(v@)));
            }
            r
        },
        None => {
            proof {
                assert(head@ =~= spec_trim_end_slashes(base_url@) + "/api/v1/download?slug="@
                    + url_encoded(slug@) + Seq::<char>::empty());
            }
            head
        },
    }
}

/// The tree listing URL of a repository branch.
pub fn github_tree_url(owner: &str, repo: &str, branch: &str) -> (r: String)
    ensures
        r@ == "https://api.github.com/repos/"@ + url_encoded(owner@) + "/"@ + url_encoded(repo@)
            + "/git/trees/"@ + branch@ + "?recursive=1"@,
{
    let a = concat3("https://api.github.com/repos/", url_encode(owner).as_str(), "/");
    let b = concat3(a.as_str(), url_encode(repo).as_str(), "/git/trees/");
    concat3(b.as_str(), branch, "?recursive=1")
}

// ── search results ──────────────────────────────────────────────────

/// One raw search result as the registry reports it; any field may be
/// missing.
#[derive(Debug)]
pub struct SearchItem {
    pub slug: Option<String>,
    pub display_name: Option<String>,
    pub summary: Option<String>,
    pub version: Option<String>,
    pub updated_at: Option<i64>,
}

/// One usable search result: an entry whose slug is present.
#[derive(Debug)]
pub struct ClawHubSkill {
    pub slug: String,
    pub display_name: String,
    pub summary: Option<String>,
    pub version: Option<String>,
    pub updated_at: Option<i64>,
}

/// The view of a usable search result.
pub open spec fn skill_view(s: ClawHubSkill) -> (
    Seq<char>,
    Seq<char>,
    Option<String>,
    Option<String>,
    Option<i64>,
) {
    (s.slug@, s.display_name@, s.summary, s.version, s.updated_at)
}

/// What a raw item becomes when kept: its slug, its display name (empty
/// when missing), and the passthrough fields.
pub open spec fn item_view(it: SearchItem) -> (
    Seq<char>,
    Seq<char>,
    Option<String>,
    Option<String>,
    Option<i64>,
) {
    (
        match it.slug {
            Some(s) => s@,
            None => Seq::empty(),
        },
        match it.display_name {
            Some(d) => d@,
            None => Seq::empty(),
        },
        it.summary,
        it.version,
        it.updated_at,
    )
}

/// Keeps the search results that name a skill: entries without a slug are
/// dropped, and a missing display name becomes empty.
pub fn filter_search_results(items: Vec<SearchItem>) -> (r: Vec<ClawHubSkill>)
    ensures
        r@.map_values(|s: ClawHubSkill| skill_view(s)) == items@.filter(
            |it: SearchItem| it.slug is Some,
        ).map_values(|it: SearchItem| item_view(it)),
{
    let mut out: Vec<ClawHubSkill> = Vec::new();
    let mut i: usize = 0;
    while i < items.len()
        invariant
            0 <= i <= items@.len(),
            out@.map_values(|s: ClawHubSkill| skill_view(s)) == items@.take(i as int).filter(
                |it: SearchItem| it.slug is Some,
            ).map_values(|it: SearchItem| item_view(it)),
        decreases items@.len() - i,
    {
        proof {
            reveal(Seq::filter);
            assert(items@.take(i + 1).drop_last() =~= items@.take(i as int));
            assert(items@.take(i + 1).last() == items@[i as int]);
        }
        let ghost pre = out@;
        let it = &items[i];
        match &it.slug {
            Some(slug) => {
                let display = match &it.display_name {
                    Some(d) => d.clone(),
                    None => String::new(),
                };
                out.push(
                    ClawHubSkill {
                        slug: slug.clone(),
                        display_name: display,
                        summary: crate::store::clone_opt_string(&it.summary),
                        version: crate::store::clone_opt_string(&it.version),
                        updated_at: it.updated_at,
                    },
                );
                proof {
                    assert(out@.map_values(|s: ClawHubSkill| skill_view(s)) =~= pre.map_values(
                        |s: ClawHubSkill| skill_view(s),
                    ).push(item_view(items@[i as int])));
                    assert(items@.take(i + 1).filter(|it2: SearchItem| it2.slug is Some).map_values(
                        |it2: SearchItem| item_view(it2),
                    ) =~= items@.take(i as int).filter(|it2: SearchItem| it2.slug is Some)
                        .map_values(|it2: SearchItem| item_view(it2)).push(
                        item_view(items@[i as int]),
                    ));
                }
            },
            None => {},
        }
        i += 1;
    }
    proof {
        assert(items@.take(items@.len() as int) =~= items@);
    }
    out
}

// ── skill detail ────────────────────────────────────────────────────

/// A skill's stat counters, as reported.
#[derive(Debug)]
pub struct StatsData {
    pub downloads: Option<u64>,
    pub stars: Option<u64>,
    pub installs_all_time: Option<u64>,
    pub installs_current: Option<u64>,
}

/// A skill's core record, as reported.
#[derive(Debug)]
pub struct SkillInfoData {
    pub slug: String,
    pub display_name: String,
    pub summary: Option<String>,
    pub tag_keys: Option<Vec<String>>,
    pub stats: Option<StatsData>,
    pub created_at: Option<i64>,
    pub updated_at: Option<i64>,
}

/// A published version, as reported.
#[derive(Debug)]
pub struct VersionData {
    pub version: String,
    pub created_at: Option<i64>,
    pub changelog: Option<String>,
}

/// A skill's owner, as reported.
#[derive(Debug)]
pub struct OwnerData {
    pub handle: Option<String>,
    pub display_name: Option<String>,
    pub image: Option<String>,
}

/// The registry's answer to a skill lookup.
#[derive(Debug)]
pub struct GetSkillData {
    pub skill: Option<SkillInfoData>,
    pub latest_version: Option<VersionData>,
    pub owner: Option<OwnerData>,
}

/// Everything the caller sees of one skill.
#[derive(Debug)]
pub struct ClawHubSkillDetail {
    pub slug: String,
    pub display_name: String,
    pub summary: Option<String>,
    pub version: Option<String>,
    pub changelog: Option<String>,
    pub owner_handle: Option<String>,
    pub owner_name: Option<String>,
    pub owner_image: Option<String>,
    pub github_url: Option<String>,
    pub downloads: Option<u64>,
    pub stars: Option<u64>,
    pub installs_current: Option<u64>,
    pub installs_all_time: Option<u64>,
    pub tags: Option<Vec<String>>,
    pub created_at: Option<i64>,
    pub updated_at: Option<i64>,
}

/// Assembles a skill's detail view from the registry's lookup answer: an
/// answer without a skill is "not found"; the repository link is derived
/// from the owner's handle and the slug.
pub fn get_clawhub_skill(slug: &String, response: GetSkillData) -> (r: Result<
    ClawHubSkillDetail,
    SkillError,
>)
    ensures
        match r {
            Ok(d) => match response.skill {
                Some(sk) => {
                    &&& d.slug == sk.slug
                    &&& d.display_name == sk.display_name
                    &&& d.summary == sk.summary
                    &&& d.version == (match response.latest_version {
                        Some(v) => Some(v.version),
                        None => None::<String>,
                    })
                    &&& d.changelog == (match response.latest_version {
                        Some(v) => v.changelog,
                        None => None::<String>,
                    })
                    &&& d.owner_handle == (match response.owner {
                        Some(o) => o.handle,
                        None => None::<String>,
                    })
                    &&& d.owner_name == (match response.owner {
                        Some(o) => o.display_name,
                        None => None::<String>,
                    })
                    &&& d.owner_image == (match response.owner {
                        Some(o) => o.image,
                        None => None::<String>,
                    })
                    &&& match response.owner {
                        Some(o) => match o.handle {
                            Some(h) => d.github_url is Some && d.github_url->0@
                                == "https://github.com/"@ + h@ + "/"@ + sk.slug@,
                            None => d.github_url is None,
                        },
                        None => d.github_url is None,
                    }
                    &&& d.downloads == (match sk.stats {
                        Some(st) => st.downloads,
                        None => None::<u64>,
                    })
                    &&& d.stars == (match sk.stats {
                        Some(st) => st.stars,
                        None => None::<u64>,
                    })
                    &&& d.installs_current == (match sk.stats {
                        Some(st) => st.installs_current,
                        None => None::<u64>,
                    })
                    &&& d.installs_all_time == (match sk.stats {
                        Some(st) => st.installs_all_time,
                        None => None::<u64>,
                    })
                    &&& d.tags == sk.tag_keys
                    &&& d.created_at == sk.created_at
                    &&& d.updated_at == sk.updated_at
                },
                None => false,
            },
            Err(e) => response.skill is None && (e matches SkillError::NotFound { what } && what@
                == slug@),
        },
{
    let sk = match response.skill {
        Some(sk) => sk,
        None => {
            return Err(SkillError::NotFound { what: slug.clone() });
        },
    };
    let (version, changelog) = match response.latest_version {
        Some(v) => (Some(v.version), v.changelog),
        None => (None, None),
    };
    let (owner_handle, owner_name, owner_image) = match response.owner {
        Some(o) => (o.handle, o.display_name, o.image),
        None => (None, None, None),
    };
    let github_url = match &owner_handle {
        Some(h) => {
            let head = concat3("https://github.com/", h.as_str(), "/");
            Some(concat2(head.as_str(), sk.slug.as_str()))
        },
        None => None,
    };
    let (downloads, stars, installs_current, installs_all_time) = match sk.stats {
        Some(st) => (st.downloads, st.stars, st.installs_current, st.installs_all_time),
        None => (None, None, None, None),
    };
    Ok(
        ClawHubSkillDetail {
            slug: sk.slug,
            display_name: sk.display_name,
            summary: sk.summary,
            version,
            changelog,
            owner_handle,
            owner_name,
            owner_image,
            github_url,
            downloads,
            stars,
            installs_current,
            installs_all_time,
            tags: sk.tag_keys,
            created_at: sk.created_at,
            updated_at: sk.updated_at,
        },
    )
}

// ── repository trees ────────────────────────────────────────────────

/// One entry of a repository tree listing, as reported: a path and an
/// entry kind.
#[derive(Debug)]
pub struct RawTreeEntry {
    pub path: String,
    pub entry_type: String,
}

/// One entry of a skill's file tree.
#[derive(Debug)]
pub struct SkillFileEntry {
    pub path: String,
    pub is_dir: bool,
}

/// Turns a raw tree listing into file entries: a `tree` entry is a
/// directory, everything else a file.
pub fn github_tree_entries(raw: Vec<RawTreeEntry>) -> (r: Vec<SkillFileEntry>)
    ensures
        r@.map_values(|e: SkillFileEntry| (e.path@, e.is_dir)) == raw@.map_values(
            |e: RawTreeEntry| (e.path@, e.entry_type@ == "tree"@),
        ),
{
    let mut out: Vec<SkillFileEntry> = Vec::new();
    let mut i: usize = 0;
    while i < raw.len()
        invariant
            0 <= i <= raw@.len(),
            out@.map_values(|e: SkillFileEntry| (e.path@, e.is_dir)) == raw@.take(
                i as int,
            ).map_values(|e: RawTreeEntry| (e.path@, e.entry_type@ == "tree"@)),
        decreases raw@.len() - i,
    {
        let ghost pre = out@;
        out.push(
            SkillFileEntry {
                path: raw[i].path.clone(),
                is_dir: crate::strutil::str_eq(raw[i].entry_type.as_str(), "tree"),
            },
        );
        proof {
            assert(raw@.take(i + 1).drop_last() =~= raw@.take(i as int));
            assert(out@.map_values(|e: SkillFileEntry| (e.path@, e.is_dir)) =~= pre.map_values(
                |e: SkillFileEntry| (e.path@, e.is_dir),
            ).push((raw@[i as int].path@, raw@[i as int].entry_type@ == "tree"@)));
            assert(raw@.take(i + 1).map_values(
                |e: RawTreeEntry| (e.path@, e.entry_type@ == "tree"@),
            ) =~= raw@.take(i as int).map_values(
                |e: RawTreeEntry| (e.path@, e.entry_type@ == "tree"@),
            ).push((raw@[i as int].path@, raw@[i as int].entry_type@ == "tree"@)));
        }
        i += 1;
    }
    proof {
        assert(raw@.take(raw@.len() as int) =~= raw@);
    }
    out
}

// ── download and extraction ─────────────────────────────────────────

/// Whether an archive entry is written out: directory placeholders,
/// platform metadata and hidden entries are skipped.
pub open spec fn keep_entry(t: (Seq<char>, bool, Seq<u8>)) -> bool {
    !t.1 && !spec_starts_with(t.0, "__MACOSX"@) && !spec_starts_with(t.0, "."@)
}

/// The extraction plan of a downloaded skill archive: where to extract,
/// and which entries to write there.
#[derive(Debug)]
pub struct ExtractPlan {
    pub extract_dir: String,
    pub files: Vec<ZipEntry>,
}

/// Decodes a downloaded skill archive and plans its extraction into a
/// subdirectory of `target_dir` named after the slug: every plain entry
/// is kept, while directory placeholders, platform metadata and hidden
/// entries are skipped. Writing the files out is the caller's part.
pub fn download_and_extract_clawhub_skill(
    slug: &String,
    bytes: &Vec<u8>,
    target_dir: &String,
) -> (r: Result<ExtractPlan, SkillError>)
    ensures
        match r {
            Ok(plan) => {
                &&& zip_entries_of(bytes@) is Some
                &&& plan.extract_dir@ == spec_join_path(target_dir@, slug@)
                &&& match zip_entries_of(bytes@) {
                    Some(entries) => plan.files@.map_values(|e: ZipEntry| zip_entry_view(e))
                        == entries.filter(|t: (Seq<char>, bool, Seq<u8>)| keep_entry(t)),
                    None => false,
                }
            },
            Err(e) => zip_entries_of(bytes@) is None && e matches SkillError::SourceUnavailable {
                ..
            },
        },
{
    let entries = match read_zip_archive(bytes) {
        Ok(v) => v,
        Err(e) => {
            return Err(e);
        },
    };
    let ghost named = entries@.map_values(|e: ZipEntry| zip_entry_view(e));
    let extract_dir = join_path(target_dir.as_str(), slug.as_str());
    let mut files: Vec<ZipEntry> = Vec::new();
    let mut i: usize = 0;
    while i < entries.len()
        invariant
            0 <= i <= entries@.len(),
            named == entries@.map_values(|e: ZipEntry| zip_entry_view(e)),
            files@.map_values(|e: ZipEntry| zip_entry_view(e)) == named.take(i as int).filter(
                |t: (Seq<char>, bool, Seq<u8>)| keep_entry(t),
            ),
        decreases entries@.len() - i,
    {
        proof {
            reveal(Seq::filter);
            assert(named.take(i + 1).drop_last() =~= named.take(i as int));
            assert(named.take(i + 1).last() == named[i as int]);
        }
        let ghost pre = files@;
        let e = &entries[i];
        let hidden = starts_with(e.name.as_str(), "__MACOSX") || starts_with(e.name.as_str(), ".");
        if !e.is_dir && !hidden {
            files.push(
                ZipEntry { name: e.name.clone(), is_dir: e.is_dir, data: e.data.clone() },
            );
            proof {
                assert(files@.map_values(|e2: ZipEntry| zip_entry_view(e2)) =~= pre.map_values(
                    |e2: ZipEntry| zip_entry_view(e2),
                ).push(named[i as int]));
            }
        }
        i += 1;
    }
    proof {
        assert(named.take(named.len() as int) =~= named);
    }
    Ok(ExtractPlan { extract_dir, files })
}


/// The durable source reference a registry install records in place of
/// its temporary download path.
pub fn clawhub_source_ref(slug: &str) -> (r: String)
    ensures
        r@ == "clawhub://"@ + slug@,
{
    concat2("clawhub://", slug)
}

} // verus!
