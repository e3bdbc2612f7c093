use skills_hub::clawhub::{
    download_and_extract_clawhub_skill, download_url, filter_search_results, get_clawhub_skill,
    github_tree_entries, github_tree_url, search_url, skill_url, ClawHubSkill, GetSkillData,
    OwnerData, RawTreeEntry, SearchItem, SkillInfoData, StatsData, VersionData,
};
use skills_hub::errors::SkillError;
use skills_hub::ids::new_record_id;

fn s(x: &str) -> String {
    x.to_string()
}

#[test]
fn urls_percent_encode_their_parts() {
    // A query with a space must come back encoded: the encoder really ran.
    assert_eq!(
        search_url("https://clawhub.ai/", "gif grep", 20),
        "https://clawhub.ai/api/v1/search?q=gif%20grep&limit=20"
    );
    assert_eq!(
        search_url("https://clawhub.ai", "x", 0),
        "https://clawhub.ai/api/v1/search?q=x&limit=1"
    );
    assert_eq!(
        search_url("https://clawhub.ai", "x", 500),
        "https://clawhub.ai/api/v1/search?q=x&limit=50"
    );
    assert_eq!(
        skill_url("https://clawhub.ai", "a/b"),
        "https://clawhub.ai/api/v1/skills/a%2Fb"
    );
    assert_eq!(
        download_url("https://clawhub.ai", "demo", None),
        "https://clawhub.ai/api/v1/download?slug=demo"
    );
    assert_eq!(
        download_url("https://clawhub.ai", "demo", Some(&s("1.2.3"))),
        "https://clawhub.ai/api/v1/download?slug=demo&version=1.2.3"
    );
    assert_eq!(
        github_tree_url("owner", "repo", "main"),
        "https://api.github.com/repos/owner/repo/git/trees/main?recursive=1"
    );
}

#[test]
fn search_filters_out_null_slugs() {
    // Entries with null slugs are filtered out of search results.
    let items = vec![
        SearchItem {
            slug: Some("valid".to_string()),
            display_name: Some("Valid".to_string()),
            summary: None,
            version: None,
            updated_at: None,
        },
        SearchItem {
            slug: None,
            display_name: None,
            summary: None,
            version: None,
            updated_at: None,
        },
    ];

    let results: Vec<ClawHubSkill> = filter_search_results(items);

    assert_eq!(results.len(), 1);
    assert_eq!(results[0].slug, "valid");
    assert_eq!(results[0].display_name, "Valid");
}

#[test]
fn missing_display_names_become_empty() {
    let items = vec![SearchItem {
        slug: Some(s("bare")),
        display_name: None,
        summary: Some(s("sum")),
        version: Some(s("2.0.0")),
        updated_at: Some(1771746936907),
    }];
    let results = filter_search_results(items);
    assert_eq!(results[0].display_name, "");
    assert_eq!(results[0].summary.as_deref(), Some("sum"));
    assert_eq!(results[0].version.as_deref(), Some("2.0.0"));
    assert_eq!(results[0].updated_at, Some(1771746936907));
}

#[test]
fn skill_detail_assembles_from_the_lookup_answer() {
    let response = GetSkillData {
        skill: Some(SkillInfoData {
            slug: s("gifgrep"),
            display_name: s("GifGrep"),
            summary: Some(s("Search gifs")),
            tag_keys: Some(vec![s("media")]),
            stats: Some(StatsData {
                downloads: Some(10),
                stars: Some(2),
                installs_all_time: Some(8),
                installs_current: Some(4),
            }),
            created_at: Some(1000),
            updated_at: Some(2000),
        }),
        latest_version: Some(VersionData {
            version: s("1.2.3"),
            created_at: Some(3000),
            changelog: Some(s("Initial release")),
        }),
        owner: Some(OwnerData {
            handle: Some(s("steipete")),
            display_name: Some(s("Peter")),
            image: None,
        }),
    };
    let d = get_clawhub_skill(&s("gifgrep"), response).unwrap();
    assert_eq!(d.slug, "gifgrep");
    assert_eq!(d.display_name, "GifGrep");
    assert_eq!(d.version.as_deref(), Some("1.2.3"));
    assert_eq!(d.changelog.as_deref(), Some("Initial release"));
    assert_eq!(d.owner_handle.as_deref(), Some("steipete"));
    assert_eq!(d.github_url.as_deref(), Some("https://github.com/steipete/gifgrep"));
    assert_eq!(d.downloads, Some(10));
    assert_eq!(d.installs_current, Some(4));
    assert_eq!(d.created_at, Some(1000));
    assert_eq!(d.updated_at, Some(2000));

    let empty = GetSkillData { skill: None, latest_version: None, owner: None };
    assert!(matches!(
        get_clawhub_skill(&s("ghost"), empty),
        Err(SkillError::NotFound { .. })
    ));
}

#[test]
fn tree_entries_mark_directories() {
    let entries = github_tree_entries(vec![
        RawTreeEntry { path: s("src"), entry_type: s("tree") },
        RawTreeEntry { path: s("SKILL.md"), entry_type: s("blob") },
    ]);
    assert_eq!(entries.len(), 2);
    assert!(entries[0].is_dir);
    assert_eq!(entries[0].path, "src");
    assert!(!entries[1].is_dir);
}

fn build_archive() -> Vec<u8> {
    let cursor = std::io::Cursor::new(Vec::new());
    let mut writer = zip::ZipWriter::new(cursor);
    let options = zip::write::SimpleFileOptions::default();
    writer.add_directory("sub", options).unwrap();
    writer.start_file("SKILL.md", options).unwrap();
    std::io::Write::write_all(&mut writer, b"hello skill").unwrap();
    writer.start_file(".hidden", options).unwrap();
    std::io::Write::write_all(&mut writer, b"secret").unwrap();
    writer.start_file("__MACOSX/meta", options).unwrap();
    std::io::Write::write_all(&mut writer, b"meta").unwrap();
    writer.start_file("sub/data.txt", options).unwrap();
    std::io::Write::write_all(&mut writer, b"payload").unwrap();
    writer.finish().unwrap().into_inner()
}

#[test]
fn extraction_keeps_plain_entries_only() {
    let bytes = build_archive();
    let plan = download_and_extract_clawhub_skill(&s("demo"), &bytes, &s("/tmp/stage")).unwrap();
    assert_eq!(plan.extract_dir, "/tmp/stage/demo");
    let names: Vec<&str> = plan.files.iter().map(|f| f.name.as_str()).collect();
    assert_eq!(names, vec!["SKILL.md", "sub/data.txt"]);
    assert_eq!(plan.files[0].data, b"hello skill");
    assert_eq!(plan.files[1].data, b"payload");
    assert!(plan.files.iter().all(|f| !f.is_dir));
}

#[test]
fn unreadable_bytes_are_a_source_failure() {
    let garbage = vec![1u8, 2, 3, 4];
    assert!(matches!(
        download_and_extract_clawhub_skill(&s("demo"), &garbage, &s("/tmp")),
        Err(SkillError::SourceUnavailable { .. })
    ));
}

#[test]
fn fresh_identifiers_render_to_36_characters() {
    let a = new_record_id();
    let b = new_record_id();
    assert_eq!(a.len(), 36);
    assert_eq!(b.len(), 36);
    assert_ne!(a, b);
}
