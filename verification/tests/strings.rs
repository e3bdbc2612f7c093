use skills_hub::paths::{expand_home_path, file_name_of, is_absolute, join_path};
use skills_hub::remote::resolve_key_path;
use skills_hub::strutil::{
    contains_string, i64_to_string, join_with, split_lines, split_on, starts_with, trim,
    trim_end_slashes, u64_to_string,
};

fn s(x: &str) -> String {
    x.to_string()
}

#[test]
fn trims_whitespace_and_slashes() {
    assert_eq!(trim("  hello \n"), "hello");
    assert_eq!(trim("\t"), "");
    assert_eq!(trim_end_slashes("/opt/skills///"), "/opt/skills");
    assert_eq!(trim_end_slashes("plain"), "plain");
}

#[test]
fn joins_paths_with_one_separator() {
    assert_eq!(join_path("/opt/skills/", "demo"), "/opt/skills/demo");
    assert_eq!(join_path("/opt/skills", "demo"), "/opt/skills/demo");
    assert_eq!(join_with(&vec![s("a"), s("b"), s("c")], " ; "), "a ; b ; c");
    assert_eq!(join_with(&vec![s("only")], " ; "), "only");
    assert_eq!(join_with(&Vec::new(), " ; "), "");
}

#[test]
fn splits_lines_and_fields() {
    let lines = split_lines("one\ntwo\n\nthree");
    assert_eq!(lines, vec![s("one"), s("two"), s(""), s("three")]);
    let parts = split_on("a/b//c", '/');
    assert_eq!(parts, vec![s("a"), s("b"), s(""), s("c")]);
}

#[test]
fn renders_decimals() {
    assert_eq!(u64_to_string(0), "0");
    assert_eq!(u64_to_string(42), "42");
    assert_eq!(u64_to_string(18446744073709551615), "18446744073709551615");
    assert_eq!(i64_to_string(9007), "9007");
}

#[test]
fn prefix_and_membership() {
    assert!(starts_with("EXISTS:alpha", "EXISTS:"));
    assert!(!starts_with("MISS", "MISSING:"));
    assert!(contains_string(&vec![s("id_rsa")], "id_rsa"));
    assert!(!contains_string(&vec![s("id_rsa")], "id_ed25519"));
}

#[test]
fn expands_home_paths() {
    let home = s("/home/u");
    assert_eq!(expand_home_path("~", &home).unwrap(), "/home/u");
    assert_eq!(expand_home_path("~/skills", &home).unwrap(), "/home/u/skills");
    assert_eq!(expand_home_path("  /abs/path ", &home).unwrap(), "/abs/path");
    assert!(expand_home_path("   ", &home).is_err());
    assert!(is_absolute("/abs"));
    assert!(!is_absolute("rel"));
}

#[test]
fn file_names() {
    assert_eq!(file_name_of("/a/b/skill"), "skill");
    assert_eq!(file_name_of("skill"), "skill");
    assert_eq!(file_name_of("/a/b/"), "");
}

#[test]
fn resolve_key_path_explicit() {
    // Should return the explicit path when provided
    let result = resolve_key_path(Some(&s("/tmp/my_key")), &s("/home/u"), &Vec::new());
    assert!(result.is_ok());
    assert_eq!(result.unwrap(), "/tmp/my_key");
}

#[test]
fn resolve_key_path_empty_falls_back() {
    // Empty string should fall back to default key search
    let result = resolve_key_path(Some(&s("")), &s("/home/u"), &vec![s("id_rsa")]);
    // Either finds a key or errors; both are valid behaviors
    assert!(result.is_ok() || result.is_err());
    assert_eq!(result.unwrap(), "/home/u/.ssh/id_rsa");
}

#[test]
fn resolve_key_path_none_falls_back() {
    let result = resolve_key_path(None, &s("/home/u"), &Vec::new());
    assert!(result.is_ok() || result.is_err());
    assert!(result.is_err());
}

#[test]
fn resolve_key_path_tilde_expansion() {
    let result = resolve_key_path(Some(&s("~/.ssh/id_rsa")), &s("/home/u"), &Vec::new());
    assert!(result.is_ok());
    let path = result.unwrap();
    assert!(!path.starts_with("~"), "tilde should be expanded");
    assert_eq!(path, "/home/u/.ssh/id_rsa");
}

#[test]
fn resolve_key_path_prefers_ed25519() {
    let avail = vec![s("id_rsa"), s("id_ed25519")];
    let result = resolve_key_path(None, &s("/home/u"), &avail).unwrap();
    assert_eq!(result, "/home/u/.ssh/id_ed25519");
}
