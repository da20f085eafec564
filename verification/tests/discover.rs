use gh_actions_updater::config::default_includes;
use gh_actions_updater::discover::{
    build_globset, dedup_and_sort, explicit_file_wanted, has_glob_meta, is_candidate_file, is_ignored_by_parent,
    match_base, matches_glob_or_suffix, normalize, root_kind, scan_roots, walked_file_wanted, ParentVerdict, RootKind,
};

fn strings(v: &[&str]) -> Vec<String> {
    v.iter().map(|s| s.to_string()).collect()
}


#[test]
fn candidates_are_yaml_or_action_metadata() {
    assert!(is_candidate_file("a/b.yml"));
    assert!(is_candidate_file("a/b.yaml"));
    assert!(is_candidate_file("action.yml"));
    assert!(!is_candidate_file("a/b.json"));
    assert!(!is_candidate_file("a/.yml"));
    assert!(!is_candidate_file(""));
}

#[test]
fn normalize_drops_leading_dot_and_backslashes() {
    assert_eq!(normalize("./a/b.yml"), "a/b.yml");
    assert_eq!(normalize("a\\b.yml"), "a/b.yml");
    assert_eq!(normalize("a/b.yml"), "a/b.yml");
}

#[test]
fn glob_meta_detection() {
    assert!(has_glob_meta("a/*.yml"));
    assert!(has_glob_meta("a/?.yml"));
    assert!(has_glob_meta("a/[ab].yml"));
    assert!(!has_glob_meta("a/b.yml"));
}

#[test]
fn invalid_glob_is_named() {
    let err = build_globset(&strings(&["ok/*.yml", "bad[", "also[bad"])).err().unwrap();
    assert_eq!(err, "invalid glob bad[");
}

#[test]
fn suffix_matching_tries_each_tail() {
    let globs = build_globset(&strings(&["vendor/**"])).unwrap();
    assert!(matches_glob_or_suffix(&globs, "vendor/x.yml"));
    assert!(matches_glob_or_suffix(&globs, "deep/nested/vendor/x.yml"));
    assert!(!matches_glob_or_suffix(&globs, "deep/nested/x.yml"));
    let empty = build_globset(&Vec::new()).unwrap();
    assert!(!matches_glob_or_suffix(&empty, "anything.yml"));
}

#[test]
fn explicit_file_is_scanned_unless_excluded() {
    let exclude = build_globset(&strings(&["skip/**"])).unwrap();
    assert!(explicit_file_wanted("docs/example.yml", &exclude));
    assert!(!explicit_file_wanted("skip/x.yml", &exclude));
    assert!(!explicit_file_wanted("docs/readme.md", &exclude));
}

#[test]
fn walked_files_need_an_include_match() {
    let includes = build_globset(&default_includes()).unwrap();
    let exclude = build_globset(&Vec::new()).unwrap();
    assert!(walked_file_wanted("repo/.github/workflows/ci.yml", "repo", &includes, &exclude, false));
    assert!(!walked_file_wanted("repo/docs/x.yml", "repo", &includes, &exclude, false));
    assert!(!walked_file_wanted("repo/sub/action.yml", "repo", &includes, &exclude, false));
    assert!(walked_file_wanted("repo/sub/action.yml", "repo", &includes, &exclude, true));
    assert!(walked_file_wanted("repo/.github/actions/x/action.yml", "repo", &includes, &exclude, false));
    assert!(!walked_file_wanted("repo/nested/.github/workflows/ci.yml", "repo", &includes, &exclude, false));
    assert!(walked_file_wanted("repo/nested/.github/workflows/ci.yml", "repo", &includes, &exclude, true));
}

#[test]
fn walked_files_honor_excludes() {
    let includes = build_globset(&default_includes()).unwrap();
    let exclude = build_globset(&strings(&[".github/workflows/skip.yml"])).unwrap();
    assert!(!walked_file_wanted("repo/.github/workflows/skip.yml", "repo", &includes, &exclude, false));
    assert!(walked_file_wanted("repo/.github/workflows/keep.yml", "repo", &includes, &exclude, false));
}

#[test]
fn dot_github_root_matches_from_its_parent() {
    assert_eq!(match_base("repo/.github"), "repo");
    assert_eq!(match_base(".github"), "");
    assert_eq!(match_base("repo"), "repo");
}

#[test]
fn nearest_parent_verdict_decides() {
    assert!(!is_ignored_by_parent(true, &[ParentVerdict::Ignore { ignores_root: false }]));
    assert!(is_ignored_by_parent(false, &[ParentVerdict::Unmatched, ParentVerdict::Ignore { ignores_root: false }]));
    assert!(!is_ignored_by_parent(false, &[ParentVerdict::Whitelist, ParentVerdict::Ignore { ignores_root: false }]));
    assert!(!is_ignored_by_parent(false, &[ParentVerdict::Ignore { ignores_root: true }]));
    assert!(!is_ignored_by_parent(false, &[]));
}

#[test]
fn discovered_files_are_deduplicated_and_sorted() {
    let files = strings(&["b/x.yml", "a/y.yml", "./b/x.yml", "a/y.yml"]);
    assert_eq!(dedup_and_sort(files), strings(&["a/y.yml", "b/x.yml"]));
}

#[test]
fn roots_default_to_current_directory() {
    assert_eq!(scan_roots(&Vec::new()), strings(&["."]));
    assert_eq!(scan_roots(&strings(&["a", "b"])), strings(&["a", "b"]));
}

#[test]
fn root_kinds() {
    assert_eq!(root_kind("ci.yml", true, true), RootKind::File);
    assert_eq!(root_kind("*.yml", false, false), RootKind::Pattern);
    assert_eq!(root_kind("*.yml", false, true), RootKind::Walk);
    assert_eq!(root_kind("dir", false, true), RootKind::Walk);
}
