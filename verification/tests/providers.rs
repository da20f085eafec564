use gh_actions_updater::cli::{ColorChoice, MissingRefPolicy, OutputFormat, PinStyle, UpdateMode};
use gh_actions_updater::config::{CacheTtl, Settings};
use gh_actions_updater::metadata::{BranchFetch, CommitFetch, TagFetch};
use gh_actions_updater::providers::{encode_branch, parse_ls_remote_head, GitHubRestProvider, TagProvider};

fn settings(api_url: &str, token: Option<&str>) -> Settings {
    Settings {
        paths: Vec::new(),
        include_globs: Vec::new(),
        exclude: Vec::new(),
        recursive: false,
        threads: None,
        cache_dir: "cache".to_string(),
        cache_ttl: CacheTtl::Seconds(3600),
        cache_enabled: true,
        refresh_cache: false,
        update: false,
        update_mode: UpdateMode::LatestTag,
        latest_hash: false,
        pin_style: PinStyle::Preserve,
        update_exclude: Vec::new(),
        missing_ref: MissingRefPolicy::Warn,
        include_prereleases: false,
        preserve_major: true,
        check: false,
        dry_run: true,
        diff: false,
        format: OutputFormat::Json,
        quiet: false,
        verbose: false,
        color: ColorChoice::Auto,
        github_token_present: token.is_some(),
        github_token: token.map(|t| t.to_string()),
        github_api_url: api_url.to_string(),
        strict_schema: false,
        schema_validation: false,
        validate: false,
        pin_floating_to_sha: false,
    }
}

#[test]
fn public_api_without_token_falls_back_to_git() {
    let p = GitHubRestProvider::new(&settings("https://api.github.com/", None));
    assert_eq!(p.api_url, "https://api.github.com");
    assert!(p.fallback.is_some());
}

#[test]
fn token_or_enterprise_api_disables_fallback() {
    let p = GitHubRestProvider::new(&settings("https://api.github.com", Some("t")));
    assert!(p.fallback.is_none());
    let q = GitHubRestProvider::new(&settings("https://ghe.example.com/api/v3//", None));
    assert_eq!(q.api_url, "https://ghe.example.com/api/v3");
    assert!(q.fallback.is_none());
}

#[test]
fn branch_names_are_path_encoded() {
    assert_eq!(encode_branch("release/v1/x"), "release%2Fv1%2Fx");
    assert_eq!(encode_branch("main"), "main");
}

#[test]
fn ls_remote_head_takes_first_word_of_first_line() {
    assert_eq!(parse_ls_remote_head("  abc123\trefs/heads/main\nother\n"), Some("abc123".to_string()));
    assert_eq!(parse_ls_remote_head(""), None);
    assert_eq!(parse_ls_remote_head("   \n"), None);
}

struct TagsOnly;

impl TagProvider for TagsOnly {
    fn fetch_tags(&self, _owner: &str, _repo: &str, _etag: Option<&str>) -> Result<TagFetch, String> {
        Err("offline".to_string())
    }
}

#[test]
fn optional_lookups_are_unsupported_by_default() {
    let p = TagsOnly;
    let b: Result<BranchFetch, String> = p.fetch_branch("o", "r", "main", None);
    let c: Result<CommitFetch, String> = p.fetch_commit("o", "r", "abc", None);
    assert_eq!(b.err().unwrap(), "branch metadata lookup is not supported by this provider");
    assert_eq!(c.err().unwrap(), "commit metadata lookup is not supported by this provider");
}
