use gh_actions_updater::action_ref::{parse_uses, RefKind};
use gh_actions_updater::cache::{CacheLookup, CacheState, EntryRead};
use gh_actions_updater::cli::{ColorChoice, MissingRefPolicy, OutputFormat, PinStyle, UpdateMode};
use gh_actions_updater::config::{CacheTtl, Settings};
use gh_actions_updater::loads::{
    load_branch_exists, load_commit_exists, load_tags, BranchCacheValue, CommitCacheValue, LoadAction, LoadEvent,
    TagCacheValue,
};
use gh_actions_updater::metadata::{
    branch_cache_key, commit_cache_key, exit_code_for_resolution, next_link, resolve_updates, tags_cache_key,
    local_base_of, BranchFetch, CommitFetch, LocalPathState, MetadataAnswer, MetadataRequest, MetadataResolution, RemoteTag,
    ResolveStep, TagFetch,
};
use gh_actions_updater::outcome::has_metadata_failures;
use gh_actions_updater::versions::latest_semver_tag;
use gh_actions_updater::providers::{parse_ls_remote_tags, TagProvider};
use gh_actions_updater::scanner::{DiagnosticCategory, DiagnosticCode, ReferenceReport};
use std::cell::{Cell, RefCell};
use std::collections::HashMap;
use std::time::{SystemTime, UNIX_EPOCH};

fn unix_now() -> u64 {
    SystemTime::now().duration_since(UNIX_EPOCH).map_or(0, |d| d.as_secs())
}

#[derive(Default)]
struct MemoryCache {
    /// Keys whose entry file holds something that is not an entry.
    corrupt: RefCell<Vec<String>>,
    /// What lies on disk at `(dir, path)`; anything else is absent.
    disk: RefCell<Vec<((String, String), LocalPathState)>>,
    tags: RefCell<HashMap<String, (u64, TagCacheValue)>>,
    commits: RefCell<HashMap<String, (u64, CommitCacheValue)>>,
    branches: RefCell<HashMap<String, (u64, BranchCacheValue)>>,
}

fn entry<T: Clone>(map: &RefCell<HashMap<String, (u64, T)>>, key: &str) -> EntryRead<T> {
    match map.borrow().get(key) {
        Some((at, value)) => EntryRead::Parsed { fetched_at: *at, value: value.clone() },
        None => EntryRead::NotFound,
    }
}

/// Resolves `refs` the way a run does, with `provider` upstream and `store` as the cache files.
fn resolve_with(
    settings: &Settings,
    store: &MemoryCache,
    refs: &[ReferenceReport],
    provider: &impl TagProvider,
) -> Result<MetadataResolution, String> {
    let mut cache = CacheState::prepare(settings);
    let mut answers: Vec<MetadataAnswer> = Vec::new();
    loop {
        let request = match resolve_updates(settings, &cache, refs, &answers) {
            ResolveStep::Done(resolution) => return Ok(resolution),
            ResolveStep::Failed(message) => return Err(message),
            ResolveStep::Need(request) => request,
        };
        let next = answer(settings, store, &mut cache, provider, request).unwrap_or_else(MetadataAnswer::Failed);
        answers.push(next);
    }
}

/// Answers one lookup from `store` or `provider`; an error is the lookup's failure.
fn answer(
    settings: &Settings,
    store: &MemoryCache,
    cache: &mut CacheState,
    provider: &impl TagProvider,
    request: MetadataRequest,
) -> Result<MetadataAnswer, String> {
    {
        let answer = match request {
            MetadataRequest::Tags { owner, repo } => {
                let key = tags_cache_key(settings, &owner, &repo);
                let read = if !cache.should_read() {
                    EntryRead::NotFound
                } else if store.corrupt.borrow().contains(&key) {
                    EntryRead::Unparsable
                } else {
                    entry(&store.tags, &key)
                };
                let lookup = cache.read_json(read)?;
                let mut action = load_tags(settings, &owner, &repo, LoadEvent::Read(lookup));
                loop {
                    match action {
                        LoadAction::Fetch { stale, etag } => {
                            let outcome = provider.fetch_tags(&owner, &repo, etag.as_deref());
                            action = load_tags(settings, &owner, &repo, LoadEvent::Fetched { stale, outcome });
                        }
                        LoadAction::Finish { write, result } => {
                            if let Some(value) = write {
                                if cache.should_write() {
                                    store.corrupt.borrow_mut().retain(|k| k != &key);
                                    store.tags.borrow_mut().insert(key.clone(), (unix_now(), value));
                                }
                                cache.write_json(Ok(()))?;
                            }
                            break MetadataAnswer::Tags(result?);
                        }
                    }
                }
            }
            MetadataRequest::Commit { owner, repo, sha } => {
                let key = commit_cache_key(settings, &owner, &repo, &sha);
                let read = if cache.should_read() { entry(&store.commits, &key) } else { EntryRead::NotFound };
                let lookup = cache.read_json(read)?;
                let mut action = load_commit_exists(settings, &owner, &repo, &sha, LoadEvent::Read(lookup));
                loop {
                    match action {
                        LoadAction::Fetch { stale, etag } => {
                            let outcome = provider.fetch_commit(&owner, &repo, &sha, etag.as_deref());
                            action = load_commit_exists(settings, &owner, &repo, &sha, LoadEvent::Fetched { stale, outcome });
                        }
                        LoadAction::Finish { write, result } => {
                            if let Some(value) = write {
                                if cache.should_write() {
                                    store.commits.borrow_mut().insert(key.clone(), (unix_now(), value));
                                }
                                cache.write_json(Ok(()))?;
                            }
                            break MetadataAnswer::Commit(result?);
                        }
                    }
                }
            }
            MetadataRequest::Branch { owner, repo, branch } => {
                let key = branch_cache_key(settings, &owner, &repo, &branch);
                let read = if cache.should_read() { entry(&store.branches, &key) } else { EntryRead::NotFound };
                let lookup = cache.read_json(read)?;
                let mut action = load_branch_exists(settings, &owner, &repo, &branch, LoadEvent::Read(lookup));
                loop {
                    match action {
                        LoadAction::Fetch { stale, etag } => {
                            let outcome = provider.fetch_branch(&owner, &repo, &branch, etag.as_deref());
                            action = load_branch_exists(settings, &owner, &repo, &branch, LoadEvent::Fetched { stale, outcome });
                        }
                        LoadAction::Finish { write, result } => {
                            if let Some(value) = write {
                                if cache.should_write() {
                                    store.branches.borrow_mut().insert(key.clone(), (unix_now(), value));
                                }
                                cache.write_json(Ok(()))?;
                            }
                            break MetadataAnswer::Branch(result?);
                        }
                    }
                }
            }
            MetadataRequest::LocalPath { dir, path } => {
                let found = store.disk.borrow().iter().find(|(at, _)| at.0 == dir && at.1 == path).map(|(_, s)| *s);
                MetadataAnswer::LocalPath(found.unwrap_or(LocalPathState {
                    exists: false,
                    is_dir: false,
                    has_action_yml: false,
                    has_action_yaml: false,
                }))
            }
        };
        Ok(answer)
    }
}

fn resolve(settings: &Settings, refs: &[ReferenceReport], provider: &impl TagProvider) -> MetadataResolution {
    resolve_with(settings, &MemoryCache::default(), refs, provider).unwrap()
}

struct FakeProvider {
    tags: Vec<RemoteTag>,
    calls: Cell<usize>,
}

struct FailingProvider {
    calls: Cell<usize>,
}

struct CommitCheckingProvider {
    tags: Vec<RemoteTag>,
    commit_exists: bool,
    tag_calls: Cell<usize>,
    commit_calls: Cell<usize>,
}

struct BranchCheckingProvider {
    tags: Vec<RemoteTag>,
    branch_exists: bool,
    tag_calls: Cell<usize>,
    branch_calls: Cell<usize>,
}

impl TagProvider for FakeProvider {
    fn fetch_tags(&self, _owner: &str, _repo: &str, _etag: Option<&str>) -> Result<TagFetch, String> {
        self.calls.set(self.calls.get() + 1);
        Ok(TagFetch::Fresh { tags: self.tags.clone(), etag: Some("etag-test".to_string()) })
    }

    fn fetch_branch(&self, _owner: &str, _repo: &str, _branch: &str, _etag: Option<&str>) -> Result<BranchFetch, String> {
        Ok(BranchFetch::Fresh { exists: false, sha: None, etag: Some("etag-branch".to_string()) })
    }
}

impl TagProvider for FailingProvider {
    fn fetch_tags(&self, _owner: &str, _repo: &str, _etag: Option<&str>) -> Result<TagFetch, String> {
        self.calls.set(self.calls.get() + 1);
        Err("network unavailable".to_string())
    }
}

impl TagProvider for CommitCheckingProvider {
    fn fetch_tags(&self, _owner: &str, _repo: &str, _etag: Option<&str>) -> Result<TagFetch, String> {
        self.tag_calls.set(self.tag_calls.get() + 1);
        Ok(TagFetch::Fresh { tags: self.tags.clone(), etag: Some("etag-tags".to_string()) })
    }

    fn fetch_commit(&self, _owner: &str, _repo: &str, _sha: &str, _etag: Option<&str>) -> Result<CommitFetch, String> {
        self.commit_calls.set(self.commit_calls.get() + 1);
        Ok(CommitFetch::Fresh { exists: self.commit_exists, etag: Some("etag-commit".to_string()) })
    }
}

impl TagProvider for BranchCheckingProvider {
    fn fetch_tags(&self, _owner: &str, _repo: &str, _etag: Option<&str>) -> Result<TagFetch, String> {
        self.tag_calls.set(self.tag_calls.get() + 1);
        Ok(TagFetch::Fresh { tags: self.tags.clone(), etag: Some("etag-tags".to_string()) })
    }

    fn fetch_branch(&self, _owner: &str, _repo: &str, _branch: &str, _etag: Option<&str>) -> Result<BranchFetch, String> {
        self.branch_calls.set(self.branch_calls.get() + 1);
        Ok(BranchFetch::Fresh {
            exists: self.branch_exists,
            sha: if self.branch_exists {
                Some("0123456789abcdef0123456789abcdef01234567".to_string())
            } else {
                None
            },
            etag: Some("etag-branch".to_string()),
        })
    }
}

fn settings() -> Settings {
    Settings {
        paths: Vec::new(),
        include_globs: Vec::new(),
        exclude: Vec::new(),
        recursive: false,
        threads: None,
        cache_dir: "cache".to_string(),
        cache_ttl: CacheTtl::Seconds(3600),
        cache_enabled: true,
        refresh_cache: false,
        update: false,
        update_mode: UpdateMode::LatestTag,
        latest_hash: false,
        pin_style: PinStyle::Preserve,
        update_exclude: Vec::new(),
        missing_ref: MissingRefPolicy::Warn,
        include_prereleases: false,
        preserve_major: true,
        check: false,
        dry_run: true,
        diff: false,
        format: OutputFormat::Json,
        quiet: false,
        verbose: false,
        color: ColorChoice::Auto,
        github_token_present: false,
        github_token: None,
        github_api_url: "https://api.github.com".to_string(),
        strict_schema: false,
        schema_validation: false,
        validate: false,
        pin_floating_to_sha: false,
    }
}

fn latest_hash_settings() -> Settings {
    let mut s = settings();
    s.latest_hash = true;
    s.update_mode = UpdateMode::LatestHash;
    s
}

fn reference(raw: &str) -> ReferenceReport {
    ReferenceReport {
        file: ".github/workflows/ci.yml".to_string(),
        line: 7,
        column: 9,
        raw: raw.to_string(),
        parsed: parse_uses(raw),
        ref_span: None,
        rewrite_supported: false,
        rewrite_reason: None,
        update_ignored: false,
    }
}

fn tag(name: &str) -> RemoteTag {
    RemoteTag { name: name.to_string(), sha: format!("sha-{name}") }
}

fn tag_with_sha(name: &str, sha: &str) -> RemoteTag {
    RemoteTag { name: name.to_string(), sha: sha.to_string() }
}

fn fake(tags: Vec<RemoteTag>) -> FakeProvider {
    FakeProvider { tags, calls: Cell::new(0) }
}

fn branches(tags: Vec<RemoteTag>, branch_exists: bool) -> BranchCheckingProvider {
    BranchCheckingProvider { tags, branch_exists, tag_calls: Cell::new(0), branch_calls: Cell::new(0) }
}

#[test]
fn accepts_existing_major_only_tag() {
    let provider = fake(vec![tag("v3"), tag("v4"), tag("v4.1.0"), tag("v5")]);
    let resolution = resolve(&settings(), &[reference("actions/checkout@v4")], &provider);
    assert!(resolution.updates.is_empty());
    assert_eq!(provider.calls.get(), 1);
}

#[test]
fn preserve_keeps_missing_major_float_when_same_major_tags_exist() {
    let provider = fake(vec![tag("v1.0.1"), tag("v1.0.2")]);
    let resolution = resolve(&settings(), &[reference("actions/setup-example@v1")], &provider);
    assert!(resolution.updates.is_empty());
    assert!(resolution.diagnostics.is_empty());
}

#[test]
fn preserve_keeps_minor_float_when_patch_tag_exists() {
    let provider = fake(vec![tag("v1.24"), tag("v1.24.0")]);
    let resolution = resolve(&settings(), &[reference("erlef/setup-beam@v1.24")], &provider);
    assert!(resolution.updates.is_empty());
    assert!(resolution.diagnostics.is_empty());
}

#[test]
fn preserve_does_not_demote_full_pin_to_equivalent_minor_tag() {
    let provider = fake(vec![tag("v1.23"), tag("v1.23.0"), tag("v1.24"), tag("v1.24.0")]);
    let resolution = resolve(&settings(), &[reference("erlef/setup-beam@v1.24.0")], &provider);
    assert!(
        resolution.updates.is_empty(),
        "must not propose v1.24.0 -> v1.24 (same semver, lower precision); got {:?}",
        resolution.updates
    );
    assert!(resolution.diagnostics.is_empty());
}

#[test]
fn preserve_still_updates_full_pin_to_strictly_newer_tag() {
    let provider = fake(vec![tag("v1.24"), tag("v1.24.0"), tag("v1.25"), tag("v1.25.1")]);
    let resolution = resolve(&settings(), &[reference("erlef/setup-beam@v1.24.0")], &provider);
    assert_eq!(resolution.updates.len(), 1);
    assert_eq!(resolution.updates[0].target.as_deref(), Some("v1.25.1"));
}

#[test]
fn full_pin_style_converts_floats_to_latest_full_tag() {
    let mut settings = settings();
    settings.pin_style = PinStyle::Full;
    let provider = fake(vec![tag("v1.24.0"), tag("v1.25.0")]);
    let resolution = resolve(&settings, &[reference("erlef/setup-beam@v1.24")], &provider);
    assert_eq!(resolution.updates.len(), 1);
    assert_eq!(resolution.updates[0].target.as_deref(), Some("v1.25.0"));
}

#[test]
fn major_pin_style_converts_full_refs_to_major_float() {
    let mut settings = settings();
    settings.pin_style = PinStyle::Major;
    let provider = fake(vec![tag("v4"), tag("v4.1.0"), tag("v4.2.0")]);
    let resolution = resolve(&settings, &[reference("actions/cache@v4.1.0")], &provider);
    assert_eq!(resolution.updates.len(), 1);
    assert_eq!(resolution.updates[0].target.as_deref(), Some("v4"));
}

#[test]
fn minor_pin_style_converts_full_refs_to_minor_float() {
    let mut settings = settings();
    settings.pin_style = PinStyle::Minor;
    let provider = fake(vec![tag("v4.1.0"), tag("v4.2"), tag("v4.2.0")]);
    let resolution = resolve(&settings, &[reference("actions/cache@v4.1.0")], &provider);
    assert_eq!(resolution.updates.len(), 1);
    assert_eq!(resolution.updates[0].target.as_deref(), Some("v4.2"));
}

#[test]
fn pin_style_does_not_rewrite_to_missing_float_target() {
    let mut settings = settings();
    settings.pin_style = PinStyle::Major;
    let provider = branches(vec![tag("v4.1.0"), tag("v4.2.0")], false);
    let resolution = resolve(&settings, &[reference("actions/cache@v4.1.0")], &provider);
    assert!(resolution.updates.is_empty());
    assert!(resolution.diagnostics[0].message.contains("pin-style target does not exist"));
}

#[test]
fn selects_latest_same_major_tag_for_full_version() {
    let provider = fake(vec![tag("v3"), tag("v4"), tag("v4.0.1"), tag("v4.1.0"), tag("v5")]);
    let resolution = resolve(&settings(), &[reference("actions/checkout@v4.0.1")], &provider);
    assert_eq!(resolution.updates.len(), 1);
    assert_eq!(resolution.updates[0].target.as_deref(), Some("v4.1.0"));
    assert_eq!(provider.calls.get(), 1);
}

#[test]
fn skips_non_candidate_refs_before_metadata_fetch() {
    let provider = fake(vec![tag("v4")]);
    let resolution = resolve(&settings(), &[reference("actions/checkout@main")], &provider);
    assert!(resolution.updates.is_empty());
    assert_eq!(provider.calls.get(), 0);
}

#[test]
fn config_update_exclude_skips_matching_action_before_metadata_fetch() {
    let mut settings = settings();
    settings.update_exclude = vec!["actions/checkout".to_string()];
    let provider = fake(vec![tag("v4.1.0")]);
    let resolution = resolve(&settings, &[reference("actions/checkout@v4")], &provider);
    assert!(resolution.updates.is_empty());
    assert_eq!(provider.calls.get(), 0);
}

#[test]
fn inline_ignore_skips_update_before_metadata_fetch() {
    let provider = fake(vec![tag("v4.1.0")]);
    let mut reference = reference("actions/checkout@v4");
    reference.update_ignored = true;
    let resolution = resolve(&settings(), &[reference], &provider);
    assert!(resolution.updates.is_empty());
    assert_eq!(provider.calls.get(), 0);
}

#[test]
fn latest_hash_pins_existing_major_only_tag_sha() {
    let provider = fake(vec![
        tag_with_sha("v4", "1111111111111111111111111111111111111111"),
        tag_with_sha("v4.2.0", "2222222222222222222222222222222222222222"),
    ]);
    let resolution = resolve(&latest_hash_settings(), &[reference("actions/checkout@v4")], &provider);
    assert_eq!(resolution.updates[0].target.as_deref(), Some("1111111111111111111111111111111111111111"));
}

#[test]
fn latest_hash_updates_sha_by_matching_tag_major() {
    let provider = fake(vec![
        tag_with_sha("v4", "1111111111111111111111111111111111111111"),
        tag_with_sha("v4.2.0", "2222222222222222222222222222222222222222"),
        tag_with_sha("v5", "5555555555555555555555555555555555555555"),
    ]);
    let resolution = resolve(
        &latest_hash_settings(),
        &[reference("actions/checkout@1111111111111111111111111111111111111111")],
        &provider,
    );
    assert_eq!(resolution.updates[0].target.as_deref(), Some("2222222222222222222222222222222222222222"));
}

#[test]
fn latest_hash_checks_unmatched_sha_and_requires_major_opt_out() {
    let provider = CommitCheckingProvider {
        tags: vec![tag_with_sha("v4.2.0", "2222222222222222222222222222222222222222")],
        commit_exists: true,
        tag_calls: Cell::new(0),
        commit_calls: Cell::new(0),
    };
    let resolution = resolve(
        &latest_hash_settings(),
        &[reference("actions/checkout@9999999999999999999999999999999999999999")],
        &provider,
    );
    assert!(resolution.updates.is_empty());
    assert_eq!(provider.commit_calls.get(), 1);
    assert!(resolution.diagnostics[0].message.contains("cannot infer semver major"));
}

#[test]
fn reuses_cached_tags() {
    let settings = settings();
    let store = MemoryCache::default();
    let provider = fake(vec![tag("v4.0.0"), tag("v4.2.0")]);
    let first = resolve_with(&settings, &store, &[reference("actions/checkout@v4.0.0")], &provider).unwrap();
    assert_eq!(first.cache.misses, 1);
    let second = resolve_with(&settings, &store, &[reference("actions/checkout@v4.0.0")], &provider).unwrap();
    assert_eq!(second.cache.fresh_hits, 1);
    assert_eq!(provider.calls.get(), 1);
}

#[test]
fn no_cache_does_not_record_cache_misses() {
    let mut settings = settings();
    settings.cache_enabled = false;
    let provider = fake(vec![tag("v4")]);
    let resolution = resolve(&settings, &[reference("actions/checkout@v4")], &provider);
    assert!(!resolution.cache.enabled);
    assert_eq!(resolution.cache.misses, 0);
    assert_eq!(provider.calls.get(), 1);
}

#[test]
fn reports_missing_full_current_ref() {
    let provider = fake(vec![tag("v4.1.0")]);
    let resolution = resolve(&settings(), &[reference("actions/checkout@v4.0.0")], &provider);
    assert!(resolution.updates.is_empty());
    assert_eq!(resolution.diagnostics.len(), 1);
}

#[test]
fn branch_backed_semver_ref_is_not_reported_missing() {
    let provider = branches(Vec::new(), true);
    let resolution = resolve(&settings(), &[reference("ruby/setup-ruby@v1")], &provider);
    assert!(resolution.updates.is_empty());
    assert!(resolution.diagnostics.is_empty());
    assert_eq!(provider.branch_calls.get(), 1);
}

#[test]
fn branch_backed_semver_ref_wins_over_matching_tag_updates() {
    let provider = branches(vec![tag("v1.2.0")], true);
    let resolution = resolve(&settings(), &[reference("ruby/setup-ruby@v1")], &provider);
    assert!(resolution.updates.is_empty());
    assert!(resolution.diagnostics.is_empty());
    assert_eq!(provider.branch_calls.get(), 1);
}

#[test]
fn latest_hash_does_not_pin_missing_floating_tag_to_full_tag_sha() {
    let provider = branches(vec![tag_with_sha("v1.2.0", "2222222222222222222222222222222222222222")], false);
    let resolution = resolve(&latest_hash_settings(), &[reference("actions/example@v1")], &provider);
    assert!(resolution.updates.is_empty());
    assert!(resolution.diagnostics.is_empty());
}

#[test]
fn missing_ref_fallback_counts_update() {
    let mut settings = settings();
    settings.pin_style = PinStyle::Full;
    settings.missing_ref = MissingRefPolicy::Fallback;
    let provider = fake(vec![tag("v4.1.0")]);
    let resolution = resolve(&settings, &[reference("actions/checkout@v4")], &provider);
    assert_eq!(resolution.updates.len(), 1);
    assert_eq!(resolution.updates[0].target.as_deref(), Some("v4.1.0"));
    assert!(resolution.diagnostics.is_empty());
}

#[test]
fn missing_ref_error_fails_check() {
    let mut settings = settings();
    settings.check = true;
    settings.missing_ref = MissingRefPolicy::Error;
    let provider = fake(vec![tag("v4.1.0")]);
    let resolution = resolve(&settings, &[reference("actions/checkout@v4.0.0")], &provider);
    assert_eq!(exit_code_for_resolution(&settings, &resolution), Some(1));
}

#[test]
fn missing_ref_error_fails_an_update_run() {
    let mut settings = settings();
    settings.missing_ref = MissingRefPolicy::Error;
    let provider = fake(vec![tag("v4.1.0")]);
    let error = resolve_with(&settings, &MemoryCache::default(), &[reference("actions/checkout@v4.0.0")], &provider)
        .unwrap_err();
    assert_eq!(error, "remote ref no longer exists: actions/checkout@v4.0.0");
}

#[test]
fn missing_ref_ignore_is_silent() {
    let mut settings = settings();
    settings.missing_ref = MissingRefPolicy::Ignore;
    let provider = fake(vec![tag("v4.1.0")]);
    let resolution = resolve(&settings, &[reference("actions/checkout@v4.0.0")], &provider);
    assert!(resolution.updates.is_empty());
    assert!(resolution.diagnostics.is_empty());
}

#[test]
fn prereleases_are_ignored_by_default() {
    let provider = fake(vec![tag("v4"), tag("v4.1.0-alpha.1")]);
    let resolution = resolve(&settings(), &[reference("actions/checkout@v4")], &provider);
    assert!(resolution.updates.is_empty());
}

#[test]
fn failed_fetch_without_cache_is_reported_and_resolution_goes_on() {
    let provider = FailingProvider { calls: Cell::new(0) };
    let refs = [reference("actions/checkout@v4.0.0"), local_reference("ci.yml", "./local")];
    let resolution = resolve_with(&settings(), &MemoryCache::default(), &refs, &provider).unwrap();
    assert_eq!(provider.calls.get(), 1);
    assert!(resolution.updates.is_empty());
    assert_eq!(resolution.diagnostics.len(), 1);
    assert_eq!(resolution.diagnostics[0].category, DiagnosticCategory::Metadata);
    assert_eq!(resolution.diagnostics[0].code, DiagnosticCode::MetadataLookupFailed);
    assert_eq!(resolution.diagnostics[0].message, "network unavailable");
    assert_eq!(resolution.diagnostics[0].line, Some(7));
    assert!(has_metadata_failures(&resolution.diagnostics));
}

#[test]
fn each_reference_of_a_failing_repository_is_reported() {
    let provider = FailingProvider { calls: Cell::new(0) };
    let refs = [reference("actions/checkout@v4.0.0"), reference("actions/checkout@v3.0.0")];
    let resolution = resolve_with(&settings(), &MemoryCache::default(), &refs, &provider).unwrap();
    assert_eq!(resolution.diagnostics.len(), 2);
    assert!(resolution.diagnostics.iter().all(|d| d.category == DiagnosticCategory::Metadata));
}

#[test]
fn stale_cache_fallback_reports_warning() {
    let mut settings = settings();
    settings.cache_ttl = CacheTtl::Seconds(0);
    let store = MemoryCache::default();
    let key = tags_cache_key(&settings, "actions", "checkout");
    store.tags.borrow_mut().insert(
        key,
        (
            1,
            TagCacheValue {
                provider: "test".to_string(),
                api_host: "https://api.github.com".to_string(),
                auth_fingerprint: "anonymous".to_string(),
                etag: Some("etag-test".to_string()),
                tags: vec![tag("v4.0.0"), tag("v4.2.0")],
            },
        ),
    );
    let provider = FailingProvider { calls: Cell::new(0) };
    let resolution = resolve_with(&settings, &store, &[reference("actions/checkout@v4.0.0")], &provider).unwrap();
    assert_eq!(resolution.cache.stale_hits, 1);
    assert_eq!(resolution.updates[0].target.as_deref(), Some("v4.2.0"));
    assert!(resolution.diagnostics[0].message.contains("using stale metadata"));
    assert_eq!(resolution.diagnostics[0].code.name(), "stale_metadata");
}

#[test]
fn corrupt_cache_is_replaced() {
    let settings = settings();
    let store = MemoryCache::default();
    let key = tags_cache_key(&settings, "actions", "checkout");
    store.corrupt.borrow_mut().push(key.clone());
    let provider = fake(vec![tag("v4.0.0"), tag("v4.2.0")]);

    let resolution = resolve_with(&settings, &store, &[reference("actions/checkout@v4.0.0")], &provider).unwrap();

    assert_eq!(resolution.cache.refreshes, 1);
    assert_eq!(resolution.updates[0].target.as_deref(), Some("v4.2.0"));
    assert_eq!(provider.calls.get(), 1);
    assert!(store.corrupt.borrow().is_empty());
    assert!(store.tags.borrow().contains_key(&key));
}

fn local_reference(file: &str, raw: &str) -> ReferenceReport {
    ReferenceReport { file: file.to_string(), ..reference(raw) }
}

#[test]
fn validate_check_fails_on_missing_local_reference() {
    let mut settings = settings();
    settings.check = true;
    settings.validate = true;
    let refs = [local_reference("repo/.github/workflows/ci.yml", "./.github/actions/missing")];
    let resolution = resolve_with(&settings, &MemoryCache::default(), &refs, &fake(Vec::new())).unwrap();
    assert_eq!(resolution.diagnostics.len(), 1);
    assert_eq!(resolution.diagnostics[0].category, DiagnosticCategory::Validation);
    assert_eq!(resolution.diagnostics[0].code, DiagnosticCode::LocalReferenceMissing);
    assert_eq!(resolution.diagnostics[0].code.name(), "local_reference_missing");
    assert_eq!(resolution.diagnostics[0].message, "local reference does not exist on disk: ./.github/actions/missing");
    assert_eq!(exit_code_for_resolution(&settings, &resolution), Some(1));
}

#[test]
fn validate_check_fails_on_local_directory_without_metadata() {
    let mut settings = settings();
    settings.check = true;
    settings.validate = true;
    let store = MemoryCache::default();
    let empty_dir = LocalPathState { exists: true, is_dir: true, has_action_yml: false, has_action_yaml: false };
    store.disk.borrow_mut().push((("repo".to_string(), "./.github/actions/empty".to_string()), empty_dir));
    let refs = [local_reference("repo/.github/workflows/ci.yml", "./.github/actions/empty")];
    let resolution = resolve_with(&settings, &store, &refs, &fake(Vec::new())).unwrap();
    assert_eq!(resolution.diagnostics.len(), 1);
    assert_eq!(resolution.diagnostics[0].category, DiagnosticCategory::Validation);
    assert_eq!(resolution.diagnostics[0].code.name(), "local_reference_missing");
    assert_eq!(exit_code_for_resolution(&settings, &resolution), Some(1));
    settings.check = false;
    assert_eq!(exit_code_for_resolution(&settings, &resolution), None);
}

#[test]
fn local_references_resolve_from_repository_root() {
    let mut settings = settings();
    settings.validate = true;
    let store = MemoryCache::default();
    let action = LocalPathState { exists: true, is_dir: true, has_action_yml: true, has_action_yaml: false };
    store.disk.borrow_mut().push((("/tmp/repo".to_string(), "./.github/actions/local".to_string()), action));
    let refs = [local_reference("/tmp/repo/.github/workflows/ci.yml", "./.github/actions/local")];
    let resolution = resolve_with(&settings, &store, &refs, &fake(Vec::new())).unwrap();
    assert!(resolution.diagnostics.is_empty());
}

#[test]
fn local_base_is_the_repository_root() {
    assert_eq!(local_base_of(&"/tmp/repo/.github/workflows/ci.yml".to_string()), "/tmp/repo");
    assert_eq!(local_base_of(&".github/workflows/ci.yml".to_string()), ".");
    assert_eq!(local_base_of(&"./.github/workflows/ci.yml".to_string()), ".");
    assert_eq!(local_base_of(&"a/.github/x/.github/workflows/ci.yml".to_string()), "a/.github/x");
    assert_eq!(local_base_of(&"/.github/workflows/ci.yml".to_string()), "/");
    assert_eq!(local_base_of(&"sub/action.yml".to_string()), "sub");
    assert_eq!(local_base_of(&"action.yml".to_string()), "");
    assert_eq!(local_base_of(&"x.github/ci.yml".to_string()), "x.github");
}

#[test]
fn parses_ls_remote_output() {
    let tags = parse_ls_remote_tags("abc123\trefs/tags/v1\ndef456\trefs/tags/v1.2.0\n").unwrap();
    assert_eq!(tags, vec![tag_with_sha("v1", "abc123"), tag_with_sha("v1.2.0", "def456")]);
}

#[test]
fn parses_peeled_annotated_tag_commits() {
    let tags = parse_ls_remote_tags("tag-object\trefs/tags/v1\ncommit-sha\trefs/tags/v1^{}\n").unwrap();
    assert_eq!(tags, vec![tag_with_sha("v1", "commit-sha")]);
}

#[test]
fn ls_remote_output_is_sorted_and_skips_other_refs() {
    let tags = parse_ls_remote_tags(
        "b\trefs/tags/v2\r\na\trefs/heads/main\nnot-a-line\nc\trefs/tags/v10\nd\trefs/tags/v2\n",
    )
    .unwrap();
    assert_eq!(tags, vec![tag_with_sha("v10", "c"), tag_with_sha("v2", "b")]);
}

#[test]
fn extracts_next_link_from_github_header() {
    let link = r#"<https://api.github.com/repos/o/r/tags?page=2>; rel="next", <https://api.github.com/repos/o/r/tags?page=4>; rel="last""#;
    assert_eq!(next_link(link).as_deref(), Some("https://api.github.com/repos/o/r/tags?page=2"));
}

#[test]
fn no_next_link_on_the_last_page() {
    let link = r#"<https://api.github.com/repos/o/r/tags?page=1>; rel="prev""#;
    assert_eq!(next_link(link), None);
}

#[test]
fn pin_floating_to_sha_rewrites_branch_to_sha() {
    let mut settings = settings();
    settings.pin_floating_to_sha = true;
    let provider = branches(vec![tag("v1.0.0")], true);
    let resolution = resolve(&settings, &[reference("kreuzberg-dev/actions/lint-docs@main")], &provider);
    assert_eq!(resolution.updates.len(), 1, "expected branch ref to be rewritten to SHA");
    assert_eq!(resolution.updates[0].target.as_deref(), Some("0123456789abcdef0123456789abcdef01234567"));
    assert_eq!(provider.branch_calls.get(), 1);
    assert_eq!(resolution.resolved_ref_kinds, vec![(0, RefKind::Branch)], "branch ref should be reclassified");
}

#[test]
fn pin_floating_to_sha_rewrites_non_semver_tag_to_sha() {
    let mut settings = settings();
    settings.pin_floating_to_sha = true;
    let provider = fake(vec![tag("stable"), tag("nightly")]);
    let resolution = resolve(&settings, &[reference("dtolnay/rust-toolchain@stable")], &provider);
    assert_eq!(resolution.updates.len(), 1);
    assert_eq!(resolution.updates[0].current, "stable");
    assert_eq!(resolution.updates[0].target.as_deref(), Some("sha-stable"));
    assert_eq!(resolution.resolved_ref_kinds, vec![(0, RefKind::NonSemverTag)]);
}

#[test]
fn default_scan_does_not_fetch_metadata_for_floating_refs() {
    let provider = branches(vec![tag("v1.0.0")], true);
    let resolution = resolve(&settings(), &[reference("kreuzberg-dev/actions/lint-docs@main")], &provider);
    assert!(resolution.updates.is_empty());
    assert!(resolution.resolved_ref_kinds.is_empty());
    assert_eq!(provider.tag_calls.get(), 0, "default scan must not fetch tags for branch refs");
    assert_eq!(provider.branch_calls.get(), 0);
}

#[test]
fn validate_reports_missing_tag_when_tag_absent_upstream() {
    let mut settings = settings();
    settings.validate = true;
    let provider = fake(vec![tag("v4.0.0")]);
    let resolution = resolve(&settings, &[reference("actions/checkout@v3.5.0")], &provider);
    assert!(
        resolution.diagnostics.iter().any(|d| d.message.contains("remote ref no longer exists")),
        "validate should report missing upstream tag: {:?}",
        resolution.diagnostics
    );
}

#[test]
fn validate_passes_when_tag_exists_upstream() {
    let mut settings = settings();
    settings.validate = true;
    let provider = fake(vec![tag("v4.0.0"), tag("v4.1.0")]);
    let resolution = resolve(&settings, &[reference("actions/checkout@v4.0.0")], &provider);
    assert!(
        !resolution.diagnostics.iter().any(|d| d.message.contains("remote ref no longer exists")),
        "validate should not report present tag missing: {:?}",
        resolution.diagnostics
    );
}

#[test]
fn sha_advisory_emitted_when_newer_sha_available_without_latest_hash() {
    let pinned_sha = "1111111111111111111111111111111111111111";
    let newer_sha = "2222222222222222222222222222222222222222";
    let provider = fake(vec![tag_with_sha("v4.0.0", pinned_sha), tag_with_sha("v4.1.0", newer_sha)]);
    let raw = format!("actions/checkout@{pinned_sha}");
    let resolution = resolve(&settings(), &[reference(&raw)], &provider);
    assert!(resolution.updates.is_empty(), "SHA refs must not produce updates without --latest-hash");
    assert!(
        resolution.diagnostics.iter().any(|d| d.message.contains("--latest-hash") && d.code == DiagnosticCode::ShaUpdateAvailable),
        "expected SHA advisory diagnostic, got {:?}",
        resolution.diagnostics
    );
}

#[test]
fn tags_of_one_repository_are_loaded_once() {
    let provider = fake(vec![tag("v4.0.0"), tag("v4.2.0")]);
    let resolution = resolve(
        &settings(),
        &[reference("actions/checkout@v4.0.0"), reference("actions/checkout@v4.2.0")],
        &provider,
    );
    assert_eq!(provider.calls.get(), 1);
    assert_eq!(resolution.updates.len(), 1);
    assert_ne!(resolution.updates[0].target.as_deref(), Some(resolution.updates[0].current.as_str()));
}

#[test]
fn resolution_stops_with_the_next_request() {
    let settings = settings();
    let cache = CacheState::prepare(&settings);
    match resolve_updates(&settings, &cache, &[reference("actions/checkout@v4")], &[]) {
        ResolveStep::Need(MetadataRequest::Tags { owner, repo }) => {
            assert_eq!(owner, "actions");
            assert_eq!(repo, "checkout");
        }
        other => panic!("unexpected step {other:?}"),
    }
    match resolve_updates(&settings, &cache, &[reference("actions/checkout@v4")], &[MetadataAnswer::Commit(true)]) {
        ResolveStep::Failed(message) => assert_eq!(message, "metadata answer does not match the pending request"),
        other => panic!("unexpected step {other:?}"),
    }
}

#[test]
fn written_cache_entries_read_back_fresh() {
    let s = settings();
    let fetched = load_commit_exists(
        &s,
        "o",
        "r",
        "abc",
        LoadEvent::Fetched { stale: None, outcome: Ok(CommitFetch::Fresh { exists: true, etag: Some("e".to_string()) }) },
    );
    let written = match fetched {
        LoadAction::Finish { write: Some(w), result: Ok(true) } => w,
        other => panic!("unexpected {other:?}"),
    };
    match load_commit_exists(&s, "o", "r", "abc", LoadEvent::Read(CacheLookup::Fresh(written))) {
        LoadAction::Finish { write: None, result: Ok(true) } => {}
        other => panic!("unexpected {other:?}"),
    }

    let fetched = load_branch_exists(
        &s,
        "o",
        "r",
        "main",
        LoadEvent::Fetched {
            stale: None,
            outcome: Ok(BranchFetch::Fresh { exists: true, sha: Some("123".to_string()), etag: None }),
        },
    );
    let (written, head) = match fetched {
        LoadAction::Finish { write: Some(w), result: Ok(l) } => (w, l.sha),
        other => panic!("unexpected {other:?}"),
    };
    assert_eq!(head.as_deref(), Some("123"));
    match load_branch_exists(&s, "o", "r", "main", LoadEvent::Read(CacheLookup::Fresh(written))) {
        LoadAction::Finish { write: None, result: Ok(l) } => {
            assert_eq!(l.sha.as_deref(), Some("123"));
            assert!(l.warning.is_none());
        }
        other => panic!("unexpected {other:?}"),
    }
}

#[test]
fn preserve_major_off_moves_floating_refs_to_newer_majors() {
    let mut s = settings();
    s.preserve_major = false;
    let tags = || vec![tag("v3"), tag("v3.1.0"), tag("v5"), tag("v5.1.0")];
    let moved = resolve(&s, &[reference("actions/checkout@v3")], &fake(tags()));
    assert_eq!(moved.updates.len(), 1);
    assert_eq!(moved.updates[0].target.as_deref(), Some("v5"));
    let kept = resolve(&settings(), &[reference("actions/checkout@v3")], &fake(tags()));
    assert!(kept.updates.is_empty());
    let same_major = resolve(&s, &[reference("actions/checkout@v3")], &fake(vec![tag("v3"), tag("v3.2.0")]));
    assert!(same_major.updates.is_empty());
}

#[test]
fn preserve_major_off_updates_full_pins_across_majors() {
    let mut s = settings();
    s.preserve_major = false;
    let tags = || vec![tag("v4.0.0"), tag("v4.1.0"), tag("v5.2.0")];
    let across = resolve(&s, &[reference("actions/checkout@v4.0.0")], &fake(tags()));
    assert_eq!(across.updates[0].target.as_deref(), Some("v5.2.0"));
    let within = resolve(&settings(), &[reference("actions/checkout@v4.0.0")], &fake(tags()));
    assert_eq!(within.updates[0].target.as_deref(), Some("v4.1.0"));
}

#[test]
fn preserve_major_off_lets_latest_hash_leave_the_pinned_major() {
    let mut s = latest_hash_settings();
    s.preserve_major = false;
    let provider = fake(vec![
        tag_with_sha("v4.2.0", "2222222222222222222222222222222222222222"),
        tag_with_sha("v5.0.0", "5555555555555555555555555555555555555555"),
    ]);
    let resolution = resolve(&s, &[reference("actions/checkout@2222222222222222222222222222222222222222")], &provider);
    assert_eq!(resolution.updates[0].target.as_deref(), Some("5555555555555555555555555555555555555555"));
}

#[test]
fn latest_mode_updates_tags_as_tags_and_sha_pins_as_shas() {
    let pinned_sha = "1111111111111111111111111111111111111111";
    let newer_sha = "2222222222222222222222222222222222222222";
    let provider = fake(vec![tag_with_sha("v4.0.0", pinned_sha), tag_with_sha("v4.1.0", newer_sha)]);
    let mut latest = settings();
    latest.update_mode = UpdateMode::Latest;
    let sha_raw = format!("actions/checkout@{pinned_sha}");
    let resolution = resolve(&latest, &[reference("actions/checkout@v4.0.0"), reference(&sha_raw)], &provider);
    assert_eq!(resolution.updates.len(), 2);
    assert_eq!(resolution.updates[0].current, "v4.0.0");
    assert_eq!(resolution.updates[0].target.as_deref(), Some("v4.1.0"));
    assert_eq!(resolution.updates[1].current, pinned_sha);
    assert_eq!(resolution.updates[1].target.as_deref(), Some(newer_sha));
    assert!(resolution.diagnostics.iter().all(|d| !d.message.contains("--latest-hash")));
}

#[test]
fn skipped_references_need_no_answers() {
    let settings = settings();
    let cache = CacheState::prepare(&settings);
    let mut ignored = reference("actions/checkout@v4");
    ignored.update_ignored = true;
    let refs = [reference("actions/checkout@main"), ignored, local_reference("ci.yml", "./local")];
    match resolve_updates(&settings, &cache, &refs, &[]) {
        ResolveStep::Done(resolution) => {
            assert!(resolution.updates.is_empty());
            assert!(resolution.diagnostics.is_empty());
            assert!(resolution.resolved_ref_kinds.is_empty());
        }
        other => panic!("unexpected step {other:?}"),
    }
}

#[test]
fn each_update_stands_at_its_reference() {
    let provider = fake(vec![tag("v3.0.0"), tag("v3.1.0"), tag("v4.0.0"), tag("v4.2.0")]);
    let first = ReferenceReport { line: 3, ..reference("actions/checkout@v3.0.0") };
    let skipped = ReferenceReport { line: 5, ..reference("actions/checkout@main") };
    let last = ReferenceReport { file: "action.yml".to_string(), line: 9, ..reference("actions/checkout@v4.0.0") };
    let resolution = resolve(&settings(), &[first, skipped, last], &provider);
    assert_eq!(resolution.updates.len(), 2);
    assert_eq!((resolution.updates[0].file.as_str(), resolution.updates[0].line), (".github/workflows/ci.yml", 3));
    assert_eq!(resolution.updates[0].current, "v3.0.0");
    assert_eq!((resolution.updates[1].file.as_str(), resolution.updates[1].line), ("action.yml", 9));
    assert_eq!(resolution.updates[1].current, "v4.0.0");
}

#[test]
fn newest_tag_follows_prerelease_order_and_later_ties() {
    let mut s = settings();
    s.include_prereleases = true;
    let tags = vec![
        tag_with_sha("v1.0.0-alpha.10", "a10"),
        tag_with_sha("v1.0.0-beta", "b"),
        tag_with_sha("v1.0.0-alpha.2", "a2"),
    ];
    assert_eq!(latest_semver_tag(&s, &tags, Some(1)).map(|t| t.sha), Some("b".to_string()));
    let ties = vec![tag_with_sha("1.2.0", "first"), tag_with_sha("v1.2.0", "second"), tag_with_sha("v1.1.9", "old")];
    assert_eq!(latest_semver_tag(&s, &ties, None).map(|t| t.sha), Some("second".to_string()));
    s.include_prereleases = false;
    assert_eq!(latest_semver_tag(&s, &tags, Some(1)), None);
}
