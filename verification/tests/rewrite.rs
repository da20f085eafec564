use gh_actions_updater::cli::{ColorChoice, MissingRefPolicy, OutputFormat, PinStyle, UpdateMode};
use gh_actions_updater::cli::Cli;
use gh_actions_updater::config::{CacheTtl, Environment, FileConfig, Settings};
use gh_actions_updater::metadata::{exit_code_for_resolution, MetadataResolution};
use gh_actions_updater::cache::CacheReport;
use gh_actions_updater::outcome::final_exit_code;
use gh_actions_updater::report::UpdateReport;
use gh_actions_updater::rewrite::{
    diff_path, has_overlaps, plan_rewrites, render_unified_diff, rewrite_file, skipped_updates, RewriteResult,
};
use gh_actions_updater::scanner::ByteSpan;
use std::collections::HashMap;

fn settings(dry_run: bool, diff: bool) -> Settings {
    Settings {
        paths: Vec::new(),
        include_globs: Vec::new(),
        exclude: Vec::new(),
        recursive: false,
        threads: None,
        cache_dir: "cache".to_string(),
        cache_ttl: CacheTtl::Seconds(3600),
        cache_enabled: true,
        refresh_cache: false,
        update: true,
        update_mode: UpdateMode::LatestTag,
        latest_hash: false,
        pin_style: PinStyle::Preserve,
        update_exclude: Vec::new(),
        missing_ref: MissingRefPolicy::Warn,
        include_prereleases: false,
        preserve_major: true,
        check: false,
        dry_run,
        diff,
        format: OutputFormat::Human,
        quiet: false,
        verbose: false,
        color: ColorChoice::Auto,
        github_token_present: false,
        github_token: None,
        github_api_url: "https://api.github.com".to_string(),
        strict_schema: false,
        schema_validation: false,
        validate: false,
        pin_floating_to_sha: false,
    }
}

/// Applies `updates` to the files held in `files`, as a run applies them to disk.
fn apply_in_memory(settings: &Settings, files: &mut HashMap<String, String>, updates: &[UpdateReport]) -> RewriteResult {
    let mut result = RewriteResult::new();
    result.diagnostics = skipped_updates(updates);
    for plan in plan_rewrites(updates) {
        let content = if plan.wants_content() { Some(files[&plan.file].clone()) } else { None };
        if let Some(text) = rewrite_file(settings, &plan, content.as_deref(), &mut result) {
            files.insert(plan.file.clone(), text);
            result.mark_written();
        }
    }
    result
}

fn update(file: &str, content: &str, current: &str, target: &str) -> UpdateReport {
    let start = content.find(current).unwrap();
    UpdateReport {
        file: file.to_string(),
        line: 4,
        current: current.to_string(),
        target: Some(target.to_string()),
        ref_span: Some(ByteSpan { start, end: start + current.len() }),
        rewrite_supported: true,
        rewrite_reason: None,
    }
}

#[test]
fn rewrites_only_ref_span() {
    let content = "jobs:\n  test:\n    steps:\n      - uses: actions/checkout@v4\n";
    let mut files = HashMap::new();
    files.insert("ci.yml".to_string(), content.to_string());
    let u = update("ci.yml", content, "v4", "v4.2.0");

    let result = apply_in_memory(&settings(false, false), &mut files, &[u]);

    assert!(result.changed);
    assert!(result.would_change);
    assert_eq!(files["ci.yml"], "jobs:\n  test:\n    steps:\n      - uses: actions/checkout@v4.2.0\n");
}

#[test]
fn dry_run_diff_does_not_write() {
    let content = "jobs:\n  test:\n    steps:\n      - uses: actions/checkout@v4\n";
    let mut files = HashMap::new();
    files.insert("/tmp/x/ci.yml".to_string(), content.to_string());
    let u = update("/tmp/x/ci.yml", content, "v4", "v4.2.0");

    let result = apply_in_memory(&settings(true, true), &mut files, &[u]);

    assert!(!result.changed);
    assert!(result.would_change);
    assert_eq!(files["/tmp/x/ci.yml"], content);
    assert!(result.diffs[0].contains("actions/checkout@v4.2.0"));
    assert!(!result.diffs[0].contains("a//"));
}

#[test]
fn stale_span_is_reported_and_file_left_alone() {
    let content = "jobs:\n  test:\n    steps:\n      - uses: actions/checkout@v4\n";
    let mut files = HashMap::new();
    files.insert("ci.yml".to_string(), content.to_string());
    let mut u = update("ci.yml", content, "v4", "v4.2.0");
    u.current = "v3".to_string();

    let result = apply_in_memory(&settings(false, false), &mut files, &[u]);

    assert!(!result.changed);
    assert!(!result.would_change);
    assert_eq!(files["ci.yml"], content);
    assert_eq!(result.diagnostics.len(), 1);
    assert_eq!(result.diagnostics[0].message, "update skipped because the source span no longer matches the file");
    assert_eq!(result.diagnostics[0].line, Some(4));
}

#[test]
fn overlapping_spans_skip_the_file() {
    let content = "uses: a/b@v4\n";
    let mut files = HashMap::new();
    files.insert("ci.yml".to_string(), content.to_string());
    let start = content.find("v4").unwrap();
    let first = UpdateReport {
        file: "ci.yml".to_string(),
        line: 1,
        current: "v4".to_string(),
        target: Some("v5".to_string()),
        ref_span: Some(ByteSpan { start, end: start + 2 }),
        rewrite_supported: true,
        rewrite_reason: None,
    };
    let second = UpdateReport { ref_span: Some(ByteSpan { start: start + 1, end: start + 2 }), current: "4".to_string(), ..first.clone() };

    let result = apply_in_memory(&settings(false, false), &mut files, &[first, second]);

    assert!(!result.changed);
    assert_eq!(files["ci.yml"], content);
    assert_eq!(result.diagnostics.len(), 1);
    assert_eq!(result.diagnostics[0].message, "updates skipped because rewrite spans overlap");
    assert_eq!(result.diagnostics[0].line, None);
}

#[test]
fn updates_without_span_or_safety_are_reported() {
    let no_span = UpdateReport {
        file: "ci.yml".to_string(),
        line: 3,
        current: "v4".to_string(),
        target: Some("v5".to_string()),
        ref_span: None,
        rewrite_supported: false,
        rewrite_reason: None,
    };
    let unsafe_ref = UpdateReport { ref_span: Some(ByteSpan { start: 0, end: 2 }), line: 5, ..no_span.clone() };
    let no_target = UpdateReport { target: None, ..no_span.clone() };
    let d = skipped_updates(&[no_span, unsafe_ref, no_target]);
    assert_eq!(d.len(), 2);
    assert_eq!(d[0].message, "update skipped because no safe source span was found");
    assert_eq!(d[0].line, Some(3));
    assert_eq!(d[1].message, "update skipped because the reference is not rewrite-safe");
    assert_eq!(d[1].line, Some(5));
}

#[test]
fn several_refs_in_one_file_are_rewritten_together() {
    let content = "a: x/y@v1\nb: x/z@v2\n";
    let mut files = HashMap::new();
    files.insert("f.yml".to_string(), content.to_string());
    let u1 = update("f.yml", content, "v1", "v1.0.1");
    let u2 = update("f.yml", content, "v2", "v2.3.4");
    let result = apply_in_memory(&settings(false, false), &mut files, &[u2, u1]);
    assert!(result.changed);
    assert_eq!(files["f.yml"], "a: x/y@v1.0.1\nb: x/z@v2.3.4\n");
}

#[test]
fn plans_are_grouped_by_file_in_name_order() {
    let content = "uses: a/b@v1\n";
    let ub = update("b.yml", content, "v1", "v2");
    let ua = update("a.yml", content, "v1", "v2");
    let plans = plan_rewrites(&[ub, ua]);
    assert_eq!(plans.len(), 2);
    assert_eq!(plans[0].file, "a.yml");
    assert_eq!(plans[1].file, "b.yml");
    assert!(!has_overlaps(&plans[0].replacements));
}

#[test]
fn unified_diff_shows_changed_lines() {
    let diff = render_unified_diff("ci.yml", "a\nb\nc\n", "a\nB\nc\n");
    assert_eq!(diff, "diff --git a/ci.yml b/ci.yml\n--- a/ci.yml\n+++ b/ci.yml\n@@ -1,3 +1,3 @@\n a\n-b\n+B\n c\n");
}

#[test]
fn diff_path_strips_leading_separators() {
    assert_eq!(diff_path("/tmp/x/ci.yml"), "tmp/x/ci.yml");
    assert_eq!(diff_path("ci.yml"), "ci.yml");
}

fn no_env() -> Environment {
    Environment {
        cache_dir: None,
        cache_ttl: None,
        ghau_github_token: None,
        github_token: None,
        gh_token: None,
        platform_cache_dir: None,
    }
}

#[test]
fn runs_without_update_never_write() {
    let content = "uses: a/b@v1\n";
    let u = update("ci.yml", content, "v1", "v2");
    for (update_flag, check, dry_run) in [(false, false, false), (true, true, false), (true, false, true)] {
        let cli = Cli { update: update_flag, check, dry_run, ..Cli::default() };
        let s = Settings::resolve(&cli, &FileConfig::default(), &no_env()).unwrap();
        assert!(s.dry_run);
        let mut files = HashMap::new();
        files.insert("ci.yml".to_string(), content.to_string());
        let result = apply_in_memory(&s, &mut files, &[u.clone()]);
        assert!(!result.changed);
        assert!(result.would_change);
        assert_eq!(files["ci.yml"], content);
    }
    let cli = Cli { update: true, ..Cli::default() };
    let s = Settings::resolve(&cli, &FileConfig::default(), &no_env()).unwrap();
    assert!(!s.dry_run);
}

#[test]
fn check_with_updates_exits_nonzero() {
    let cli = Cli { check: true, ..Cli::default() };
    let s = Settings::resolve(&cli, &FileConfig::default(), &no_env()).unwrap();
    let content = "uses: a/b@v1\n";
    let resolution = MetadataResolution {
        updates: vec![update("ci.yml", content, "v1", "v2")],
        diagnostics: Vec::new(),
        cache: CacheReport { enabled: true, fresh_hits: 0, stale_hits: 0, misses: 0, refreshes: 0 },
        resolved_ref_kinds: Vec::new(),
    };
    let code = exit_code_for_resolution(&s, &resolution);
    assert_eq!(code, Some(1));
    assert_eq!(final_exit_code(false, false, code), Some(1));
    assert_eq!(final_exit_code(true, false, code), Some(3));
    assert_eq!(final_exit_code(false, true, code), Some(4));
}
