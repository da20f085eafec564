use gh_actions_updater::cache::CacheReport;
use gh_actions_updater::cli::{ColorChoice, MissingRefPolicy, OutputFormat, PinStyle, UpdateMode};
use gh_actions_updater::config::{CacheTtl, Settings};
use gh_actions_updater::metadata::MetadataResolution;
use gh_actions_updater::report::{plural, skip_code, Color, RunReport, UpdateReport};
use gh_actions_updater::scanner::{scan_file, Diagnostic, DiagnosticCategory, DiagnosticCode, ScanOutput};

fn settings() -> Settings {
    Settings {
        paths: Vec::new(),
        include_globs: Vec::new(),
        exclude: Vec::new(),
        recursive: false,
        threads: None,
        cache_dir: "cache".to_string(),
        cache_ttl: CacheTtl::Seconds(3600),
        cache_enabled: false,
        refresh_cache: false,
        update: false,
        update_mode: UpdateMode::LatestTag,
        latest_hash: false,
        pin_style: PinStyle::Preserve,
        update_exclude: Vec::new(),
        missing_ref: MissingRefPolicy::Warn,
        include_prereleases: false,
        preserve_major: true,
        check: false,
        dry_run: true,
        diff: false,
        format: OutputFormat::Human,
        quiet: false,
        verbose: false,
        color: ColorChoice::Never,
        github_token_present: false,
        github_token: None,
        github_api_url: "https://api.github.com".to_string(),
        strict_schema: false,
        schema_validation: false,
        validate: false,
        pin_floating_to_sha: false,
    }
}

fn empty_resolution() -> MetadataResolution {
    MetadataResolution {
        updates: Vec::new(),
        diagnostics: Vec::new(),
        cache: CacheReport { enabled: false, fresh_hits: 0, stale_hits: 0, misses: 0, refreshes: 0 },
        resolved_ref_kinds: Vec::new(),
    }
}

#[test]
fn skip_codes_cover_ignored_excluded_local_and_docker_refs() {
    let mut s = settings();
    s.update_exclude = vec!["owner/excluded".to_string()];
    let content = "jobs:\n  test:\n    steps:\n      - uses: actions/checkout@main # gau: ignore\n      - uses: owner/excluded@main\n      - uses: ./.github/actions/local\n      - uses: docker://alpine:3\n";
    let mut scan = ScanOutput::default();
    scan_file(&mut scan, ".github/workflows/ci.yml", content, &s).unwrap();
    let codes: Vec<_> = scan.references.iter().map(|r| skip_code(r, &s)).collect();
    assert_eq!(
        codes,
        vec![Some("inline_ignore"), Some("update_excluded"), Some("local_reference"), Some("docker_reference")]
    );
    let report = RunReport::from_scan("0.2.1", &s, empty_resolution(), Vec::new(), scan, false, false);
    assert_eq!(report.summary.skipped, 4);
    assert_eq!(report.summary.failures, 0);
    assert_eq!(report.skips[1].code, "update_excluded");
    assert_eq!(report.skips[1].line, 5);
}

#[test]
fn floating_refs_are_skipped_unless_pinning_is_asked_for() {
    let s = settings();
    let content = "jobs:\n  test:\n    steps:\n      - uses: actions/checkout@main\n      - uses: actions/cache@v4\n";
    let mut scan = ScanOutput::default();
    scan_file(&mut scan, "ci.yml", content, &s).unwrap();
    assert_eq!(skip_code(&scan.references[0], &s), Some("floating_ref_requires_opt_in"));
    assert_eq!(skip_code(&scan.references[1], &s), None);
    let mut pin = settings();
    pin.pin_floating_to_sha = true;
    assert_eq!(skip_code(&scan.references[0], &pin), None);
}

#[test]
fn summary_counts_failures_of_scan_and_resolution() {
    let s = settings();
    let mut scan = ScanOutput::default();
    scan.diagnostics.push(Diagnostic {
        file: "a".to_string(),
        line: None,
        message: "x".to_string(),
        category: DiagnosticCategory::Validation,
        code: DiagnosticCode::LocalReferenceMissing,
    });
    scan.diagnostics.push(Diagnostic {
        file: "a".to_string(),
        line: None,
        message: "y".to_string(),
        category: DiagnosticCategory::General,
        code: DiagnosticCode::MalformedReference,
    });
    let mut resolution = empty_resolution();
    resolution.diagnostics.push(Diagnostic {
        file: "b".to_string(),
        line: Some(2),
        message: "z".to_string(),
        category: DiagnosticCategory::Metadata,
        code: DiagnosticCode::MetadataLookupFailed,
    });
    resolution.updates.push(UpdateReport {
        file: "b".to_string(),
        line: 2,
        current: "v1".to_string(),
        target: Some("v2".to_string()),
        ref_span: None,
        rewrite_supported: false,
        rewrite_reason: None,
    });
    let report = RunReport::from_scan("0.2.1", &s, resolution, Vec::new(), scan, false, false);
    assert_eq!(report.summary.failures, 2);
    assert_eq!(report.summary.updates_available, 1);
    assert!(report.would_change);
    assert_eq!(report.diagnostics.len(), 3);
    assert_eq!(report.diagnostics[2].message, "z");
}

#[test]
fn human_report_lists_files_and_references() {
    let s = settings();
    let content = "jobs:\n  test:\n    steps:\n      - uses: actions/checkout@v4\n";
    let mut scan = ScanOutput::default();
    scan_file(&mut scan, "ci.yml", content, &s).unwrap();
    let report = RunReport::from_scan("0.2.1", &s, empty_resolution(), Vec::new(), scan, true, true);
    assert!(!report.color);
    assert_eq!(
        report.write_human(),
        "gh-actions-updater ok\n  scanned 1 file(s), found 1 reference(s), 0 update(s)\n\nFiles\n  scan ci.yml (Workflow, 1 ref)\n\nReferences\n  ref ci.yml:4:9 actions/checkout@v4 (RemoteAction)\n\nNo updates available.\n"
    );
}

#[test]
fn colors_follow_the_setting_and_terminals() {
    let mut s = settings();
    s.color = ColorChoice::Auto;
    let report = RunReport::from_scan("0.2.1", &s, empty_resolution(), Vec::new(), ScanOutput::default(), true, false);
    assert!(report.color);
    assert!(!report.diagnostic_color);
    s.color = ColorChoice::Always;
    let report = RunReport::from_scan("0.2.1", &s, empty_resolution(), Vec::new(), ScanOutput::default(), false, false);
    assert!(report.color && report.diagnostic_color);
    assert_eq!(report.style("x", Color::Green), "\u{1b}[32mx\u{1b}[0m");
    assert_eq!(report.style_with("x", Color::Green, false), "x");
}

#[test]
fn plural_endings() {
    assert_eq!(plural(1), "");
    assert_eq!(plural(0), "s");
    assert_eq!(plural(2), "s");
}

#[test]
fn failed_lookups_are_skipped_and_counted() {
    let s = settings();
    let mut resolution = empty_resolution();
    resolution.diagnostics.push(Diagnostic {
        file: "ci.yml".to_string(),
        line: Some(4),
        message: "GitHub REST metadata lookup failed for o/r".to_string(),
        category: DiagnosticCategory::Metadata,
        code: DiagnosticCode::MetadataLookupFailed,
    });
    let report = RunReport::from_scan("0.2.1", &s, resolution, Vec::new(), ScanOutput::default(), false, false);
    assert_eq!(report.skips.len(), 1);
    assert_eq!(report.skips[0].code, "metadata_lookup_failed");
    assert_eq!(report.skips[0].line, 4);
    assert_eq!(report.summary.skipped, 1);
    assert_eq!(report.summary.failures, 1);
}
