use gh_actions_updater::action_ref::ReferenceKind;
use gh_actions_updater::config::{CacheTtl, Settings};
use gh_actions_updater::cli::{ColorChoice, MissingRefPolicy, OutputFormat, PinStyle, UpdateMode};
use gh_actions_updater::scanner::{
    classify_file, find_uses_location, file_name_of, scan_content, scan_file, text_index_of, ByteSpan,
    DiagnosticCategory, DiagnosticCode, FileKind, ScanOutput,
};

fn settings() -> Settings {
    Settings {
        paths: Vec::new(),
        include_globs: Vec::new(),
        exclude: Vec::new(),
        recursive: false,
        threads: None,
        cache_dir: "cache".to_string(),
        cache_ttl: CacheTtl::Seconds(3600),
        cache_enabled: true,
        refresh_cache: false,
        update: false,
        update_mode: UpdateMode::LatestTag,
        latest_hash: false,
        pin_style: PinStyle::Preserve,
        update_exclude: Vec::new(),
        missing_ref: MissingRefPolicy::Warn,
        include_prereleases: false,
        preserve_major: true,
        check: false,
        dry_run: true,
        diff: false,
        format: OutputFormat::Json,
        quiet: false,
        verbose: false,
        color: ColorChoice::Auto,
        github_token_present: false,
        github_token: None,
        github_api_url: "https://api.github.com".to_string(),
        strict_schema: false,
        schema_validation: false,
        validate: false,
        pin_floating_to_sha: false,
    }
}

fn chars(s: &str) -> Vec<char> {
    s.chars().collect()
}

#[test]
fn scans_workflow_step_and_reusable_workflow_refs() {
    let content = r#"
jobs:
  test:
    uses: org/reuse/.github/workflows/ci.yml@v1
  build:
    steps:
      - uses: actions/checkout@v4
      - uses: docker://alpine:3
"#;
    let refs = scan_content(".github/workflows/ci.yml", FileKind::Workflow, content).unwrap();
    assert_eq!(refs.len(), 3);
    assert_eq!(refs[0].parsed.kind, ReferenceKind::ReusableWorkflow);
    assert_eq!(refs[1].parsed.kind, ReferenceKind::RemoteAction);
    assert_eq!(refs[2].parsed.kind, ReferenceKind::DockerImage);
}

#[test]
fn scans_composite_action_metadata() {
    let content = r#"
runs:
  using: composite
  steps:
    - uses: actions/setup-node@v4
"#;
    let refs = scan_content("action.yml", FileKind::ActionMetadata, content).unwrap();
    assert_eq!(refs.len(), 1);
    assert_eq!(refs[0].raw, "actions/setup-node@v4");
}

#[test]
fn skips_non_composite_action_metadata_uses() {
    let content = r#"
runs:
  using: node20
  main: dist/index.js
"#;
    let refs = scan_content("action.yml", FileKind::ActionMetadata, content).unwrap();
    assert!(refs.is_empty());
}

#[test]
fn marks_expression_refs_as_malformed() {
    let content = r#"
jobs:
  test:
    steps:
      - uses: ${{ inputs.action }}
"#;
    let refs = scan_content(".github/workflows/ci.yml", FileKind::Workflow, content).unwrap();
    assert_eq!(refs.len(), 1);
    assert_eq!(refs[0].parsed.kind, ReferenceKind::Malformed);
}

#[test]
fn ignores_unsupported_uses_locations() {
    let content = r#"
uses: top/level@v1
jobs:
  test:
    steps:
      - run: echo test
        with:
          uses: nested/data@v1
"#;
    let refs = scan_content(".github/workflows/ci.yml", FileKind::Workflow, content).unwrap();
    assert!(refs.is_empty());
}

#[test]
fn reference_locations_and_ref_spans_point_into_the_file() {
    let content = "jobs:\n  test:\n    steps:\n      - uses: actions/checkout@v4\n";
    let refs = scan_content("ci.yml", FileKind::Workflow, content).unwrap();
    assert_eq!(refs.len(), 1);
    let r = &refs[0];
    assert_eq!(r.line, 4);
    assert_eq!(r.column, 9);
    let start = content.find("v4").unwrap();
    assert_eq!(r.ref_span, Some(ByteSpan { start, end: start + 2 }));
    assert!(r.rewrite_supported);
    assert!(r.rewrite_reason.is_none());
    assert!(!r.update_ignored);
    assert_eq!(&content[start..start + 2], "v4");
}

#[test]
fn ref_spans_count_bytes_of_multibyte_text() {
    let content = "name: é\njobs:\n  test:\n    steps:\n      - uses: actions/checkout@v4 # ü\n";
    let refs = scan_content("ci.yml", FileKind::Workflow, content).unwrap();
    assert_eq!(refs.len(), 1);
    let start = content.find("v4").unwrap();
    assert_eq!(refs[0].ref_span, Some(ByteSpan { start, end: start + 2 }));
}

#[test]
fn inline_ignore_comment_marks_reference() {
    let content = "jobs:\n  test:\n    steps:\n      - uses: actions/checkout@v4 # gau: ignore\n      - uses: actions/cache@v3\n";
    let refs = scan_content("ci.yml", FileKind::Workflow, content).unwrap();
    assert_eq!(refs.len(), 2);
    assert!(refs[0].update_ignored);
    assert!(!refs[1].update_ignored);
}

#[test]
fn expression_refs_are_not_rewrite_safe() {
    let content = "jobs:\n  test:\n    steps:\n      - uses: actions/checkout@${{ env.V }}\n";
    let refs = scan_content("ci.yml", FileKind::Workflow, content).unwrap();
    assert_eq!(refs.len(), 1);
    assert!(!refs[0].rewrite_supported);
}

#[test]
fn local_and_docker_refs_are_not_rewrite_safe() {
    let content = "jobs:\n  test:\n    steps:\n      - uses: ./local/action\n      - uses: docker://alpine:3\n";
    let refs = scan_content("ci.yml", FileKind::Workflow, content).unwrap();
    assert_eq!(refs.len(), 2);
    assert!(!refs[0].rewrite_supported);
    assert!(!refs[1].rewrite_supported);
}

#[test]
fn malformed_yaml_is_an_error() {
    let content = "jobs: [unclosed\nuses: x\n";
    assert!(scan_content("ci.yml", FileKind::Workflow, content).is_err());
}

#[test]
fn content_without_uses_is_not_parsed() {
    let content = "jobs: [unclosed\n";
    assert!(scan_content("ci.yml", FileKind::Workflow, content).unwrap().is_empty());
}

#[test]
fn scan_file_records_file_and_references() {
    let mut output = ScanOutput::default();
    let content = "jobs:\n  test:\n    steps:\n      - uses: actions/checkout@v4\n";
    scan_file(&mut output, ".github/workflows/ci.yml", content, &settings()).unwrap();
    assert_eq!(output.files.len(), 1);
    assert_eq!(output.files[0].path, ".github/workflows/ci.yml");
    assert_eq!(output.files[0].kind, FileKind::Workflow);
    assert_eq!(output.files[0].references, 1);
    assert_eq!(output.references.len(), 1);
    assert!(output.diagnostics.is_empty());
}

#[test]
fn scan_file_fails_on_malformed_yaml() {
    let mut output = ScanOutput::default();
    let result = scan_file(&mut output, "ci.yml", "jobs: [unclosed\nuses: x\n", &settings());
    assert!(result.is_err());
    assert!(output.files.is_empty());
}

#[test]
fn scan_file_reports_malformed_references() {
    let mut output = ScanOutput::default();
    let content = "jobs:\n  test:\n    steps:\n      - uses: ${{ inputs.action }}\n";
    scan_file(&mut output, "ci.yml", content, &settings()).unwrap();
    assert_eq!(output.diagnostics.len(), 1);
    assert_eq!(output.diagnostics[0].category, DiagnosticCategory::General);
    assert_eq!(output.diagnostics[0].code, DiagnosticCode::MalformedReference);
    assert_eq!(output.diagnostics[0].line, Some(4));
    assert_eq!(output.diagnostics[0].message, "malformed or unsupported uses reference: ${{ inputs.action }}");
    assert_eq!(output.references.len(), 1);
}

#[test]
fn classifies_action_metadata_by_file_name() {
    assert_eq!(classify_file("action.yml"), FileKind::ActionMetadata);
    assert_eq!(classify_file("sub/dir/action.yaml"), FileKind::ActionMetadata);
    assert_eq!(classify_file(".github/workflows/action.yml.bak"), FileKind::Workflow);
    assert_eq!(classify_file(".github/workflows/ci.yml"), FileKind::Workflow);
    assert_eq!(classify_file("dir/action.yml/"), FileKind::ActionMetadata);
}

#[test]
fn file_name_follows_path_components() {
    assert_eq!(file_name_of(&chars("a/b/c.yml")), Some(chars("c.yml")));
    assert_eq!(file_name_of(&chars("a/b/")), Some(chars("b")));
    assert_eq!(file_name_of(&chars("a/b/.")), Some(chars("b")));
    assert_eq!(file_name_of(&chars("a/..")), None);
    assert_eq!(file_name_of(&chars("")), None);
}

#[test]
fn text_index_finds_first_occurrence() {
    assert_eq!(text_index_of(&chars("abcabc"), &chars("ca")), Some(2));
    assert_eq!(text_index_of(&chars("abc"), &chars("x")), None);
    assert_eq!(text_index_of(&chars("abc"), &chars("")), Some(0));
}

#[test]
fn uses_locations_advance_past_earlier_matches() {
    let lines = vec![chars("- uses: a/b@v1"), chars("- uses: a/b@v1"), chars("run: x")];
    let mut cursor: usize = 0;
    assert_eq!(find_uses_location(&lines, &chars("a/b@v1"), &mut cursor), Some(0));
    assert_eq!(find_uses_location(&lines, &chars("a/b@v1"), &mut cursor), Some(1));
    assert_eq!(find_uses_location(&lines, &chars("a/b@v1"), &mut cursor), Some(0));
    assert_eq!(find_uses_location(&lines, &chars("c/d@v1"), &mut cursor), None);
}

#[test]
fn schema_validation_reports_action_metadata_without_runs() {
    let mut s = settings();
    s.schema_validation = true;
    let mut output = ScanOutput::default();
    scan_file(&mut output, "action.yml", "name: x\n", &s).unwrap();
    assert_eq!(output.diagnostics.len(), 1);
    assert_eq!(output.diagnostics[0].category, DiagnosticCategory::Schema);
    assert_eq!(output.diagnostics[0].code.name(), "missing_runs");
    assert_eq!(output.diagnostics[0].message, "action metadata is missing a runs section");
    let mut empty = ScanOutput::default();
    scan_file(&mut empty, "ci.yml", "  \n", &s).unwrap();
    assert_eq!(empty.diagnostics[0].message, "empty GitHub Actions YAML file");
}
