use gh_actions_updater::action_ref::{parse_uses, RefKind};
use gh_actions_updater::init::{config_path, init_refusal, replace_text};
use gh_actions_updater::outcome::{
    apply_resolved_kinds, final_exit_code, stage_exit_code, FailedStage, has_metadata_failures, has_scan_failure_diagnostics, has_schema_diagnostics,
};
use gh_actions_updater::scanner::{Diagnostic, DiagnosticCategory, DiagnosticCode, ReferenceReport};

fn diagnostic(category: DiagnosticCategory) -> Diagnostic {
    let code = match category {
        DiagnosticCategory::Validation => DiagnosticCode::LocalReferenceMissing,
        DiagnosticCategory::Metadata => DiagnosticCode::MetadataLookupFailed,
        DiagnosticCategory::Schema => DiagnosticCode::EmptyFile,
        DiagnosticCategory::General => DiagnosticCode::MalformedReference,
    };
    Diagnostic { file: "ci.yml".to_string(), line: None, message: "m".to_string(), category, code }
}

fn reference(raw: &str) -> ReferenceReport {
    ReferenceReport {
        file: "ci.yml".to_string(),
        line: 1,
        column: 1,
        raw: raw.to_string(),
        parsed: parse_uses(raw),
        ref_span: None,
        rewrite_supported: false,
        rewrite_reason: None,
        update_ignored: false,
    }
}

#[test]
fn scan_failures_exit_with_three() {
    assert_eq!(final_exit_code(true, true, Some(1)), Some(3));
    assert_eq!(final_exit_code(true, false, None), Some(3));
    assert_eq!(final_exit_code(false, true, Some(1)), Some(4));
    assert_eq!(final_exit_code(false, true, None), Some(4));
    assert_eq!(final_exit_code(false, false, Some(1)), Some(1));
    assert_eq!(final_exit_code(false, false, None), None);
}

#[test]
fn diagnostic_categories_decide_failures() {
    let general = vec![diagnostic(DiagnosticCategory::General)];
    let schema = vec![diagnostic(DiagnosticCategory::Metadata), diagnostic(DiagnosticCategory::Schema)];
    assert!(!has_scan_failure_diagnostics(&general));
    assert!(!has_schema_diagnostics(&general));
    assert!(has_schema_diagnostics(&schema));
    assert!(has_scan_failure_diagnostics(&schema));
    assert!(has_scan_failure_diagnostics(&vec![diagnostic(DiagnosticCategory::Validation)]));
    assert!(has_metadata_failures(&schema));
    assert!(!has_metadata_failures(&vec![diagnostic(DiagnosticCategory::Validation)]));
}

#[test]
fn resolved_kinds_replace_the_ref_kind_of_their_reference() {
    let mut refs = vec![reference("actions/checkout@v4"), reference("actions/cache@main")];
    apply_resolved_kinds(&mut refs, &vec![(1, RefKind::Branch)]);
    assert_eq!(refs[0].parsed.ref_kind, parse_uses("actions/checkout@v4").ref_kind);
    assert_eq!(refs[1].parsed.ref_kind, RefKind::Branch);
}

#[test]
fn init_refuses_existing_file_without_force() {
    assert_eq!(
        init_refusal("x.toml", true, false),
        Some("x.toml already exists; pass --force to overwrite it".to_string())
    );
    assert_eq!(init_refusal("x.toml", true, true), None);
    assert_eq!(init_refusal("x.toml", false, false), None);
}

#[test]
fn init_path_defaults_to_project_config() {
    assert_eq!(config_path(&None), ".gh-actions-updater.toml");
    assert_eq!(config_path(&Some("a/b.toml".to_string())), "a/b.toml");
}

#[test]
fn replace_text_replaces_every_occurrence() {
    assert_eq!(replace_text("a-b-c", "-", "+"), "a+b+c");
    assert_eq!(replace_text("aaa", "aa", "b"), "ba");
    assert_eq!(replace_text("abc", "x", "y"), "abc");
}

#[test]
fn failed_stages_exit_with_their_codes() {
    for stage in [FailedStage::Init, FailedStage::Config, FailedStage::Threads, FailedStage::CacheSetup] {
        assert_eq!(stage_exit_code(stage), 2);
    }
    for stage in [FailedStage::Discovery, FailedStage::Scan, FailedStage::StrictSchema] {
        assert_eq!(stage_exit_code(stage), 3);
    }
    assert_eq!(stage_exit_code(FailedStage::Metadata), 4);
    assert_eq!(stage_exit_code(FailedStage::Rewrite), 5);
}
