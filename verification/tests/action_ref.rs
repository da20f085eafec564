use gh_actions_updater::action_ref::{parse_uses, RefKind, ReferenceKind};

#[test]
fn parses_remote_action() {
    let parsed = parse_uses("actions/checkout@v4");
    assert_eq!(parsed.kind, ReferenceKind::RemoteAction);
    assert_eq!(parsed.owner.as_deref(), Some("actions"));
    assert_eq!(parsed.repo.as_deref(), Some("checkout"));
    assert_eq!(parsed.ref_name.as_deref(), Some("v4"));
    assert!(parsed.updatable);
}

#[test]
fn parses_reusable_workflow() {
    let parsed = parse_uses("octo-org/ci/.github/workflows/reuse.yml@v1");
    assert_eq!(parsed.kind, ReferenceKind::ReusableWorkflow);
    assert_eq!(parsed.path.as_deref(), Some(".github/workflows/reuse.yml"));
}

#[test]
fn classifies_local_and_docker_refs() {
    assert_eq!(parse_uses("./.github/actions/build").kind, ReferenceKind::LocalAction);
    assert_eq!(parse_uses("./.github/workflows/reuse.yml").kind, ReferenceKind::LocalWorkflow);
    assert_eq!(parse_uses("docker://alpine:3").kind, ReferenceKind::DockerImage);
}

#[test]
fn only_semver_like_remote_refs_are_default_updatable() {
    assert!(parse_uses("actions/checkout@v4.1.0").updatable);
    assert!(!parse_uses("actions/checkout@main").updatable);
    assert!(!parse_uses("actions/checkout@0123456789abcdef0123456789abcdef01234567").updatable);
    assert!(!parse_uses("actions/checkout@release-2026-05-17").updatable);
}

#[test]
fn non_remote_refs_are_inert() {
    for value in ["./local", "docker://alpine:3", "not a ref", ""] {
        let parsed = parse_uses(value);
        assert!(!parsed.updatable);
        assert_eq!(parsed.ref_kind, RefKind::NoRef);
        assert!(parsed.owner.is_none() && parsed.repo.is_none() && parsed.ref_name.is_none());
    }
}

#[test]
fn classifies_ref_kinds() {
    assert_eq!(parse_uses("a/b@v1").ref_kind, RefKind::SemverLikeTag);
    assert_eq!(parse_uses("a/b@0123456789abcdef0123456789abcdef01234567").ref_kind, RefKind::Sha);
    assert_eq!(parse_uses("a/b@main").ref_kind, RefKind::BranchOrUnknown);
    assert_eq!(parse_uses("a/b@").kind, ReferenceKind::Malformed);
    assert_eq!(parse_uses("ab@v1").kind, ReferenceKind::Malformed);
    assert_eq!(parse_uses("  a/b@v1  ").ref_name.as_deref(), Some("v1"));
}

#[test]
fn parsing_ignores_surrounding_space() {
    assert_eq!(parse_uses("  actions/checkout@v4 \t"), parse_uses("actions/checkout@v4"));
    assert_eq!(parse_uses(" ./local "), parse_uses("./local"));
}

#[test]
fn remote_parts_rebuild_the_value() {
    let p = parse_uses(" owner/repo/.github/workflows/ci.yml@v1 ");
    let rebuilt = format!(
        "{}/{}/{}@{}",
        p.owner.as_deref().unwrap(),
        p.repo.as_deref().unwrap(),
        p.path.as_deref().unwrap(),
        p.ref_name.as_deref().unwrap()
    );
    assert_eq!(rebuilt, "owner/repo/.github/workflows/ci.yml@v1");
    assert_eq!(p.kind, ReferenceKind::ReusableWorkflow);
    let q = parse_uses("actions/checkout@v4");
    assert_eq!(q.path, None);
    assert_eq!(format!("{}/{}@{}", q.owner.unwrap(), q.repo.unwrap(), q.ref_name.unwrap()), "actions/checkout@v4");
    assert_eq!(q.kind, ReferenceKind::RemoteAction);
}
