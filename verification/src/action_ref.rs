//! Parsing and classification of a single `uses:` value.
use vstd::prelude::*;

use crate::text::{
    is_digit, is_hex_digit, trim, starts_with, contains, index_of, last_index_of, split, views, chars_of, trim_chars, has_prefix, has_text, string_of, rfind_char, lemma_last_index_of_bounds, slice_of, find_char, lemma_index_of_bounds, is_hex_digit_exec, is_digit_exec, split_on, lemma_trim_idempotent,
};

verus! {

/// What a `uses:` value points at.
#[derive(Debug, Clone, Copy, PartialEq, Eq, Structural)]
pub enum ReferenceKind {
    RemoteAction,
    ReusableWorkflow,
    LocalAction,
    LocalWorkflow,
    DockerImage,
    Malformed,
}

/// What the `@ref` part of a remote reference looks like.
#[derive(Debug, Clone, Copy, PartialEq, Eq, Structural)]
pub enum RefKind {
    SemverLikeTag,
    Sha,
    BranchOrUnknown,
    Branch,
    NonSemverTag,
    NoRef,
}

/// A classified `uses:` value.
#[derive(Debug, Clone, PartialEq, Eq)]
pub struct ParsedRef {
    pub kind: ReferenceKind,
    pub owner: Option<String>,
    pub repo: Option<String>,
    pub path: Option<String>,
    pub ref_name: Option<String>,
    pub ref_kind: RefKind,
    pub updatable: bool,
}

/// The mathematical content of a [`ParsedRef`].
pub struct ParsedRefView {
    pub kind: ReferenceKind,
    pub owner: Option<Seq<char>>,
    pub repo: Option<Seq<char>>,
    pub path: Option<Seq<char>>,
    pub ref_name: Option<Seq<char>>,
    pub ref_kind: RefKind,
    pub updatable: bool,
}

pub open spec fn opt_view(o: Option<String>) -> Option<Seq<char>> {
    match o {
        Some(s) => Some(s@),
        None => None,
    }
}

impl View for ParsedRef {
    type V = ParsedRefView;

    open spec fn view(&self) -> ParsedRefView {
        ParsedRefView {
            kind: self.kind,
            owner: opt_view(self.owner),
            repo: opt_view(self.repo),
            path: opt_view(self.path),
            ref_name: opt_view(self.ref_name),
            ref_kind: self.ref_kind,
            updatable: self.updatable,
        }
    }
}

pub open spec fn malformed_view() -> ParsedRefView {
    ParsedRefView {
        kind: ReferenceKind::Malformed,
        owner: None,
        repo: None,
        path: None,
        ref_name: None,
        ref_kind: RefKind::NoRef,
        updatable: false,
    }
}

pub open spec fn all_digits(s: Seq<char>) -> bool {
    forall|i: int| 0 <= i < s.len() ==> is_digit(#[trigger] s[i])
}

pub open spec fn all_hex_digits(s: Seq<char>) -> bool {
    forall|i: int| 0 <= i < s.len() ==> is_hex_digit(#[trigger] s[i])
}

/// `s` without one leading `v`, if it has one.
pub open spec fn strip_v(s: Seq<char>) -> Seq<char> {
    if s.len() > 0 && s[0] == 'v' {
        s.drop_first()
    } else {
        s
    }
}

/// One to three non-empty dot-separated runs of ASCII digits, after an optional `v`.
pub open spec fn semver_like(r: Seq<char>) -> bool {
    let parts = split(strip_v(r), '.');
    &&& parts.len() <= 3
    &&& forall|i: int| 0 <= i < parts.len() ==> (#[trigger] parts[i]).len() > 0 && all_digits(parts[i])
}

/// A full commit SHA: exactly forty hexadecimal digits.
pub open spec fn is_sha(r: Seq<char>) -> bool {
    r.len() == 40 && all_hex_digits(r)
}

pub open spec fn ref_kind_of(r: Seq<char>) -> RefKind {
    if is_sha(r) {
        RefKind::Sha
    } else if semver_like(r) {
        RefKind::SemverLikeTag
    } else {
        RefKind::BranchOrUnknown
    }
}

/// The reference a `uses:` value denotes.
///
/// Local paths (`./`, `../`) and `docker://` images are taken whole; anything
/// else must read `owner/repo[/path]@ref`, split at the last `@`.
pub open spec fn parse_uses_spec(value: Seq<char>) -> ParsedRefView {
    let t = trim(value);
    if t.len() == 0 {
        malformed_view()
    } else if starts_with(t, "./"@) || starts_with(t, "../"@) {
        ParsedRefView {
            kind: if contains(t, ".github/workflows/"@) {
                ReferenceKind::LocalWorkflow
            } else {
                ReferenceKind::LocalAction
            },
            owner: None,
            repo: None,
            path: Some(t),
            ref_name: None,
            ref_kind: RefKind::NoRef,
            updatable: false,
        }
    } else if starts_with(t, "docker://"@) {
        ParsedRefView {
            kind: ReferenceKind::DockerImage,
            owner: None,
            repo: None,
            path: Some(t),
            ref_name: None,
            ref_kind: RefKind::NoRef,
            updatable: false,
        }
    } else {
        match last_index_of(t, '@') {
            None => malformed_view(),
            Some(at) => {
                let target = t.take(at);
                let r = t.skip(at + 1);
                match index_of(target, '/') {
                    None => malformed_view(),
                    Some(i) => {
                        let owner = target.take(i);
                        let after = target.skip(i + 1);
                        let (repo, rest) = match index_of(after, '/') {
                            None => (after, Seq::<char>::empty()),
                            Some(j) => (after.take(j), after.skip(j + 1)),
                        };
                        if owner.len() == 0 || repo.len() == 0 || r.len() == 0 {
                            malformed_view()
                        } else {
                            ParsedRefView {
                                kind: if starts_with(rest, ".github/workflows/"@) {
                                    ReferenceKind::ReusableWorkflow
                                } else {
                                    ReferenceKind::RemoteAction
                                },
                                owner: Some(owner),
                                repo: Some(repo),
                                path: if rest.len() == 0 { None } else { Some(rest) },
                                ref_name: Some(r),
                                ref_kind: ref_kind_of(r),
                                updatable: ref_kind_of(r) == RefKind::SemverLikeTag,
                            }
                        }
                    },
                }
            },
        }
    }
}

/// Parses and classifies a `uses:` value.
pub fn parse_uses(value: &str) -> (parsed: ParsedRef)
    ensures
        parsed@ == parse_uses_spec(value@),
{
    let all = chars_of(value);
    let t = trim_chars(&all);
    if t.len() == 0 {
        return malformed();
    }
    let dot_slash = chars_of("./");
    let dot_dot_slash = chars_of("../");
    if has_prefix(&t, &dot_slash) || has_prefix(&t, &dot_dot_slash) {
        let workflows = chars_of(".github/workflows/");
        let kind = if has_text(&t, &workflows) {
            ReferenceKind::LocalWorkflow
        } else {
            ReferenceKind::LocalAction
        };
        return ParsedRef {
            kind,
            owner: None,
            repo: None,
            path: Some(string_of(&t)),
            ref_name: None,
            ref_kind: RefKind::NoRef,
            updatable: false,
        };
    }
    let docker = chars_of("docker://");
    if has_prefix(&t, &docker) {
        return ParsedRef {
            kind: ReferenceKind::DockerImage,
            owner: None,
            repo: None,
            path: Some(string_of(&t)),
            ref_name: None,
            ref_kind: RefKind::NoRef,
            updatable: false,
        };
    }
    let at = match rfind_char(&t, '@') {
        Some(at) => at,
        None => return malformed(),
    };
    proof { lemma_last_index_of_bounds(t@, '@'); }
    let target = slice_of(&t, 0, at);
    let r = slice_of(&t, at + 1, t.len());
    assert(target@ == t@.take(at as int));
    assert(r@ == t@.skip(at + 1));
    let i = match find_char(&target, '/') {
        Some(i) => i,
        None => return malformed(),
    };
    proof { lemma_index_of_bounds(target@, '/'); }
    let owner = slice_of(&target, 0, i);
    let after = slice_of(&target, i + 1, target.len());
    assert(owner@ == target@.take(i as int));
    assert(after@ == target@.skip(i + 1));
    let (repo, rest) = match find_char(&after, '/') {
        None => (after.clone(), Vec::new()),
        Some(j) => {
            proof { lemma_index_of_bounds(after@, '/'); }
            let repo = slice_of(&after, 0, j);
            let rest = slice_of(&after, j + 1, after.len());
            assert(repo@ == after@.take(j as int));
            assert(rest@ == after@.skip(j + 1));
            (repo, rest)
        },
    };
    assert(rest@ == (match index_of(after@, '/') {
        None => Seq::<char>::empty(),
        Some(j) => after@.skip(j + 1),
    }));
    if owner.len() == 0 || repo.len() == 0 || r.len() == 0 {
        return malformed();
    }
    let workflows = chars_of(".github/workflows/");
    let kind = if has_prefix(&rest, &workflows) {
        ReferenceKind::ReusableWorkflow
    } else {
        ReferenceKind::RemoteAction
    };
    let ref_kind = classify_ref(&r);
    ParsedRef {
        kind,
        owner: Some(string_of(&owner)),
        repo: Some(string_of(&repo)),
        path: if rest.len() == 0 { None } else { Some(string_of(&rest)) },
        ref_name: Some(string_of(&r)),
        updatable: ref_kind == RefKind::SemverLikeTag,
        ref_kind,
    }
}

fn malformed() -> (parsed: ParsedRef)
    ensures
        parsed@ == malformed_view(),
{
    ParsedRef {
        kind: ReferenceKind::Malformed,
        owner: None,
        repo: None,
        path: None,
        ref_name: None,
        ref_kind: RefKind::NoRef,
        updatable: false,
    }
}

fn classify_ref(ref_name: &[char]) -> (kind: RefKind)
    ensures
        kind == ref_kind_of(ref_name@),
{
    if ref_name.len() == 40 && all_hex(ref_name) {
        return RefKind::Sha;
    }
    if is_semver_like(ref_name) {
        return RefKind::SemverLikeTag;
    }
    RefKind::BranchOrUnknown
}

fn all_hex(s: &[char]) -> (r: bool)
    ensures
        r == all_hex_digits(s@),
{
    let mut i: usize = 0;
    while i < s.len()
        invariant
            i <= s.len(),
            forall|j: int| 0 <= j < i ==> is_hex_digit(#[trigger] s@[j]),
        decreases s.len() - i,
    {
        if !is_hex_digit_exec(s[i]) {
            return false;
        }
        i = i + 1;
    }
    true
}

pub fn all_digit_chars(s: &[char]) -> (r: bool)
    ensures
        r == all_digits(s@),
{
    let mut i: usize = 0;
    while i < s.len()
        invariant
            i <= s.len(),
            forall|j: int| 0 <= j < i ==> is_digit(#[trigger] s@[j]),
        decreases s.len() - i,
    {
        if !is_digit_exec(s[i]) {
            return false;
        }
        i = i + 1;
    }
    true
}

/// `s` without one leading `v`.
pub fn strip_v_exec(s: &[char]) -> (out: Vec<char>)
    ensures
        out@ == strip_v(s@),
{
    if s.len() > 0 && s[0] == 'v' {
        slice_of(s, 1, s.len())
    } else {
        slice_of(s, 0, s.len())
    }
}

fn is_semver_like(ref_name: &[char]) -> (r: bool)
    ensures
        r == semver_like(ref_name@),
{
    let version = strip_v_exec(ref_name);
    let parts = split_on(&version, '.');
    assert(views(parts@).len() == parts@.len());
    if parts.len() > 3 {
        assert(split(strip_v(ref_name@), '.').len() > 3);
        return false;
    }
    let mut i: usize = 0;
    while i < parts.len()
        invariant
            i <= parts.len(),
            views(parts@) == split(version@, '.'),
            version@ == strip_v(ref_name@),
            views(parts@).len() == parts@.len(),
            parts@.len() <= 3,
            forall|j: int| 0 <= j < i ==> (#[trigger] views(parts@)[j]).len() > 0 && all_digits(views(parts@)[j]),
        decreases parts.len() - i,
    {
        assert(views(parts@)[i as int] == parts@[i as int]@);
        if parts[i].len() == 0 || !all_digit_chars(&parts[i]) {
            assert(!((split(strip_v(ref_name@), '.')[i as int]).len() > 0
                && all_digits(split(strip_v(ref_name@), '.')[i as int])));
            return false;
        }
        i = i + 1;
    }
    true
}

/// A local path, Docker image or malformed value is never updatable, has no
/// owner, repository or ref, and has no ref kind.
pub proof fn law_non_remote_refs_are_inert(value: Seq<char>)
    ensures
        ({
            let p = parse_uses_spec(value);
            p.kind != ReferenceKind::RemoteAction && p.kind != ReferenceKind::ReusableWorkflow
                ==> !p.updatable && p.ref_kind == RefKind::NoRef && p.owner is None
                && p.repo is None && p.ref_name is None
        }),
{
}

/// Only semver-like remote refs are updatable by default: branches, SHAs and
/// other tags are reported but not updated.
pub proof fn law_only_semver_like_refs_are_updatable(value: Seq<char>)
    ensures
        parse_uses_spec(value).updatable <==> parse_uses_spec(value).ref_kind
            == RefKind::SemverLikeTag,
        parse_uses_spec(value).updatable ==> parse_uses_spec(value).ref_name is Some
            && semver_like(parse_uses_spec(value).ref_name->0)
            && !is_sha(parse_uses_spec(value).ref_name->0),
{
}

/// A remote reference always carries a non-empty owner, repository and ref.
pub proof fn law_remote_refs_are_complete(value: Seq<char>)
    ensures
        ({
            let p = parse_uses_spec(value);
            p.kind == ReferenceKind::RemoteAction || p.kind == ReferenceKind::ReusableWorkflow
                ==> {
                &&& p.owner is Some && p.owner->0.len() > 0
                &&& p.repo is Some && p.repo->0.len() > 0
                &&& p.ref_name is Some && p.ref_name->0.len() > 0
                &&& p.ref_kind == ref_kind_of(p.ref_name->0)
            }
        }),
{
}

/// Parsing reads the trimmed value only: a value and its trimmed form parse
/// alike.
pub proof fn law_parse_ignores_surrounding_space(value: Seq<char>)
    ensures
        parse_uses_spec(trim(value)) == parse_uses_spec(value),
{
    lemma_trim_idempotent(value);
}

/// A remote reference is its parts put back together: the trimmed value is
/// `owner/repo`, then `/path` when it has a path, then `@ref` (with no path,
/// a lone `/` may stand after the repository); and it is a reusable
/// workflow exactly when its path starts with `.github/workflows/`.
pub proof fn law_remote_ref_rebuilds_value(value: Seq<char>)
    ensures
        ({
            let p = parse_uses_spec(value);
            let t = trim(value);
            p.kind == ReferenceKind::RemoteAction || p.kind == ReferenceKind::ReusableWorkflow ==> {
                &&& p.path is Some ==> t == p.owner->0 + "/"@ + p.repo->0 + "/"@ + p.path->0 + "@"@ + p.ref_name->0
                &&& p.path is None ==> (t == p.owner->0 + "/"@ + p.repo->0 + "@"@ + p.ref_name->0
                    || t == p.owner->0 + "/"@ + p.repo->0 + "/@"@ + p.ref_name->0)
                &&& (p.kind == ReferenceKind::ReusableWorkflow <==> (p.path is Some && starts_with(
                    p.path->0,
                    ".github/workflows/"@,
                )))
            }
        }),
{
    reveal_strlit("/");
    reveal_strlit("@");
    reveal_strlit("/@");
    reveal_strlit(".github/workflows/");
    let p = parse_uses_spec(value);
    let t = trim(value);
    if p.kind == ReferenceKind::RemoteAction || p.kind == ReferenceKind::ReusableWorkflow {
        lemma_last_index_of_bounds(t, '@');
        let at = last_index_of(t, '@')->0;
        let target = t.take(at);
        let r = t.skip(at + 1);
        assert(t =~= target + "@"@ + r);
        lemma_index_of_bounds(target, '/');
        let i = index_of(target, '/')->0;
        let owner = target.take(i);
        let after = target.skip(i + 1);
        assert(target =~= owner + "/"@ + after);
        lemma_index_of_bounds(after, '/');
        match index_of(after, '/') {
            None => {
                assert(t =~= owner + "/"@ + after + "@"@ + r);
            },
            Some(j) => {
                let repo = after.take(j);
                let rest = after.skip(j + 1);
                assert(after =~= repo + "/"@ + rest);
                if rest.len() == 0 {
                    assert(t =~= owner + "/"@ + repo + "/@"@ + r);
                } else {
                    assert(t =~= owner + "/"@ + repo + "/"@ + rest + "@"@ + r);
                }
            },
        }
    }
}

/// A leading `v` is optional in a version ref: a ref that is not a full
/// commit SHA and does not start with `v` classifies as the same ref with a
/// `v` in front, so `2.31.1` is a semver-like tag exactly as `v2.31.1` is.
pub proof fn law_leading_v_is_optional(r: Seq<char>)
    requires
        !is_sha(r),
        r.len() == 0 || r[0] != 'v',
    ensures
        ref_kind_of(r) == ref_kind_of(seq!['v'] + r),
{
    let vr = seq!['v'] + r;
    assert(vr[0] == 'v');
    assert(vr.drop_first() =~= r);
    assert(!is_hex_digit(vr[0]));
    assert(!is_sha(vr));
}

/// A ref of one to three non-empty runs of ASCII digits separated by dots,
/// with or without a leading `v`, that is not a full commit SHA, is a
/// semver-like tag, and a remote reference with that ref is updatable.
pub proof fn law_numeric_refs_are_semver_like(r: Seq<char>)
    requires
        !is_sha(r),
        1 <= split(strip_v(r), '.').len() <= 3,
        forall|i: int| 0 <= i < split(strip_v(r), '.').len() ==> (#[trigger] split(strip_v(r), '.')[i]).len() > 0
            && forall|k: int| 0 <= k < split(strip_v(r), '.')[i].len() ==> '0' <= #[trigger] split(strip_v(r), '.')[i][k] <= '9',
    ensures
        ref_kind_of(r) == RefKind::SemverLikeTag,
        ref_kind_of(seq!['v'] + r) == RefKind::SemverLikeTag || (r.len() > 0 && r[0] == 'v'),
{
    assert forall|i: int| 0 <= i < split(strip_v(r), '.').len() implies (#[trigger] split(strip_v(r), '.')[i]).len() > 0
        && all_digits(split(strip_v(r), '.')[i]) by {
        assert forall|k: int| 0 <= k < split(strip_v(r), '.')[i].len() implies is_digit(#[trigger] split(strip_v(r), '.')[i][k]) by {
            assert('0' <= split(strip_v(r), '.')[i][k] <= '9');
        }
    }
    if r.len() == 0 || r[0] != 'v' {
        law_leading_v_is_optional(r);
    }
}

} // verus!
