//! Choosing the update target of one semver-like or SHA reference.
use vstd::prelude::*;

use crate::action_ref::{opt_view, RefKind};
use crate::cli::{MissingRefPolicy, PinStyle};
use crate::config::{eq_ignore_ascii_case, eq_ignore_ascii_case_exec, Settings};
use crate::metadata::{
    halted_as,
    ask_branch_spec, ask_commit_spec, tag_views, Flow, Halt, MetadataAnswer, RemoteTag, RemoteTagView, Replay, ResState,
};
use crate::scanner::ReferenceReport;
use crate::semver_api::{semver_compare, semver_order, SemVersion, VersionView};
use crate::text::{chars_of, message2, message3, same, string_of};
use crate::versions::{
    format_pin_style, latest_semver_tag, newest_tag, opt_tag_view, parse_version_ref, parse_version_tag, pinned_ref, version_of, version_ref_of, VersionPrecision,
};

verus! {

/// The update target chosen for one reference, whether its current ref is
/// missing upstream, and a message to report.
#[derive(Debug)]
pub struct TargetDecision {
    pub target: Option<RemoteTag>,
    pub current_missing: bool,
    pub diagnostic: Option<String>,
}

pub struct DecisionView {
    pub target: Option<RemoteTagView>,
    pub current_missing: bool,
    pub diagnostic: Option<Seq<char>>,
}

impl View for TargetDecision {
    type V = DecisionView;

    open spec fn view(&self) -> DecisionView {
        DecisionView {
            target: opt_tag_view(self.target),
            current_missing: self.current_missing,
            diagnostic: opt_view(self.diagnostic),
        }
    }
}

pub open spec fn opt_chars(o: Option<Vec<char>>) -> Option<Seq<char>> {
    match o {
        Some(v) => Some(v@),
        None => None,
    }
}

pub open spec fn no_decision() -> DecisionView {
    DecisionView { target: None, current_missing: false, diagnostic: None }
}

/// The first tag called `name`.
pub open spec fn first_named(tags: Seq<RemoteTagView>, name: Seq<char>) -> Option<RemoteTagView>
    decreases tags.len(),
{
    if tags.len() == 0 {
        None
    } else if tags[0].name == name {
        Some(tags[0])
    } else {
        first_named(tags.drop_first(), name)
    }
}

proof fn lemma_first_named(tags: Seq<RemoteTagView>, name: Seq<char>, i: int)
    requires
        0 <= i <= tags.len(),
        forall|j: int| 0 <= j < i ==> tags[j].name != name,
    ensures
        i < tags.len() && tags[i].name == name ==> first_named(tags, name) == Some(tags[i]),
        i == tags.len() ==> first_named(tags, name) is None,
    decreases i,
{
    if i > 0 {
        assert forall|j: int| 0 <= j < i - 1 implies tags.drop_first()[j].name != name by {
            assert(tags.drop_first()[j] == tags[j + 1]);
        }
        lemma_first_named(tags.drop_first(), name, i - 1);
        if i < tags.len() {
            assert(tags.drop_first()[i - 1] == tags[i]);
        }
    }
}

/// The index of the first tag called `name`.
pub fn find_named(tags: &[RemoteTag], name: &[char]) -> (r: Option<usize>)
    ensures
        r matches Some(i) ==> i < tags@.len() && first_named(tag_views(tags@), name@)
            == Some(tags@[i as int]@),
        r is None ==> first_named(tag_views(tags@), name@) is None,
{
    let ghost tv = tag_views(tags@);
    let mut i: usize = 0;
    while i < tags.len()
        invariant
            i <= tags.len(),
            tv == tag_views(tags@),
            forall|j: int| 0 <= j < i ==> tv[j].name != name@,
        decreases tags.len() - i,
    {
        let n = chars_of(tags[i].name.as_str());
        if same(&n, name) {
            proof { lemma_first_named(tv, name@, i as int); }
            return Some(i);
        }
        i = i + 1;
    }
    proof { lemma_first_named(tv, name@, i as int); }
    None
}

pub open spec fn owner_of(r: ReferenceReport) -> Seq<char> {
    match r.parsed.owner {
        Some(o) => o@,
        None => Seq::empty(),
    }
}

pub open spec fn repo_of(r: ReferenceReport) -> Seq<char> {
    match r.parsed.repo {
        Some(o) => o@,
        None => Seq::empty(),
    }
}

/// The major version updates stay within: the current one with
/// `preserve_major`, any otherwise.
pub open spec fn major_bound(s: Settings, major: u64) -> Option<u64> {
    if s.preserve_major { Some(major) } else { None }
}

/// The newest candidate tag (in the current major version with
/// `preserve_major`), and, for a full version, only if it is strictly newer
/// than the current one.
pub open spec fn bounded_latest(s: Settings, cv: VersionView, cp: VersionPrecision, tags: Seq<RemoteTagView>) -> Option<RemoteTagView> {
    let l = newest_tag(s.include_prereleases, major_bound(s, cv.major), tags);
    if cp != VersionPrecision::Full {
        l
    } else {
        match l {
            Some(t) => match version_of(t.name) {
                Some(tv) => if semver_order(tv, cv) == 1 { l } else { None },
                None => None,
            },
            None => None,
        }
    }
}

pub open spec fn pin_target(s: Settings, current: Seq<char>, cp: VersionPrecision, latest: Option<RemoteTagView>) -> Option<Seq<char>> {
    match latest {
        Some(t) => Some(pinned_ref(s.pin_style, current, cp, t.name)),
        None => None,
    }
}

/// A floating ref whose target differs from it, or any ref whose target is
/// itself, counts as resolved even when its tag is missing.
pub open spec fn floating_resolved(current: Seq<char>, cp: VersionPrecision, target: Option<Seq<char>>) -> bool {
    (cp != VersionPrecision::Full && target is Some && target->0 != current) || target == Some(current)
}

pub open spec fn final_decision(target: Option<Seq<char>>, latest: Option<RemoteTagView>, missing: bool, diag: Option<Seq<char>>) -> DecisionView {
    DecisionView {
        target: match target {
            Some(t) => Some(RemoteTagView {
                name: t,
                sha: match latest {
                    Some(l) => l.sha,
                    None => Seq::empty(),
                },
            }),
            None => None,
        },
        current_missing: missing,
        diagnostic: diag,
    }
}

pub open spec fn missing_target_message(target: Seq<char>) -> Seq<char> {
    "pin-style target does not exist as a tag or branch: "@ + target
}

/// The decision for a semver-like ref once its own existence is settled.
pub open spec fn select_tag_rest(
    s: Settings,
    answers: Seq<MetadataAnswer>,
    st: ResState,
    r: ReferenceReport,
    current: Seq<char>,
    cv: VersionView,
    cp: VersionPrecision,
    tags: Seq<RemoteTagView>,
    exists: bool,
    diag: Option<Seq<char>>,
) -> Flow<DecisionView> {
    let latest = bounded_latest(s, cv, cp, tags);
    let target = pin_target(s, current, cp, latest);
    let resolved = floating_resolved(current, cp, target);
    if s.latest_hash && !exists && cp != VersionPrecision::Full && target == Some(current) {
        Flow::Go(DecisionView { target: None, current_missing: false, diagnostic: diag }, st)
    } else if !exists && !resolved && s.missing_ref != MissingRefPolicy::Fallback {
        Flow::Go(DecisionView { target: None, current_missing: true, diagnostic: diag }, st)
    } else if target is Some && latest is Some && target->0 != current && target->0 != latest->0.name
        && first_named(tags, target->0) is None {
        match ask_branch_spec(answers, st, owner_of(r), repo_of(r), target->0) {
            Flow::Stop(h) => Flow::Stop(h),
            Flow::Go(b, st1) => {
                let diag2 = if b.warning is Some { b.warning } else { diag };
                if b.sha is None {
                    Flow::Go(DecisionView {
                        target: None,
                        current_missing: false,
                        diagnostic: if diag2 is Some { diag2 } else { Some(missing_target_message(target->0)) },
                    }, st1)
                } else {
                    Flow::Go(final_decision(target, latest, !exists && !resolved, diag2), st1)
                }
            },
        }
    } else {
        Flow::Go(final_decision(target, latest, !exists && !resolved, diag), st)
    }
}

/// The tag-mode decision for a semver-like ref: keep an existing floating ref
/// in preserve style while majors are preserved; treat a missing ref that is
/// an existing branch as settled; otherwise pick the newest tag (of the same
/// major version with `preserve_major`; for a full version, only a strictly
/// newer one) in the requested pin style.
pub open spec fn select_tag_spec(
    s: Settings,
    answers: Seq<MetadataAnswer>,
    st: ResState,
    r: ReferenceReport,
    current: Seq<char>,
    tags: Seq<RemoteTagView>,
) -> Flow<DecisionView> {
    match version_ref_of(current) {
        None => Flow::Go(no_decision(), st),
        Some(cr) => {
            let exists = first_named(tags, current) is Some;
            if exists && s.pin_style == PinStyle::Preserve && cr.1 != VersionPrecision::Full && s.preserve_major {
                Flow::Go(DecisionView { target: first_named(tags, current), current_missing: false, diagnostic: None }, st)
            } else if !exists {
                match ask_branch_spec(answers, st, owner_of(r), repo_of(r), current) {
                    Flow::Stop(h) => Flow::Stop(h),
                    Flow::Go(b, st1) => if b.sha is Some {
                        Flow::Go(DecisionView { target: None, current_missing: false, diagnostic: b.warning }, st1)
                    } else {
                        select_tag_rest(s, answers, st1, r, current, cr.0, cr.1, tags, exists, b.warning)
                    },
                }
            } else {
                select_tag_rest(s, answers, st, r, current, cr.0, cr.1, tags, exists, None)
            }
        },
    }
}

pub fn ref_owner(r: &ReferenceReport) -> (o: String)
    ensures
        o@ == owner_of(*r),
{
    match &r.parsed.owner {
        Some(o) => o.clone(),
        None => String::new(),
    }
}

pub fn ref_repo(r: &ReferenceReport) -> (o: String)
    ensures
        o@ == repo_of(*r),
{
    match &r.parsed.repo {
        Some(o) => o.clone(),
        None => String::new(),
    }
}

fn opt_clone(o: &Option<String>) -> (r: Option<String>)
    ensures
        opt_view(r) == opt_view(*o),
{
    match o {
        Some(s) => Some(s.clone()),
        None => None,
    }
}

/// Chooses the tag-mode update target of a semver-like ref.
pub fn select_tag_update_target(
    settings: &Settings,
    rp: &mut Replay,
    answers: &[MetadataAnswer],
    reference: &ReferenceReport,
    current: &[char],
    tags: &[RemoteTag],
) -> (r: Result<TargetDecision, Halt>)
    requires
        old(rp).pos <= answers@.len(),
    ensures
        match select_tag_spec(*settings, answers@, old(rp)@, *reference, current@, tag_views(tags@)) {
            Flow::Go(d, st) => r matches Ok(x) && x@ == d && final(rp)@ == st,
            Flow::Stop(h) => r matches Err(e) && halted_as(e, h, final(rp)@),
        },
        final(rp).pos <= answers@.len(),
        final(rp).pos >= old(rp).pos,
        final(rp).memo == old(rp).memo,
{
    let ghost tv = tag_views(tags@);
    let current_ref = match parse_version_ref(current) {
        Some(c) => c,
        None => return Ok(TargetDecision { target: None, current_missing: false, diagnostic: None }),
    };
    let found = find_named(tags, current);
    let current_exists = found.is_some();
    if current_exists && settings.pin_style == PinStyle::Preserve && current_ref.precision != VersionPrecision::Full
        && settings.preserve_major {
        let i = found.unwrap();
        return Ok(TargetDecision { target: Some(tags[i].duplicate()), current_missing: false, diagnostic: None });
    }
    let owner = ref_owner(reference);
    let repo = ref_repo(reference);
    let mut diagnostic: Option<String> = None;
    if !current_exists {
        let branch = rp.ask_branch(answers, &owner, &repo, current)?;
        diagnostic = opt_clone(&branch.warning);
        if branch.sha.is_some() {
            return Ok(TargetDecision { target: None, current_missing: false, diagnostic });
        }
    }
    let ghost st_mid = rp@;
    let bound = if settings.preserve_major { Some(current_ref.version.major()) } else { None };
    let latest0 = latest_semver_tag(settings, tags, bound);
    let latest = if current_ref.precision != VersionPrecision::Full {
        latest0
    } else {
        match latest0 {
            Some(t) => {
                let name = chars_of(t.name.as_str());
                match parse_version_tag(&name) {
                    Some(tv_version) => if semver_compare(&tv_version, &current_ref.version) == 1 {
                        Some(t)
                    } else {
                        None
                    },
                    None => None,
                }
            },
            None => None,
        }
    };
    let target: Option<Vec<char>> = match &latest {
        Some(t) => Some(format_pin_style(settings.pin_style, current, &current_ref, t)),
        None => None,
    };
    assert(opt_tag_view(latest) == bounded_latest(*settings, current_ref.version@, current_ref.precision, tv));
    let ghost tgt = opt_chars(target);
    assert(tgt == pin_target(*settings, current@, current_ref.precision, opt_tag_view(latest)));
    let target_is_current = match &target {
        Some(t) => same(t, current),
        None => false,
    };
    let resolved = (current_ref.precision != VersionPrecision::Full && target.is_some() && !target_is_current)
        || target_is_current;
    assert(resolved == floating_resolved(current@, current_ref.precision, tgt));
    if settings.latest_hash && !current_exists && current_ref.precision != VersionPrecision::Full && target_is_current {
        return Ok(TargetDecision { target: None, current_missing: false, diagnostic });
    }
    if !current_exists && !resolved && settings.missing_ref != MissingRefPolicy::Fallback {
        return Ok(TargetDecision { target: None, current_missing: true, diagnostic });
    }
    let needs_check = match (&target, &latest) {
        (Some(t), Some(l)) => {
            let lname = chars_of(l.name.as_str());
            !same(t, current) && !same(t, &lname) && find_named(tags, t).is_none()
        },
        _ => false,
    };
    if needs_check {
        let t = target.as_ref().unwrap();
        let branch = rp.ask_branch(answers, &owner, &repo, t)?;
        if branch.warning.is_some() {
            diagnostic = opt_clone(&branch.warning);
        }
        if branch.sha.is_none() {
            let d = match diagnostic {
                Some(d) => Some(d),
                None => Some(message2("pin-style target does not exist as a tag or branch: ", t)),
            };
            return Ok(TargetDecision { target: None, current_missing: false, diagnostic: d });
        }
    }
    let out_target = match target {
        Some(t) => Some(RemoteTag {
            name: string_of(&t),
            sha: match &latest {
                Some(l) => l.sha.clone(),
                None => String::new(),
            },
        }),
        None => None,
    };
    Ok(TargetDecision { target: out_target, current_missing: !current_exists && !resolved, diagnostic })
}

/// The newest eligible version among the tags of the first `n` whose commit is
/// `current` (up to ASCII case).
pub open spec fn sha_version_among(include_prereleases: bool, current: Seq<char>, tags: Seq<RemoteTagView>, n: int) -> Option<VersionView>
    decreases n,
{
    if n <= 0 {
        None
    } else {
        let prev = sha_version_among(include_prereleases, current, tags, n - 1);
        if eq_ignore_ascii_case(tags[n - 1].sha, current) {
            match version_of(tags[n - 1].name) {
                Some(v) => if include_prereleases || v.pre.len() == 0 {
                    match prev {
                        None => Some(v),
                        Some(b) => if semver_order(b, v) == 1 { prev } else { Some(v) },
                    }
                } else {
                    prev
                },
                None => prev,
            }
        } else {
            prev
        }
    }
}

pub open spec fn sha_version(include_prereleases: bool, current: Seq<char>, tags: Seq<RemoteTagView>) -> Option<VersionView> {
    sha_version_among(include_prereleases, current, tags, tags.len() as int)
}

pub open spec fn cannot_infer_message(current: Seq<char>) -> Seq<char> {
    "cannot infer semver major for pinned SHA "@ + current + "; use preserve_major = false to allow latest-hash updates"@
}

pub open spec fn no_sha_message(name: Seq<char>) -> Seq<char> {
    "selected tag has no commit SHA metadata: "@ + name
}

/// The hash-mode decision: for a semver-like ref the tag-mode target, which
/// must carry a commit; for a SHA, the newest tag, of the major version of
/// the tags at that SHA with `preserve_major` (which a SHA at no tag cannot
/// give), of any major otherwise.
pub open spec fn select_hash_spec(
    s: Settings,
    answers: Seq<MetadataAnswer>,
    st: ResState,
    r: ReferenceReport,
    current: Seq<char>,
    tags: Seq<RemoteTagView>,
) -> Flow<DecisionView> {
    match r.parsed.ref_kind {
        RefKind::SemverLikeTag => match select_tag_spec(s, answers, st, r, current, tags) {
            Flow::Stop(h) => Flow::Stop(h),
            Flow::Go(d, st1) => if d.target is Some && d.target->0.sha.len() == 0 {
                Flow::Go(DecisionView {
                    target: None,
                    current_missing: d.current_missing,
                    diagnostic: Some(no_sha_message(d.target->0.name)),
                }, st1)
            } else {
                Flow::Go(d, st1)
            },
        },
        RefKind::Sha => {
            let ctv = sha_version(s.include_prereleases, current, tags);
            let f = if ctv is Some {
                Flow::Go(true, st)
            } else {
                ask_commit_spec(answers, st, owner_of(r), repo_of(r), current)
            };
            match f {
                Flow::Stop(h) => Flow::Stop(h),
                Flow::Go(exists, st1) => if !exists && s.missing_ref != MissingRefPolicy::Fallback {
                    Flow::Go(DecisionView { target: None, current_missing: true, diagnostic: None }, st1)
                } else if s.preserve_major && ctv is None {
                    Flow::Go(DecisionView {
                        target: None,
                        current_missing: !exists,
                        diagnostic: Some(cannot_infer_message(current)),
                    }, st1)
                } else {
                    Flow::Go(DecisionView {
                        target: newest_tag(s.include_prereleases, match ctv {
                            Some(v) => major_bound(s, v.major),
                            None => None,
                        }, tags),
                        current_missing: !exists,
                        diagnostic: None,
                    }, st1)
                },
            }
        },
        _ => Flow::Go(no_decision(), st),
    }
}

/// The newest eligible version among the tags whose commit is `current`.
fn current_tag_version(settings: &Settings, tags: &[RemoteTag], current: &[char]) -> (r: Option<SemVersion>)
    ensures
        r matches Some(v) ==> sha_version(settings.include_prereleases, current@, tag_views(tags@)) == Some(v@),
        r is None ==> sha_version(settings.include_prereleases, current@, tag_views(tags@)) is None,
{
    let ghost tv = tag_views(tags@);
    let mut best: Option<SemVersion> = None;
    let mut i: usize = 0;
    while i < tags.len()
        invariant
            i <= tags.len(),
            tv == tag_views(tags@),
            tv.len() == tags@.len(),
            match best {
                Some(b) => sha_version_among(settings.include_prereleases, current@, tv, i as int) == Some(b@),
                None => sha_version_among(settings.include_prereleases, current@, tv, i as int) is None,
            },
        decreases tags.len() - i,
    {
        assert(tv[i as int] == tags@[i as int]@);
        let sha = chars_of(tags[i].sha.as_str());
        if eq_ignore_ascii_case_exec(&sha, current) {
            let name = chars_of(tags[i].name.as_str());
            match parse_version_tag(&name) {
                Some(v) => {
                    if settings.include_prereleases || v.is_release() {
                        best = match best {
                            None => Some(v),
                            Some(b) => if semver_compare(&b, &v) == 1 { Some(b) } else { Some(v) },
                        };
                    }
                },
                None => {},
            }
        }
        i = i + 1;
    }
    best
}

/// Chooses the hash-mode update target of a semver-like or SHA ref.
pub fn select_hash_update_target(
    settings: &Settings,
    rp: &mut Replay,
    answers: &[MetadataAnswer],
    reference: &ReferenceReport,
    current: &[char],
    tags: &[RemoteTag],
) -> (r: Result<TargetDecision, Halt>)
    requires
        old(rp).pos <= answers@.len(),
    ensures
        match select_hash_spec(*settings, answers@, old(rp)@, *reference, current@, tag_views(tags@)) {
            Flow::Go(d, st) => r matches Ok(x) && x@ == d && final(rp)@ == st,
            Flow::Stop(h) => r matches Err(e) && halted_as(e, h, final(rp)@),
        },
        final(rp).pos <= answers@.len(),
        final(rp).pos >= old(rp).pos,
        final(rp).memo == old(rp).memo,
{
    match reference.parsed.ref_kind {
        RefKind::SemverLikeTag => {
            let mut decision = select_tag_update_target(settings, rp, answers, reference, current, tags)?;
            let no_sha = match &decision.target {
                Some(t) => t.sha.as_str().is_empty(),
                None => false,
            };
            if no_sha {
                let name = chars_of(decision.target.as_ref().unwrap().name.as_str());
                decision.target = None;
                decision.diagnostic = Some(message2("selected tag has no commit SHA metadata: ", &name));
            }
            Ok(decision)
        },
        RefKind::Sha => {
            let ctv = current_tag_version(settings, tags, current);
            let current_exists = if ctv.is_some() {
                true
            } else {
                let owner = ref_owner(reference);
                let repo = ref_repo(reference);
                rp.ask_commit(answers, &owner, &repo, current)?
            };
            if !current_exists && settings.missing_ref != MissingRefPolicy::Fallback {
                return Ok(TargetDecision { target: None, current_missing: true, diagnostic: None });
            }
            if settings.preserve_major && ctv.is_none() {
                return Ok(TargetDecision {
                    target: None,
                    current_missing: !current_exists,
                    diagnostic: Some(message3(
                        "cannot infer semver major for pinned SHA ",
                        current,
                        "; use preserve_major = false to allow latest-hash updates",
                    )),
                });
            }
            let major = match &ctv {
                Some(v) => if settings.preserve_major { Some(v.major()) } else { None },
                None => None,
            };
            Ok(TargetDecision {
                target: latest_semver_tag(settings, tags, major),
                current_missing: !current_exists,
                diagnostic: None,
            })
        },
        _ => Ok(TargetDecision { target: None, current_missing: false, diagnostic: None }),
    }
}

} // verus!
