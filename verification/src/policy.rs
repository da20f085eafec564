//! What resolution promises about the updates it proposes.
use vstd::prelude::*;

use crate::action_ref::RefKind;
use crate::config::Settings;
use crate::metadata::{
    ask_branch_spec, ask_commit_spec, ask_local_spec, back_spec, classify_spec, excluded_spec, front_spec,
    handle_missing_spec, hash_target, is_remote, load_repo_tags_spec, lookup_failure_at, process_ref_spec, process_ref_steps,
    resolve_spec, run_spec, untargeted_spec, validate_local_spec, validate_remote_spec, Flow, MetadataAnswer,
    HaltView, RemoteTagView, ResState, StepView,
};
use crate::cli::{Cli, MissingRefPolicy, UpdateMode};
use crate::config::{resolved, Environment, FileConfig};
use crate::metadata::exit_code_spec;
use crate::outcome::final_exit_spec;
use crate::rewrite::{file_write, ReplacementView};
use crate::scanner::DiagnosticView;
use crate::report::UpdateView;
use crate::scanner::ReferenceReport;
use crate::select::{select_hash_spec, select_tag_rest, select_tag_spec, DecisionView};
use crate::semver_api::VersionView;
use crate::text::string_views;
use crate::globs::{first_invalid, globset_builds};
use crate::versions::VersionPrecision;

verus! {

/// The step proposed no update and recorded no ref kind, whether it went on
/// or gave up on a failed lookup.
pub open spec fn keeps_updates<T>(st: ResState, f: Flow<T>) -> bool {
    match f {
        Flow::Go(_, st1) => st1.updates == st.updates && st1.kinds == st.kinds,
        Flow::Stop(HaltView::Lookup(_, st1)) => st1.updates == st.updates && st1.kinds == st.kinds,
        Flow::Stop(_) => true,
    }
}

/// An update changes the ref: it has a target, and the target differs from
/// the current ref.
pub open spec fn changes_ref(u: UpdateView) -> bool {
    u.target is Some && u.target->0 != u.current
}

/// `st1` holds the updates of `st` and at most one more, which changes its ref.
pub open spec fn adds_sound_update(st: ResState, st1: ResState) -> bool {
    st1.updates == st.updates || (st1.updates.len() == st.updates.len() + 1
        && st1.updates.drop_last() == st.updates && changes_ref(st1.updates.last()))
}

/// A ref kind that floats: it may move upstream without its name changing.
pub open spec fn floating_kind(k: RefKind) -> bool {
    k == RefKind::Branch || k == RefKind::BranchOrUnknown || k == RefKind::NonSemverTag
}

proof fn lemma_asks_keep(answers: Seq<MetadataAnswer>, st: ResState, a: Seq<char>, b: Seq<char>, c: Seq<char>)
    ensures
        keeps_updates(st, ask_branch_spec(answers, st, a, b, c)),
        keeps_updates(st, ask_commit_spec(answers, st, a, b, c)),
        keeps_updates(st, ask_local_spec(answers, st, a, b)),
        keeps_updates(st, load_repo_tags_spec(answers, st, a, b)),
{
}

proof fn lemma_missing_keeps(s: Settings, st: ResState, r: ReferenceReport)
    ensures
        keeps_updates(st, handle_missing_spec(s, st, r)),
{
}

/// `k` records the classification of the unknown ref of the reference at
/// `idx`: a branch or a non-semver tag.
pub open spec fn kind_record_of(k: (usize, RefKind), idx: usize, r: ReferenceReport) -> bool {
    &&& k.0 == idx
    &&& r.parsed.ref_kind == RefKind::BranchOrUnknown
    &&& (k.1 == RefKind::Branch || k.1 == RefKind::NonSemverTag)
}

/// The kind records of `st1` are those of `st` and at most one more, for the
/// reference at `idx`.
pub open spec fn records_kind(st: ResState, st1: ResState, idx: usize, r: ReferenceReport) -> bool {
    st1.kinds == st.kinds || (st1.kinds.len() == st.kinds.len() + 1 && st1.kinds.drop_last() == st.kinds
        && kind_record_of(st1.kinds.last(), idx, r))
}

/// The step proposed no update and recorded at most the kind of the
/// reference at `idx`, whether it went on or gave up on a failed lookup.
pub open spec fn front_step<T>(st: ResState, f: Flow<T>, idx: usize, r: ReferenceReport) -> bool {
    match f {
        Flow::Go(_, st1) => st1.updates == st.updates && records_kind(st, st1, idx, r),
        Flow::Stop(HaltView::Lookup(_, st1)) => st1.updates == st.updates && records_kind(st, st1, idx, r),
        Flow::Stop(_) => true,
    }
}

proof fn lemma_classify_records(
    s: Settings,
    answers: Seq<MetadataAnswer>,
    st: ResState,
    idx: usize,
    r: ReferenceReport,
    owner: Seq<char>,
    repo: Seq<char>,
    current: Seq<char>,
    tags: Seq<RemoteTagView>,
)
    ensures
        front_step(st, classify_spec(s, answers, st, idx, r, owner, repo, current, tags), idx, r),
{
    lemma_asks_keep(answers, st, owner, repo, current);
    assert forall|st1: ResState, k: RefKind| k == RefKind::Branch || k == RefKind::NonSemverTag
        implies #[trigger] crate::metadata::with_kind(st1, idx, k).kinds.drop_last() == st1.kinds by {
        assert(crate::metadata::with_kind(st1, idx, k).kinds.drop_last() =~= st1.kinds);
    }
}

proof fn lemma_front_keeps(
    s: Settings,
    answers: Seq<MetadataAnswer>,
    st: ResState,
    idx: usize,
    r: ReferenceReport,
    owner: Seq<char>,
    repo: Seq<char>,
    current: Seq<char>,
    excluded: bool,
)
    ensures
        front_step(st, front_spec(s, answers, st, idx, r, owner, repo, current, excluded), idx, r),
        front_spec(s, answers, st, idx, r, owner, repo, current, excluded) matches Flow::Go(c, _) ==> (
            if floating_kind(r.parsed.ref_kind) { floating_kind(c.0) } else { c.0 == r.parsed.ref_kind }),
{
    let kind = r.parsed.ref_kind;
    lemma_asks_keep(answers, st, owner, repo, current);
    match load_repo_tags_spec(answers, st, owner, repo) {
        Flow::Stop(_) => {},
        Flow::Go(ti, st1) => {
            let st2 = match crate::metadata::warning_at(answers, ti as int) {
                Some(w) => crate::metadata::with_diag(st1, crate::metadata::diag_at(r, crate::scanner::DiagnosticCode::StaleMetadata, w)),
                None => st1,
            };
            let tags = crate::metadata::tags_at(answers, ti as int);
            lemma_asks_keep(answers, st2, owner, repo, current);
            lemma_classify_records(s, answers, st2, idx, r, owner, repo, current, tags);
            match classify_spec(s, answers, st2, idx, r, owner, repo, current, tags) {
                Flow::Stop(_) => {},
                Flow::Go(c, st3) => {
                    lemma_asks_keep(answers, st3, owner, repo, current);
                    lemma_missing_keeps(s, st3, r);
                    match crate::metadata::ask_commit_spec(answers, st3, owner, repo, current) {
                        Flow::Go(_, st4) => lemma_missing_keeps(s, st4, r),
                        Flow::Stop(_) => {},
                    }
                    assert(keeps_updates(st3, validate_remote_spec(s, answers, st3, r, owner, repo, current, tags, c.0, c.1)));
                },
            }
        },
    }
}

proof fn lemma_select_tag_keeps(
    s: Settings,
    answers: Seq<MetadataAnswer>,
    st: ResState,
    r: ReferenceReport,
    current: Seq<char>,
    tags: Seq<RemoteTagView>,
)
    ensures
        keeps_updates(st, select_tag_spec(s, answers, st, r, current, tags)),
{
    let owner = crate::select::owner_of(r);
    let repo = crate::select::repo_of(r);
    lemma_asks_keep(answers, st, owner, repo, current);
    match crate::versions::version_ref_of(current) {
        None => {},
        Some(cr) => {
            let exists = crate::select::first_named(tags, current) is Some;
            match ask_branch_spec(answers, st, owner, repo, current) {
                Flow::Go(_, st1) => lemma_rest_keeps(s, answers, st1, r, current, cr.0, cr.1, tags, exists),
                Flow::Stop(_) => {},
            }
            lemma_rest_keeps(s, answers, st, r, current, cr.0, cr.1, tags, exists);
        },
    }
}

proof fn lemma_rest_keeps(
    s: Settings,
    answers: Seq<MetadataAnswer>,
    st: ResState,
    r: ReferenceReport,
    current: Seq<char>,
    cv: VersionView,
    cp: VersionPrecision,
    tags: Seq<RemoteTagView>,
    exists: bool,
)
    ensures
        forall|diag: Option<Seq<char>>| keeps_updates(st, #[trigger] select_tag_rest(s, answers, st, r, current, cv, cp, tags, exists, diag)),
{
    let owner = crate::select::owner_of(r);
    let repo = crate::select::repo_of(r);
    assert forall|diag: Option<Seq<char>>| keeps_updates(st, #[trigger] select_tag_rest(s, answers, st, r, current, cv, cp, tags, exists, diag)) by {
        let latest = crate::select::bounded_latest(s, cv, cp, tags);
        let target = crate::select::pin_target(s, current, cp, latest);
        if target is Some {
            lemma_asks_keep(answers, st, owner, repo, target->0);
        }
    }
}

proof fn lemma_select_hash_keeps(
    s: Settings,
    answers: Seq<MetadataAnswer>,
    st: ResState,
    r: ReferenceReport,
    current: Seq<char>,
    tags: Seq<RemoteTagView>,
)
    ensures
        keeps_updates(st, select_hash_spec(s, answers, st, r, current, tags)),
{
    lemma_select_tag_keeps(s, answers, st, r, current, tags);
    lemma_asks_keep(answers, st, crate::select::owner_of(r), crate::select::repo_of(r), current);
}

proof fn lemma_untargeted_keeps(s: Settings, st: ResState, r: ReferenceReport, d: DecisionView)
    ensures
        keeps_updates(st, untargeted_spec(s, st, r, d)),
{
    lemma_missing_keeps(s, st, r);
}

proof fn lemma_update_sound(st: ResState, u: UpdateView)
    requires
        changes_ref(u),
    ensures
        adds_sound_update(st, crate::metadata::with_update(st, u)),
{
    assert(st.updates.push(u).drop_last() =~= st.updates);
}

proof fn lemma_back_sound(
    s: Settings,
    answers: Seq<MetadataAnswer>,
    st: ResState,
    r: ReferenceReport,
    owner: Seq<char>,
    repo: Seq<char>,
    current: Seq<char>,
    eff: RefKind,
    csha: Option<Seq<char>>,
)
    ensures
        back_spec(s, answers, st, r, owner, repo, current, eff, csha) matches Flow::Go(_, st1) ==> {
            &&& adds_sound_update(st, st1)
            &&& (!s.pin_floating_to_sha && floating_kind(eff)) ==> st1.updates == st.updates
            &&& (!hash_target(s, eff) && eff == RefKind::Sha) ==> st1.updates == st.updates
            &&& (eff == RefKind::NoRef) ==> st1.updates == st.updates
            &&& st1.kinds == st.kinds
            &&& st1.updates != st.updates ==> {
                let u = st1.updates.last();
                u.file == r.file@ && u.line == r.line && u.current == current
            }
        },
        back_spec(s, answers, st, r, owner, repo, current, eff, csha) matches Flow::Stop(HaltView::Lookup(_, st1)) ==> (
            st1.updates == st.updates && st1.kinds == st.kinds),
{
    let floating = eff == RefKind::Branch || eff == RefKind::NonSemverTag;
    let update_candidate = if s.pin_floating_to_sha && floating {
        csha is Some
    } else {
        eff == RefKind::SemverLikeTag || eff == RefKind::Sha
    };
    let hash = hash_target(s, eff);
    let sha_advisory = !hash && !s.pin_floating_to_sha && eff == RefKind::Sha;
    let semver_update = !s.pin_floating_to_sha && !sha_advisory && (eff == RefKind::SemverLikeTag || (hash
        && eff == RefKind::Sha));
    let tags = crate::metadata::memo_tags(answers, st, owner, repo);
    if !update_candidate && !sha_advisory {
    } else if s.pin_floating_to_sha && floating {
        match csha {
            Some(sha) => if sha != current {
                lemma_update_sound(st, crate::metadata::update_at(r, current, sha));
            },
            None => {},
        }
    } else if sha_advisory {
        lemma_select_hash_keeps(s, answers, st, r, current, tags);
        match select_hash_spec(s, answers, st, r, current, tags) {
            Flow::Go(d, st1) => {
                let st2 = match d.target {
                    Some(t) => if t.sha.len() > 0 && !crate::config::eq_ignore_ascii_case(t.sha, current) {
                        crate::metadata::with_diag(st1, crate::metadata::diag_at(r, crate::scanner::DiagnosticCode::ShaUpdateAvailable, crate::metadata::advisory_message(current, t)))
                    } else {
                        st1
                    },
                    None => st1,
                };
                lemma_missing_keeps(s, st2, r);
            },
            Flow::Stop(_) => {},
        }
    } else if !semver_update {
    } else {
        let sel = if hash {
            select_hash_spec(s, answers, st, r, current, tags)
        } else {
            select_tag_spec(s, answers, st, r, current, tags)
        };
        lemma_select_tag_keeps(s, answers, st, r, current, tags);
        lemma_select_hash_keeps(s, answers, st, r, current, tags);
        match sel {
            Flow::Go(d, st1) => match d.target {
                None => lemma_untargeted_keeps(s, st1, r, d),
                Some(t) => {
                    let target_ref = if hash { t.sha } else { t.name };
                    if target_ref != current && (!d.current_missing || s.missing_ref == MissingRefPolicy::Fallback) {
                        lemma_update_sound(st1, crate::metadata::update_at(r, current, target_ref));
                    }
                },
            },
            Flow::Stop(_) => {},
        }
    }
}

/// `u` is an update proposed for `r`: `r` is a remote action or workflow
/// that names its owner, repository and ref, is neither ignored inline nor
/// excluded by configuration, and `u` stands at its file and line, starts
/// from its ref and changes it.
pub open spec fn update_of(u: UpdateView, r: ReferenceReport, globs: Seq<Seq<char>>) -> bool {
    &&& is_remote(r)
    &&& r.parsed.owner is Some && r.parsed.repo is Some && r.parsed.ref_name is Some
    &&& !excluded_spec(r, globs, r.parsed.owner->0@, r.parsed.repo->0@)
    &&& u.file == r.file@
    &&& u.line == r.line
    &&& u.current == r.parsed.ref_name->0@
    &&& changes_ref(u)
}

/// One reference adds at most one update, and only one proposed for it that
/// changes its ref; it records at most the classification of its own
/// unknown ref. A reference that is not a remote action or workflow, that
/// is ignored inline or excluded by configuration, whose ref floats (a
/// branch, a non-semver tag, or unknown) while `--pin-floating-to-sha` is
/// off, or that is pinned to a SHA while neither `--latest-hash` nor
/// `--latest` is on, adds none.
pub proof fn law_one_reference_updates(
    s: Settings,
    globs: Seq<Seq<char>>,
    answers: Seq<MetadataAnswer>,
    st: ResState,
    idx: usize,
    r: ReferenceReport,
)
    ensures
        process_ref_spec(s, globs, answers, st, idx, r) matches Flow::Go(_, st1) ==> {
            &&& adds_sound_update(st, st1)
            &&& !is_remote(r) ==> st1.updates == st.updates
            &&& r.update_ignored ==> st1.updates == st.updates
            &&& (r.parsed.owner is Some && r.parsed.repo is Some && excluded_spec(r, globs, r.parsed.owner->0@, r.parsed.repo->0@))
                ==> st1.updates == st.updates
            &&& (!s.pin_floating_to_sha && floating_kind(r.parsed.ref_kind)) ==> st1.updates == st.updates
            &&& (!hash_target(s, r.parsed.ref_kind) && r.parsed.ref_kind == RefKind::Sha) ==> st1.updates == st.updates
            &&& st1.updates != st.updates ==> update_of(st1.updates.last(), r, globs)
            &&& records_kind(st, st1, idx, r)
        },
{
    if !is_remote(r) {
        lemma_asks_keep(answers, st, r.file@, match r.parsed.path {
            Some(p) => p@,
            None => Seq::empty(),
        }, Seq::empty());
        assert(keeps_updates(st, validate_local_spec(answers, st, r)));
    } else if r.parsed.owner is Some && r.parsed.repo is Some && r.parsed.ref_name is Some {
        let owner = r.parsed.owner->0@;
        let repo = r.parsed.repo->0@;
        let current = r.parsed.ref_name->0@;
        let excluded = excluded_spec(r, globs, owner, repo);
        lemma_front_keeps(s, answers, st, idx, r, owner, repo, current, excluded);
        match front_spec(s, answers, st, idx, r, owner, repo, current, excluded) {
            Flow::Go(c, st1) => {
                lemma_back_sound(s, answers, st1, r, owner, repo, current, c.0, c.1);
            },
            Flow::Stop(_) => {},
        }
    }
}

/// `--latest` keeps each pin's representation. A SHA pin is resolved the
/// hash way: when the hash-mode decision names a tag whose commit is not the
/// pin, the pin is updated to that commit. A semver-like tag pin is resolved
/// the tag way: when the tag-mode decision names a tag other than the pin,
/// the pin is updated to that tag's name. (Settings resolved for `--latest`
/// never have `--latest-hash` on.)
pub proof fn law_latest_keeps_representation(
    s: Settings,
    answers: Seq<MetadataAnswer>,
    st: ResState,
    r: ReferenceReport,
    owner: Seq<char>,
    repo: Seq<char>,
    current: Seq<char>,
    eff: RefKind,
    csha: Option<Seq<char>>,
)
    requires
        s.update_mode == UpdateMode::Latest,
        !s.latest_hash,
        !s.pin_floating_to_sha,
    ensures
        eff == RefKind::Sha ==> hash_target(s, eff),
        eff == RefKind::SemverLikeTag ==> !hash_target(s, eff),
        eff == RefKind::Sha ==> match select_hash_spec(s, answers, st, r, current, crate::metadata::memo_tags(answers, st, owner, repo)) {
            Flow::Go(d, st1) => (d.target is Some && d.target->0.sha != current && !d.current_missing) ==> back_spec(
                s, answers, st, r, owner, repo, current, eff, csha,
            ) == Flow::Go((), crate::metadata::with_update(st1, crate::metadata::update_at(r, current, d.target->0.sha))),
            Flow::Stop(h) => back_spec(s, answers, st, r, owner, repo, current, eff, csha) == Flow::<()>::Stop(h),
        },
        eff == RefKind::SemverLikeTag ==> match select_tag_spec(s, answers, st, r, current, crate::metadata::memo_tags(answers, st, owner, repo)) {
            Flow::Go(d, st1) => (d.target is Some && d.target->0.name != current && !d.current_missing) ==> back_spec(
                s, answers, st, r, owner, repo, current, eff, csha,
            ) == Flow::Go((), crate::metadata::with_update(st1, crate::metadata::update_at(r, current, d.target->0.name))),
            Flow::Stop(h) => back_spec(s, answers, st, r, owner, repo, current, eff, csha) == Flow::<()>::Stop(h),
        },
{
}

/// Every update that resolving the first `n` references proposes changes its ref.
pub proof fn law_run_updates_change_refs(
    s: Settings,
    globs: Seq<Seq<char>>,
    answers: Seq<MetadataAnswer>,
    refs: Seq<ReferenceReport>,
    n: int,
)
    requires
        n <= refs.len(),
    ensures
        run_spec(s, globs, answers, refs, n) matches Flow::Go(_, st) ==> forall|i: int| 0 <= i < st.updates.len() ==> changes_ref(
            #[trigger] st.updates[i],
        ),
    decreases n,
{
    if n > 0 {
        law_run_updates_change_refs(s, globs, answers, refs, n - 1);
        match run_spec(s, globs, answers, refs, n - 1) {
            Flow::Go(_, st) => {
                law_one_reference_updates(s, globs, answers, st, (n - 1) as usize, refs[n - 1]);
                match process_ref_spec(s, globs, answers, st, (n - 1) as usize, refs[n - 1]) {
                    Flow::Go(_, st1) => {
                        if st1.updates != st.updates {
                            assert forall|i: int| 0 <= i < st1.updates.len() implies changes_ref(#[trigger] st1.updates[i]) by {
                                if i < st.updates.len() {
                                    assert(st1.updates[i] == st1.updates.drop_last()[i]);
                                }
                            }
                        }
                    },
                    Flow::Stop(_) => {},
                }
            },
            Flow::Stop(_) => {},
        }
    }
}

/// `src` names, for each update, the index among the first `n` references of
/// the reference it is proposed for; the indexes rise strictly.
pub open spec fn update_sources(
    updates: Seq<UpdateView>,
    refs: Seq<ReferenceReport>,
    globs: Seq<Seq<char>>,
    n: int,
    src: Seq<int>,
) -> bool {
    &&& src.len() == updates.len()
    &&& forall|j: int| 0 <= j < src.len() ==> 0 <= #[trigger] src[j] < n && update_of(updates[j], refs[src[j]], globs)
    &&& forall|j: int, k: int| 0 <= j < k < src.len() ==> #[trigger] src[j] < #[trigger] src[k]
}

/// Every kind record of `kinds` classifies the unknown ref of one of the
/// first `n` references, at its index, as a branch or a non-semver tag.
pub open spec fn kinds_of_references(kinds: Seq<(usize, RefKind)>, refs: Seq<ReferenceReport>, n: int) -> bool {
    forall|j: int| 0 <= j < kinds.len() ==> (#[trigger] kinds[j]).0 < n && kind_record_of(kinds[j], kinds[j].0, refs[kinds[j].0 as int])
}

/// Each update of resolving the first `n` references is proposed for one of
/// them (at its file and line, from its ref, which it changes; a remote one
/// that is neither ignored nor excluded), each for a different one, in the
/// order of the references; and each recorded ref kind classifies the
/// unknown ref of one of them.
pub proof fn law_run_updates_follow_references(
    s: Settings,
    globs: Seq<Seq<char>>,
    answers: Seq<MetadataAnswer>,
    refs: Seq<ReferenceReport>,
    n: int,
)
    requires
        0 <= n <= refs.len(),
        refs.len() <= usize::MAX,
    ensures
        run_spec(s, globs, answers, refs, n) matches Flow::Go(_, st) ==> {
            &&& exists|src: Seq<int>| #[trigger] update_sources(st.updates, refs, globs, n, src)
            &&& kinds_of_references(st.kinds, refs, n)
        },
    decreases n,
{
    if n == 0 {
        assert(update_sources(Seq::empty(), refs, globs, 0, Seq::empty()));
    } else {
        law_run_updates_follow_references(s, globs, answers, refs, n - 1);
        match run_spec(s, globs, answers, refs, n - 1) {
            Flow::Go(_, st) => {
                let r = refs[n - 1];
                let idx = (n - 1) as usize;
                law_one_reference_updates(s, globs, answers, st, idx, r);
                let src = choose|src: Seq<int>| #[trigger] update_sources(st.updates, refs, globs, n - 1, src);
                match process_ref_spec(s, globs, answers, st, idx, r) {
                    Flow::Go(_, st1) => {
                        if st1.updates == st.updates {
                            assert(update_sources(st1.updates, refs, globs, n, src));
                        } else {
                            let src1 = src.push(n - 1);
                            assert forall|j: int| 0 <= j < src1.len() implies 0 <= #[trigger] src1[j] < n
                                && update_of(st1.updates[j], refs[src1[j]], globs) by {
                                if j < src.len() {
                                    assert(st1.updates[j] == st1.updates.drop_last()[j]);
                                }
                            }
                            assert(update_sources(st1.updates, refs, globs, n, src1));
                        }
                        assert forall|j: int| 0 <= j < st1.kinds.len() implies (#[trigger] st1.kinds[j]).0 < n
                            && kind_record_of(st1.kinds[j], st1.kinds[j].0, refs[st1.kinds[j].0 as int]) by {
                            if j < st.kinds.len() {
                                assert(st1.kinds[j] == st.kinds[j]) by {
                                    if st1.kinds != st.kinds {
                                        assert(st1.kinds[j] == st1.kinds.drop_last()[j]);
                                    }
                                }
                            } else {
                                assert(st1.kinds[j] == st1.kinds.last());
                                assert(idx as int == n - 1);
                            }
                        }
                    },
                    Flow::Stop(_) => {},
                }
            },
            Flow::Stop(_) => {},
        }
    }
}

/// Each update of a completed resolution is proposed for one of the
/// references, each for a different one, in the order of the references;
/// each recorded ref kind classifies the unknown ref of one of them.
pub proof fn law_resolved_updates_follow_references(s: Settings, answers: Seq<MetadataAnswer>, refs: Seq<ReferenceReport>)
    requires
        refs.len() <= usize::MAX,
    ensures
        resolve_spec(s, answers, refs) matches StepView::Done(_, _, kinds) ==> kinds_of_references(kinds, refs, refs.len() as int),
        resolve_spec(s, answers, refs) is Done ==> exists|src: Seq<int>| #[trigger] update_sources(
            resolve_spec(s, answers, refs)->Done_0,
            refs,
            string_views(s.update_exclude@),
            refs.len() as int,
            src,
        ),
{
    let globs = string_views(s.update_exclude@);
    law_run_updates_follow_references(s, globs, answers, refs, refs.len() as int);
    match run_spec(s, globs, answers, refs, refs.len() as int) {
        Flow::Go(_, st) => {
            let src = choose|src: Seq<int>| #[trigger] update_sources(st.updates, refs, globs, refs.len() as int, src);
            assert(update_sources(st.updates, refs, globs, refs.len() as int, src));
            assert(resolve_spec(s, answers, refs) is Done ==> resolve_spec(s, answers, refs)->Done_0 == st.updates);
        },
        Flow::Stop(_) => {},
    }
}

/// Resolution skips the reference without looking anything up: it is not a
/// remote action or workflow, it is ignored inline or excluded by
/// configuration, or its ref floats while `--pin-floating-to-sha` is off.
pub open spec fn skipped_reference(s: Settings, globs: Seq<Seq<char>>, r: ReferenceReport) -> bool {
    ||| !is_remote(r)
    ||| r.update_ignored
    ||| (r.parsed.owner is Some && r.parsed.repo is Some && excluded_spec(r, globs, r.parsed.owner->0@, r.parsed.repo->0@))
    ||| (!s.pin_floating_to_sha && floating_kind(r.parsed.ref_kind))
}

/// Without `--validate`, a skipped reference asks for no metadata: it leaves
/// the resolution state as it found it, using no answer and proposing,
/// reporting and recording nothing.
pub proof fn law_skipped_reference_asks_nothing(
    s: Settings,
    globs: Seq<Seq<char>>,
    answers: Seq<MetadataAnswer>,
    st: ResState,
    idx: usize,
    r: ReferenceReport,
)
    requires
        !s.validate,
        skipped_reference(s, globs, r),
    ensures
        process_ref_spec(s, globs, answers, st, idx, r) == Flow::Go((), st),
{
}

/// Without `--validate`, resolving references that are all skipped asks for
/// no metadata at all: with no answers it is already done, and it proposes,
/// reports and records nothing.
pub proof fn law_skipped_references_need_no_lookup(s: Settings, answers: Seq<MetadataAnswer>, refs: Seq<ReferenceReport>)
    requires
        !s.validate,
        forall|i: int| 0 <= i < refs.len() ==> skipped_reference(s, string_views(s.update_exclude@), #[trigger] refs[i]),
    ensures
        !(resolve_spec(s, answers, refs) is Need),
        resolve_spec(s, answers, refs) matches StepView::Done(updates, diags, kinds) ==> updates.len() == 0 && diags.len() == 0
            && kinds.len() == 0,
{
    lemma_skipped_run(s, string_views(s.update_exclude@), answers, refs, refs.len() as int);
}

proof fn lemma_skipped_run(s: Settings, globs: Seq<Seq<char>>, answers: Seq<MetadataAnswer>, refs: Seq<ReferenceReport>, n: int)
    requires
        !s.validate,
        n <= refs.len(),
        forall|i: int| 0 <= i < refs.len() ==> skipped_reference(s, globs, #[trigger] refs[i]),
    ensures
        run_spec(s, globs, answers, refs, n) == Flow::Go((), crate::metadata::initial_state()),
    decreases n,
{
    if n > 0 {
        lemma_skipped_run(s, globs, answers, refs, n - 1);
        assert(skipped_reference(s, globs, refs[n - 1]));
        law_skipped_reference_asks_nothing(s, globs, answers, crate::metadata::initial_state(), (n - 1) as usize, refs[n - 1]);
    }
}

/// Every update of a completed resolution changes its reference's ref: an
/// update never rewrites a ref to itself.
pub proof fn law_resolved_updates_change_refs(s: Settings, answers: Seq<MetadataAnswer>, refs: Seq<ReferenceReport>)
    ensures
        resolve_spec(s, answers, refs) matches StepView::Done(updates, _, _) ==> forall|i: int| 0 <= i < updates.len() ==> changes_ref(
            #[trigger] updates[i],
        ),
{
    law_run_updates_change_refs(s, string_views(s.update_exclude@), answers, refs, refs.len() as int);
}

/// With `--validate`, a remote ref that names nothing upstream falls under the
/// missing-ref policy: a ref still unknown after classification (no tag and
/// no branch of that name), a tag ref that no upstream tag names, or a branch
/// without a head commit. Under `warn` that adds the diagnostic `remote ref no
/// longer exists: <raw>` at the reference and nothing else.
pub proof fn law_validate_flags_refs_missing_upstream(
    s: Settings,
    answers: Seq<MetadataAnswer>,
    st: ResState,
    r: ReferenceReport,
    owner: Seq<char>,
    repo: Seq<char>,
    current: Seq<char>,
    tags: Seq<RemoteTagView>,
    eff: RefKind,
    csha: Option<Seq<char>>,
)
    requires
        s.validate,
        ({
            ||| eff == RefKind::BranchOrUnknown
            ||| ((eff == RefKind::SemverLikeTag || eff == RefKind::NonSemverTag) && forall|k: int| 0 <= k < tags.len()
                ==> #[trigger] tags[k].name != current)
            ||| (eff == RefKind::Branch && csha is None)
        }),
    ensures
        validate_remote_spec(s, answers, st, r, owner, repo, current, tags, eff, csha) == handle_missing_spec(s, st, r),
        s.missing_ref == MissingRefPolicy::Warn ==> validate_remote_spec(s, answers, st, r, owner, repo, current, tags, eff, csha)
            == Flow::Go((), ResState {
            diags: st.diags.push(DiagnosticView {
                file: r.file@,
                line: Some(r.line),
                message: "remote ref no longer exists: "@ + r.raw@,
                category: crate::scanner::DiagnosticCategory::General,
                code: crate::scanner::DiagnosticCode::RemoteRefMissing,
            }),
            ..st
        }),
{
    if eff == RefKind::SemverLikeTag || eff == RefKind::NonSemverTag {
        lemma_no_tag_named(tags, current);
    }
}

proof fn lemma_no_tag_named(tags: Seq<RemoteTagView>, name: Seq<char>)
    requires
        forall|k: int| 0 <= k < tags.len() ==> #[trigger] tags[k].name != name,
    ensures
        crate::select::first_named(tags, name) is None,
    decreases tags.len(),
{
    if tags.len() > 0 {
        assert forall|k: int| 0 <= k < tags.drop_first().len() implies #[trigger] tags.drop_first()[k].name != name by {
            assert(tags.drop_first()[k] == tags[k + 1]);
        }
        lemma_no_tag_named(tags.drop_first(), name);
    }
}

/// With the `ignore` policy a missing ref is passed over silently.
pub proof fn law_ignore_policy_is_silent(s: Settings, st: ResState, r: ReferenceReport)
    requires
        s.missing_ref == MissingRefPolicy::Ignore,
    ensures
        handle_missing_spec(s, st, r) == Flow::Go((), st),
{
}

/// With the `error` policy a missing ref fails a run that is not a check;
/// with `warn` or `fallback` it is reported and the run goes on.
pub proof fn law_missing_ref_policies(s: Settings, st: ResState, r: ReferenceReport)
    ensures
        s.missing_ref == MissingRefPolicy::Error && !s.check ==> handle_missing_spec(s, st, r) is Stop,
        (s.missing_ref == MissingRefPolicy::Warn || s.missing_ref == MissingRefPolicy::Fallback
            || (s.missing_ref == MissingRefPolicy::Error && s.check)) ==> (handle_missing_spec(s, st, r) matches Flow::Go(_, st1)
            && st1.diags == st.diags.push(crate::metadata::diag_at(r, crate::scanner::DiagnosticCode::RemoteRefMissing, crate::metadata::missing_ref_message(r)))),
{
}

proof fn lemma_newest_among(incl: bool, major: Option<u64>, tags: Seq<RemoteTagView>, n: int)
    requires
        n <= tags.len(),
    ensures
        crate::versions::newest_among(incl, major, tags, n) matches Some(best) ==> exists|k: int|
            0 <= k < n && tags[k] == best.0 && #[trigger] crate::versions::candidate_version(incl, major, tags[k].name) == Some(best.1),
    decreases n,
{
    if n > 0 {
        lemma_newest_among(incl, major, tags, n - 1);
        match crate::versions::candidate_version(incl, major, tags[n - 1].name) {
            Some(v) => {
                assert(crate::versions::candidate_version(incl, major, tags[n - 1].name) == Some(v));
            },
            None => {},
        }
    }
}

/// A tag-mode target is one of the repository's tags, of the current major
/// version when majors are preserved, a stable release unless prereleases
/// are included, and, for a fully pinned current version, strictly newer
/// than it.
pub proof fn law_tag_target_candidates(s: Settings, cv: VersionView, cp: VersionPrecision, tags: Seq<RemoteTagView>)
    ensures
        crate::select::bounded_latest(s, cv, cp, tags) matches Some(t) ==> {
            &&& tags.contains(t)
            &&& crate::versions::version_of(t.name) is Some
            &&& (s.preserve_major ==> crate::versions::version_of(t.name)->0.major == cv.major)
            &&& (s.include_prereleases || crate::versions::version_of(t.name)->0.pre.len() == 0)
            &&& (cp == VersionPrecision::Full ==> crate::semver_api::semver_order(crate::versions::version_of(t.name)->0, cv) == 1)
        },
{
    let bound = crate::select::major_bound(s, cv.major);
    lemma_newest_among(s.include_prereleases, bound, tags, tags.len() as int);
    match crate::versions::newest_among(s.include_prereleases, bound, tags, tags.len() as int) {
        Some(best) => {
            let k = choose|k: int| 0 <= k < tags.len() && tags[k] == best.0
                && #[trigger] crate::versions::candidate_version(s.include_prereleases, bound, tags[k].name) == Some(best.1);
            assert(tags[k] == best.0);
        },
        None => {},
    }
}

/// Only `--update` rewrites files: with settings resolved from options that
/// lack `--update`, or that ask for `--check` or `--dry-run`, rewriting any
/// file gives nothing to write back.
pub proof fn law_previews_never_write(
    cli: Cli,
    file: FileConfig,
    env: Environment,
    s: Settings,
    rs: Seq<ReplacementView>,
    overlapping: bool,
    content: Seq<char>,
)
    requires
        resolved(cli, file, env, s),
        !cli.update || cli.check || cli.dry_run,
    ensures
        s.dry_run,
        file_write(s.dry_run, rs, overlapping, content) is None,
{
}

/// `--check` fails a run that has updates to offer: the exit code is not
/// zero, whatever else the run found, and it is `1` when neither the scan nor
/// an upstream lookup failed.
pub proof fn law_check_fails_with_updates(
    cli: Cli,
    file: FileConfig,
    env: Environment,
    s: Settings,
    scan_failures: bool,
    metadata_failures: bool,
    diags: Seq<DiagnosticView>,
)
    requires
        resolved(cli, file, env, s),
        cli.check,
    ensures
        final_exit_spec(scan_failures, metadata_failures, exit_code_spec(s, false, diags)) is Some,
        !scan_failures && !metadata_failures ==> final_exit_spec(scan_failures, metadata_failures, exit_code_spec(s, false, diags))
            == Some(1i32),
{
}

/// A ref that no longer exists upstream is rewritten only under the
/// `fallback` policy: when target selection finds the current ref missing, a
/// reference that goes through selection adds no update under any other
/// policy.
pub proof fn law_missing_refs_not_rewritten(
    s: Settings,
    answers: Seq<MetadataAnswer>,
    st: ResState,
    r: ReferenceReport,
    owner: Seq<char>,
    repo: Seq<char>,
    current: Seq<char>,
    eff: RefKind,
    csha: Option<Seq<char>>,
)
    requires
        s.missing_ref != MissingRefPolicy::Fallback,
        !(s.pin_floating_to_sha && (eff == RefKind::Branch || eff == RefKind::NonSemverTag)),
        ({
            let tags = crate::metadata::memo_tags(answers, st, owner, repo);
            let sel = if hash_target(s, eff) {
                select_hash_spec(s, answers, st, r, current, tags)
            } else {
                select_tag_spec(s, answers, st, r, current, tags)
            };
            sel matches Flow::Go(d, _) && d.current_missing
        }),
    ensures
        back_spec(s, answers, st, r, owner, repo, current, eff, csha) matches Flow::Go(_, st1) ==> st1.updates == st.updates,
{
    let tags = crate::metadata::memo_tags(answers, st, owner, repo);
    lemma_select_tag_keeps(s, answers, st, r, current, tags);
    lemma_select_hash_keeps(s, answers, st, r, current, tags);
    let sha_advisory = !hash_target(s, eff) && !s.pin_floating_to_sha && eff == RefKind::Sha;
    if sha_advisory {
        match select_hash_spec(s, answers, st, r, current, tags) {
            Flow::Go(d, st1) => {
                let st2 = match d.target {
                    Some(t) => if t.sha.len() > 0 && !crate::config::eq_ignore_ascii_case(t.sha, current) {
                        crate::metadata::with_diag(st1, crate::metadata::diag_at(r, crate::scanner::DiagnosticCode::ShaUpdateAvailable, crate::metadata::advisory_message(current, t)))
                    } else {
                        st1
                    },
                    None => st1,
                };
                lemma_missing_keeps(s, st2, r);
            },
            Flow::Stop(_) => {},
        }
    } else {
        let sel = if hash_target(s, eff) {
            select_hash_spec(s, answers, st, r, current, tags)
        } else {
            select_tag_spec(s, answers, st, r, current, tags)
        };
        match sel {
            Flow::Go(d, st1) => {
                if d.target is None {
                    lemma_untargeted_keeps(s, st1, r, d);
                }
            },
            Flow::Stop(_) => {},
        }
    }
}

/// A reference whose upstream lookup fails is given up: it is reported
/// once, as a metadata failure that carries the lookup's error, and it adds
/// no update.
pub proof fn law_failed_lookup_is_reported(
    s: Settings,
    globs: Seq<Seq<char>>,
    answers: Seq<MetadataAnswer>,
    st: ResState,
    idx: usize,
    r: ReferenceReport,
)
    requires
        process_ref_steps(s, globs, answers, st, idx, r) is Stop,
        process_ref_steps(s, globs, answers, st, idx, r)->Stop_0 is Lookup,
    ensures
        process_ref_spec(s, globs, answers, st, idx, r) matches Flow::Go(_, st2) && {
            &&& st2.updates == st.updates
            &&& st2.diags.len() > 0
            &&& st2.diags.last() == lookup_failure_at(r, process_ref_steps(s, globs, answers, st, idx, r)->Stop_0->Lookup_0)
        },
{
    law_one_reference_updates(s, globs, answers, st, idx, r);
}

} // verus!
