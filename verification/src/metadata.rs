//! Selecting update targets for remote references from upstream metadata.
//!
//! Resolution is a deterministic replay: [`resolve_updates`] walks the
//! references with the metadata answers given so far, and either finishes,
//! fails, or names the next lookup it needs. The caller performs that lookup
//! (cache, network, disk) and calls again with one more answer.
use vstd::prelude::*;

use crate::action_ref::{opt_view, RefKind, ReferenceKind};
use vstd::string::StringSliceAdditionalSpecFns;

use crate::cache::{cache_key, key_material, CacheKeyParts, CacheReport};
use crate::hashing::{blake3_hex, blake3_hex_digest};
use crate::report::{UpdateReport, UpdateView};
use crate::scanner::{Diagnostic, DiagnosticCategory, DiagnosticCode, DiagnosticView, ReferenceReport};
use crate::tag_memo::{memo_entries, memo_get, memo_insert, memo_new, TagMemo};
use crate::cli::{MissingRefPolicy, UpdateMode};
use crate::config::{eq_ignore_ascii_case, eq_ignore_ascii_case_exec, Settings};
use crate::globs::{
    build_glob_list, first_invalid, globset_builds, globset_is_match, globset_match, GlobBuildError, GlobList,
};
use crate::select::{
    first_named, find_named, select_hash_spec, select_hash_update_target, select_tag_spec, select_tag_update_target, DecisionView,
};
use crate::text::{
    byte_prefix, byte_prefix_of, chars_of, contains, has_text, message2, occurs_at, occurs_at_exec, push_all, same, slice_of, split, split_on, string_of, string_views, trim, trim_chars, views,
};
use crate::discover::path_parent_of;

verus! {

/// A tag of an upstream repository and the commit it points at.
#[derive(Debug, Clone, PartialEq, Eq)]
pub struct RemoteTag {
    pub name: String,
    pub sha: String,
}

pub struct RemoteTagView {
    pub name: Seq<char>,
    pub sha: Seq<char>,
}

impl View for RemoteTag {
    type V = RemoteTagView;

    open spec fn view(&self) -> RemoteTagView {
        RemoteTagView { name: self.name@, sha: self.sha@ }
    }
}

pub open spec fn tag_views(tags: Seq<RemoteTag>) -> Seq<RemoteTagView> {
    tags.map_values(|t: RemoteTag| t@)
}

impl RemoteTag {
    /// A copy with the same name and commit.
    pub fn duplicate(&self) -> (r: RemoteTag)
        ensures
            r@ == self@,
    {
        RemoteTag { name: self.name.clone(), sha: self.sha.clone() }
    }
}

/// The outcome of resolving the references of a run.
#[derive(Debug)]
pub struct MetadataResolution {
    pub updates: Vec<UpdateReport>,
    pub diagnostics: Vec<Diagnostic>,
    pub cache: CacheReport,
    /// `(reference_index, resolved_kind)` for each reference whose ref kind
    /// was found to be a branch or a non-semver tag upstream.
    pub resolved_ref_kinds: Vec<(usize, RefKind)>,
}

/// A tag list as a provider returns it.
#[derive(Debug, Clone)]
pub enum TagFetch {
    Fresh { tags: Vec<RemoteTag>, etag: Option<String> },
    NotModified,
}

/// Whether a commit exists, as a provider returns it.
#[derive(Debug, Clone)]
pub enum CommitFetch {
    Fresh { exists: bool, etag: Option<String> },
    NotModified,
}

/// A branch and its head commit, as a provider returns them.
#[derive(Debug, Clone)]
pub enum BranchFetch {
    Fresh { exists: bool, sha: Option<String>, etag: Option<String> },
    NotModified,
}

/// The tags of a repository, with a warning when they came from a stale cache.
#[derive(Debug, Clone)]
pub struct TagLoad {
    pub tags: Vec<RemoteTag>,
    pub warning: Option<String>,
}

/// The head commit of a branch when the branch exists, with a warning when it
/// came from a stale cache.
#[derive(Debug, Clone)]
pub struct BranchLoad {
    pub sha: Option<String>,
    pub warning: Option<String>,
}

pub struct BranchLoadView {
    pub sha: Option<Seq<char>>,
    pub warning: Option<Seq<char>>,
}

impl View for BranchLoad {
    type V = BranchLoadView;

    open spec fn view(&self) -> BranchLoadView {
        BranchLoadView { sha: opt_view(self.sha), warning: opt_view(self.warning) }
    }
}

impl BranchLoad {
    pub fn duplicate(&self) -> (r: BranchLoad)
        ensures
            r@ == self@,
    {
        BranchLoad {
            sha: match &self.sha {
                Some(s) => Some(s.clone()),
                None => None,
            },
            warning: match &self.warning {
                Some(s) => Some(s.clone()),
                None => None,
            },
        }
    }
}

/// What the disk holds at a local reference's target path.
#[derive(Debug, Clone, Copy, PartialEq, Eq, Structural)]
pub struct LocalPathState {
    pub exists: bool,
    pub is_dir: bool,
    pub has_action_yml: bool,
    pub has_action_yaml: bool,
}

/// A lookup that resolution needs before it can go on.
#[derive(Debug, Clone)]
pub enum MetadataRequest {
    /// The tag list of `owner/repo`.
    Tags { owner: String, repo: String },
    /// The head commit of `branch` in `owner/repo`, if that branch exists.
    Branch { owner: String, repo: String, branch: String },
    /// Whether commit `sha` exists in `owner/repo`.
    Commit { owner: String, repo: String, sha: String },
    /// What lies at `path`, taken relative to directory `dir`.
    LocalPath { dir: String, path: String },
}

pub enum RequestView {
    Tags(Seq<char>, Seq<char>),
    Branch(Seq<char>, Seq<char>, Seq<char>),
    Commit(Seq<char>, Seq<char>, Seq<char>),
    LocalPath(Seq<char>, Seq<char>),
}

impl View for MetadataRequest {
    type V = RequestView;

    open spec fn view(&self) -> RequestView {
        match self {
            MetadataRequest::Tags { owner, repo } => RequestView::Tags(owner@, repo@),
            MetadataRequest::Branch { owner, repo, branch } => RequestView::Branch(owner@, repo@, branch@),
            MetadataRequest::Commit { owner, repo, sha } => RequestView::Commit(owner@, repo@, sha@),
            MetadataRequest::LocalPath { dir, path } => RequestView::LocalPath(dir@, path@),
        }
    }
}

/// The result of a [`MetadataRequest`], in the order the requests came.
#[derive(Debug, Clone)]
pub enum MetadataAnswer {
    Tags(TagLoad),
    Branch(BranchLoad),
    Commit(bool),
    LocalPath(LocalPathState),
    /// The upstream lookup failed with this error.
    Failed(String),
}

/// Where resolution stands after replaying the answers given.
#[derive(Debug)]
pub enum ResolveStep {
    /// This lookup is needed next.
    Need(MetadataRequest),
    /// Resolution failed with this message.
    Failed(String),
    /// Resolution is complete.
    Done(MetadataResolution),
}

/// Why a replay stopped early.
#[derive(Debug)]
pub enum Halt {
    Need(MetadataRequest),
    Fail(String),
    /// An upstream lookup failed with this error; the reference is given up.
    Lookup(String),
}

pub enum HaltView {
    Need(RequestView),
    Fail(Seq<char>),
    /// A lookup failed with this error, leaving the replay in this state.
    Lookup(Seq<char>, ResState),
}

impl View for Halt {
    type V = HaltView;

    open spec fn view(&self) -> HaltView {
        match self {
            Halt::Need(r) => HaltView::Need(r@),
            Halt::Fail(m) => HaltView::Fail(m@),
            Halt::Lookup(m) => HaltView::Lookup(m@, initial_state()),
        }
    }
}

/// `e` is the halt `h`; after a failed lookup the replay is in the state `h`
/// names.
pub open spec fn halted_as(e: Halt, h: HaltView, st: ResState) -> bool {
    match h {
        HaltView::Lookup(m, s) => e matches Halt::Lookup(m2) && m2@ == m && st == s,
        _ => e@ == h,
    }
}

/// The state of a replay: which repositories' tags were loaded by which
/// answer, what was found so far, and how many answers were used.
pub struct ResState {
    pub memo: Map<(Seq<char>, Seq<char>), usize>,
    pub diags: Seq<DiagnosticView>,
    pub updates: Seq<UpdateView>,
    pub kinds: Seq<(usize, RefKind)>,
    pub pos: int,
}

/// A replay step: it went on with a value and a new state, or it stopped.
pub enum Flow<T> {
    Go(T, ResState),
    Stop(HaltView),
}

pub struct Replay {
    pub memo: TagMemo,
    pub diags: Vec<Diagnostic>,
    pub updates: Vec<UpdateReport>,
    pub kinds: Vec<(usize, RefKind)>,
    pub pos: usize,
}

pub open spec fn diag_views(d: Seq<Diagnostic>) -> Seq<DiagnosticView> {
    d.map_values(|x: Diagnostic| x@)
}

pub open spec fn update_views(u: Seq<UpdateReport>) -> Seq<UpdateView> {
    u.map_values(|x: UpdateReport| x@)
}

impl View for Replay {
    type V = ResState;

    open spec fn view(&self) -> ResState {
        ResState {
            memo: memo_entries(self.memo),
            diags: diag_views(self.diags@),
            updates: update_views(self.updates@),
            kinds: self.kinds@,
            pos: self.pos as int,
        }
    }
}

pub open spec fn mismatch_message() -> Seq<char> {
    "metadata answer does not match the pending request"@
}

/// Every memo entry points at an earlier tag-list answer.
pub open spec fn memo_ok(answers: Seq<MetadataAnswer>, st: ResState) -> bool {
    &&& 0 <= st.pos <= answers.len()
    &&& forall|k: (Seq<char>, Seq<char>)| #[trigger] st.memo.contains_key(k) ==> st.memo[k] < st.pos
        && answers[st.memo[k] as int] is Tags
}

pub open spec fn with_pos(st: ResState, pos: int) -> ResState {
    ResState { pos, ..st }
}

pub open spec fn with_diag(st: ResState, d: DiagnosticView) -> ResState {
    ResState { diags: st.diags.push(d), ..st }
}

pub open spec fn with_update(st: ResState, u: UpdateView) -> ResState {
    ResState { updates: st.updates.push(u), ..st }
}

/// The next answer, which must be a branch answer.
pub open spec fn ask_branch_spec(answers: Seq<MetadataAnswer>, st: ResState, owner: Seq<char>, repo: Seq<char>, branch: Seq<char>) -> Flow<BranchLoadView> {
    if 0 <= st.pos < answers.len() {
        match answers[st.pos] {
            MetadataAnswer::Branch(b) => Flow::Go(b@, with_pos(st, st.pos + 1)),
            MetadataAnswer::Failed(e) => Flow::Stop(HaltView::Lookup(e@, with_pos(st, st.pos + 1))),
            _ => Flow::Stop(HaltView::Fail(mismatch_message())),
        }
    } else {
        Flow::Stop(HaltView::Need(RequestView::Branch(owner, repo, branch)))
    }
}

/// The next answer, which must be a commit answer.
pub open spec fn ask_commit_spec(answers: Seq<MetadataAnswer>, st: ResState, owner: Seq<char>, repo: Seq<char>, sha: Seq<char>) -> Flow<bool> {
    if 0 <= st.pos < answers.len() {
        match answers[st.pos] {
            MetadataAnswer::Commit(b) => Flow::Go(b, with_pos(st, st.pos + 1)),
            MetadataAnswer::Failed(e) => Flow::Stop(HaltView::Lookup(e@, with_pos(st, st.pos + 1))),
            _ => Flow::Stop(HaltView::Fail(mismatch_message())),
        }
    } else {
        Flow::Stop(HaltView::Need(RequestView::Commit(owner, repo, sha)))
    }
}

/// The next answer, which must be a local path answer.
pub open spec fn ask_local_spec(answers: Seq<MetadataAnswer>, st: ResState, file: Seq<char>, path: Seq<char>) -> Flow<LocalPathState> {
    if 0 <= st.pos < answers.len() {
        match answers[st.pos] {
            MetadataAnswer::LocalPath(b) => Flow::Go(b, with_pos(st, st.pos + 1)),
            _ => Flow::Stop(HaltView::Fail(mismatch_message())),
        }
    } else {
        Flow::Stop(HaltView::Need(RequestView::LocalPath(file, path)))
    }
}

/// The answer holding the tags of `owner/repo`: the memoised one, or else the
/// next answer, which must be a tag list.
pub open spec fn load_repo_tags_spec(answers: Seq<MetadataAnswer>, st: ResState, owner: Seq<char>, repo: Seq<char>) -> Flow<usize> {
    if st.memo.contains_key((owner, repo)) {
        Flow::Go(st.memo[(owner, repo)], st)
    } else if 0 <= st.pos < answers.len() {
        match answers[st.pos] {
            MetadataAnswer::Tags(_) => Flow::Go(
                st.pos as usize,
                ResState { memo: st.memo.insert((owner, repo), st.pos as usize), pos: st.pos + 1, ..st },
            ),
            MetadataAnswer::Failed(e) => Flow::Stop(HaltView::Lookup(e@, with_pos(st, st.pos + 1))),
            _ => Flow::Stop(HaltView::Fail(mismatch_message())),
        }
    } else {
        Flow::Stop(HaltView::Need(RequestView::Tags(owner, repo)))
    }
}

/// The tags of a tag-list answer.
pub open spec fn tags_at(answers: Seq<MetadataAnswer>, i: int) -> Seq<RemoteTagView> {
    match answers[i] {
        MetadataAnswer::Tags(l) => tag_views(l.tags@),
        _ => Seq::empty(),
    }
}

/// The warning of a tag-list answer.
pub open spec fn warning_at(answers: Seq<MetadataAnswer>, i: int) -> Option<Seq<char>> {
    match answers[i] {
        MetadataAnswer::Tags(l) => opt_view(l.warning),
        _ => None,
    }
}

pub fn mismatch() -> (h: Halt)
    ensures
        h@ == HaltView::Fail(mismatch_message()),
{
    Halt::Fail(string_of(&chars_of("metadata answer does not match the pending request")))
}

impl Replay {
    pub fn new() -> (rp: Replay)
        ensures
            rp@.memo == Map::<(Seq<char>, Seq<char>), usize>::empty(),
            rp@.diags == Seq::<DiagnosticView>::empty(),
            rp@.updates == Seq::<UpdateView>::empty(),
            rp@.kinds == Seq::<(usize, RefKind)>::empty(),
            rp@.pos == 0,
    {
        let rp = Replay { memo: memo_new(), diags: Vec::new(), updates: Vec::new(), kinds: Vec::new(), pos: 0 };
        assert(diag_views(rp.diags@) =~= Seq::<DiagnosticView>::empty());
        assert(update_views(rp.updates@) =~= Seq::<UpdateView>::empty());
        rp
    }

    pub fn push_diag(&mut self, d: Diagnostic)
        ensures
            final(self)@ == with_diag(old(self)@, d@),
            final(self).memo == old(self).memo,
            final(self).pos == old(self).pos,
    {
        self.diags.push(d);
        assert(diag_views(self.diags@) =~= diag_views(old(self).diags@).push(d@));
    }

    pub fn push_update(&mut self, u: UpdateReport)
        ensures
            final(self)@ == with_update(old(self)@, u@),
            final(self).memo == old(self).memo,
            final(self).pos == old(self).pos,
    {
        self.updates.push(u);
        assert(update_views(self.updates@) =~= update_views(old(self).updates@).push(u@));
    }

    pub fn ask_branch(&mut self, answers: &[MetadataAnswer], owner: &String, repo: &String, branch: &[char]) -> (r: Result<BranchLoad, Halt>)
        requires
            old(self).pos <= answers@.len(),
        ensures
            match ask_branch_spec(answers@, old(self)@, owner@, repo@, branch@) {
                Flow::Go(b, st) => r matches Ok(x) && x@ == b && final(self)@ == st,
                Flow::Stop(h) => r matches Err(e) && halted_as(e, h, final(self)@),
            },
            final(self).pos <= answers@.len(),
            final(self).memo == old(self).memo,
            final(self).pos >= old(self).pos,
    {
        if self.pos < answers.len() {
            match &answers[self.pos] {
                MetadataAnswer::Branch(b) => {
                    self.pos = self.pos + 1;
                    Ok(b.duplicate())
                },
                MetadataAnswer::Failed(e) => {
                    self.pos = self.pos + 1;
                    Err(Halt::Lookup(e.clone()))
                },
                _ => Err(mismatch()),
            }
        } else {
            Err(Halt::Need(MetadataRequest::Branch {
                owner: owner.clone(),
                repo: repo.clone(),
                branch: string_of(branch),
            }))
        }
    }

    pub fn ask_commit(&mut self, answers: &[MetadataAnswer], owner: &String, repo: &String, sha: &[char]) -> (r: Result<bool, Halt>)
        requires
            old(self).pos <= answers@.len(),
        ensures
            match ask_commit_spec(answers@, old(self)@, owner@, repo@, sha@) {
                Flow::Go(b, st) => r matches Ok(x) && x == b && final(self)@ == st,
                Flow::Stop(h) => r matches Err(e) && halted_as(e, h, final(self)@),
            },
            final(self).pos <= answers@.len(),
            final(self).memo == old(self).memo,
            final(self).pos >= old(self).pos,
    {
        if self.pos < answers.len() {
            match &answers[self.pos] {
                MetadataAnswer::Commit(b) => {
                    self.pos = self.pos + 1;
                    Ok(*b)
                },
                MetadataAnswer::Failed(e) => {
                    self.pos = self.pos + 1;
                    Err(Halt::Lookup(e.clone()))
                },
                _ => Err(mismatch()),
            }
        } else {
            Err(Halt::Need(MetadataRequest::Commit {
                owner: owner.clone(),
                repo: repo.clone(),
                sha: string_of(sha),
            }))
        }
    }

    pub fn ask_local(&mut self, answers: &[MetadataAnswer], file: &String, path: &String) -> (r: Result<LocalPathState, Halt>)
        requires
            old(self).pos <= answers@.len(),
        ensures
            match ask_local_spec(answers@, old(self)@, file@, path@) {
                Flow::Go(b, st) => r matches Ok(x) && x == b && final(self)@ == st,
                Flow::Stop(h) => r matches Err(e) && halted_as(e, h, final(self)@),
            },
            final(self).pos <= answers@.len(),
            final(self).memo == old(self).memo,
            final(self).pos >= old(self).pos,
    {
        if self.pos < answers.len() {
            match &answers[self.pos] {
                MetadataAnswer::LocalPath(b) => {
                    self.pos = self.pos + 1;
                    Ok(*b)
                },
                _ => Err(mismatch()),
            }
        } else {
            Err(Halt::Need(MetadataRequest::LocalPath { dir: file.clone(), path: path.clone() }))
        }
    }

    pub fn load_repo_tags(&mut self, answers: &[MetadataAnswer], owner: &String, repo: &String) -> (r: Result<usize, Halt>)
        requires
            memo_ok(answers@, old(self)@),
        ensures
            match load_repo_tags_spec(answers@, old(self)@, owner@, repo@) {
                Flow::Go(i, st) => r matches Ok(x) && x == i && final(self)@ == st,
                Flow::Stop(h) => r matches Err(e) && halted_as(e, h, final(self)@),
            },
            memo_ok(answers@, final(self)@),
            final(self).pos <= answers@.len(),
            r is Ok ==> r->Ok_0 < answers@.len() && answers@[r->Ok_0 as int] is Tags,
    {
        match memo_get(&self.memo, owner, repo) {
            Some(i) => {
                assert(memo_entries(self.memo).contains_key((owner@, repo@)));
                Ok(i)
            },
            None => {
                if self.pos < answers.len() {
                    match &answers[self.pos] {
                        MetadataAnswer::Tags(_) => {
                            let at = self.pos;
                            memo_insert(&mut self.memo, owner.clone(), repo.clone(), at);
                            self.pos = self.pos + 1;
                            proof {
                                let st = self@;
                                assert forall|k: (Seq<char>, Seq<char>)| #[trigger] st.memo.contains_key(k) implies st.memo[k] < st.pos
                                    && answers@[st.memo[k] as int] is Tags by {
                                    if k != (owner@, repo@) {
                                        assert(old(self)@.memo.contains_key(k));
                                    }
                                }
                            }
                            Ok(at)
                        },
                        MetadataAnswer::Failed(e) => {
                            self.pos = self.pos + 1;
                            Err(Halt::Lookup(e.clone()))
                        },
                        _ => Err(mismatch()),
                    }
                } else {
                    Err(Halt::Need(MetadataRequest::Tags { owner: owner.clone(), repo: repo.clone() }))
                }
            },
        }
    }
}


pub open spec fn diag_at(r: ReferenceReport, code: DiagnosticCode, msg: Seq<char>) -> DiagnosticView {
    DiagnosticView { file: r.file@, line: Some(r.line), message: msg, category: DiagnosticCategory::General, code }
}

pub open spec fn update_at(r: ReferenceReport, current: Seq<char>, target: Seq<char>) -> UpdateView {
    UpdateView {
        file: r.file@,
        line: r.line,
        current,
        target: Some(target),
        ref_span: r.ref_span,
        rewrite_supported: r.rewrite_supported,
        rewrite_reason: opt_view(r.rewrite_reason),
    }
}

pub open spec fn missing_ref_message(r: ReferenceReport) -> Seq<char> {
    "remote ref no longer exists: "@ + r.raw@
}

/// The missing-ref policy applied to a reference whose ref is missing:
/// `ignore` says nothing, `error` fails outside `--check`, anything else
/// reports it.
pub open spec fn handle_missing_spec(s: Settings, st: ResState, r: ReferenceReport) -> Flow<()> {
    if s.missing_ref == MissingRefPolicy::Ignore {
        Flow::Go((), st)
    } else if s.missing_ref == MissingRefPolicy::Error && !s.check {
        Flow::Stop(HaltView::Fail(missing_ref_message(r)))
    } else {
        Flow::Go((), with_diag(st, diag_at(r, DiagnosticCode::RemoteRefMissing, missing_ref_message(r))))
    }
}

/// A validation finding about `r`: it fails the check it belongs to.
pub open spec fn validation_at(r: ReferenceReport, msg: Seq<char>) -> DiagnosticView {
    DiagnosticView {
        file: r.file@,
        line: Some(r.line),
        message: msg,
        category: DiagnosticCategory::Validation,
        code: DiagnosticCode::LocalReferenceMissing,
    }
}

fn validation_for(r: &ReferenceReport, message: String) -> (d: Diagnostic)
    ensures
        d@ == validation_at(*r, message@),
{
    Diagnostic {
        file: r.file.clone(),
        line: Some(r.line),
        message,
        category: DiagnosticCategory::Validation,
        code: DiagnosticCode::LocalReferenceMissing,
    }
}

fn diag_for(r: &ReferenceReport, code: DiagnosticCode, message: String) -> (d: Diagnostic)
    ensures
        d@ == diag_at(*r, code, message@),
{
    Diagnostic { file: r.file.clone(), line: Some(r.line), message, category: DiagnosticCategory::General, code }
}

fn opt_string_clone(o: &Option<String>) -> (r: Option<String>)
    ensures
        opt_view(r) == opt_view(*o),
{
    match o {
        Some(s) => Some(s.clone()),
        None => None,
    }
}

fn update_for(r: &ReferenceReport, current: &[char], target: String) -> (u: UpdateReport)
    ensures
        u@ == update_at(*r, current@, target@),
{
    UpdateReport {
        file: r.file.clone(),
        line: r.line,
        current: string_of(current),
        target: Some(target),
        ref_span: r.ref_span,
        rewrite_supported: r.rewrite_supported,
        rewrite_reason: opt_string_clone(&r.rewrite_reason),
    }
}

/// Applies the missing-ref policy to a reference whose ref is missing.
pub fn handle_missing_ref(settings: &Settings, reference: &ReferenceReport, rp: &mut Replay) -> (r: Result<(), Halt>)
    ensures
        match handle_missing_spec(*settings, old(rp)@, *reference) {
            Flow::Go(_, st) => r is Ok && final(rp)@ == st,
            Flow::Stop(h) => r matches Err(e) && halted_as(e, h, final(rp)@) && final(rp)@ == old(rp)@,
        },
        final(rp).pos == old(rp).pos,
        final(rp).memo == old(rp).memo,
{
    if settings.missing_ref == MissingRefPolicy::Ignore {
        return Ok(());
    }
    let raw = chars_of(reference.raw.as_str());
    let message = message2("remote ref no longer exists: ", &raw);
    if settings.missing_ref == MissingRefPolicy::Error && !settings.check {
        return Err(Halt::Fail(message));
    }
    rp.push_diag(diag_for(reference, DiagnosticCode::RemoteRefMissing, message));
    Ok(())
}

/// A local reference resolves to metadata: a directory holding `action.yml`
/// or `action.yaml`, or an existing file.
pub open spec fn local_present(ls: LocalPathState) -> bool {
    if ls.is_dir {
        ls.has_action_yml || ls.has_action_yaml
    } else {
        ls.exists
    }
}

pub open spec fn local_missing_message(rel: Seq<char>) -> Seq<char> {
    "local reference does not exist on disk: "@ + rel
}

pub open spec fn is_local(r: ReferenceReport) -> bool {
    r.parsed.kind == ReferenceKind::LocalAction || r.parsed.kind == ReferenceKind::LocalWorkflow
}

/// A `.github` directory component of `file` starts at `k`.
pub open spec fn github_dir_at(file: Seq<char>, k: int) -> bool {
    occurs_at(file, ".github/"@, k) && (k == 0 || file[k - 1] == '/')
}

/// The last position before `n` at which a `.github` directory component of
/// `file` starts.
pub open spec fn last_github_dir(file: Seq<char>, n: int) -> Option<int>
    decreases n,
{
    if n <= 0 {
        None
    } else if github_dir_at(file, n - 1) {
        Some(n - 1)
    } else {
        last_github_dir(file, n - 1)
    }
}

/// The directory that the local references of `file` are resolved from: the
/// repository root, which holds the nearest `.github` directory that the
/// file lies in, or else the file's own directory.
pub open spec fn local_base(file: Seq<char>) -> Seq<char> {
    match last_github_dir(file, file.len() as int) {
        Some(k) => if k == 0 {
            "."@
        } else if k == 1 {
            "/"@
        } else {
            file.take(k - 1)
        },
        None => match path_parent_of(file) {
            Some(p) => p,
            None => "."@,
        },
    }
}

fn last_github_dir_of(f: &Vec<char>) -> (r: Option<usize>)
    ensures
        match r {
            Some(k) => last_github_dir(f@, f@.len() as int) == Some(k as int) && k < f@.len(),
            None => last_github_dir(f@, f@.len() as int) is None,
        },
{
    let pat = chars_of(".github/");
    let mut i: usize = f.len();
    while i > 0
        invariant
            i <= f@.len(),
            pat@ == ".github/"@,
            last_github_dir(f@, f@.len() as int) == last_github_dir(f@, i as int),
        decreases i,
    {
        let j = i - 1;
        if occurs_at_exec(f, &pat, j) && (j == 0 || f[j - 1] == '/') {
            return Some(j);
        }
        i = j;
    }
    None
}

/// The directory that the local references of `file` are resolved from.
pub fn local_base_of(file: &String) -> (r: String)
    ensures
        r@ == local_base(file@),
{
    let f = chars_of(file.as_str());
    match last_github_dir_of(&f) {
        Some(k) => {
            if k == 0 {
                string_of(&chars_of("."))
            } else if k == 1 {
                string_of(&chars_of("/"))
            } else {
                string_of(&slice_of(&f, 0, k - 1))
            }
        },
        None => match crate::discover::path_parent(file.as_str()) {
            Some(p) => p,
            None => string_of(&chars_of(".")),
        },
    }
}

/// A local reference that resolves to nothing on disk (a directory counts
/// only when it holds action metadata) is a validation failure.
pub open spec fn validate_local_spec(answers: Seq<MetadataAnswer>, st: ResState, r: ReferenceReport) -> Flow<()> {
    if is_local(r) {
        match r.parsed.path {
            None => Flow::Go((), st),
            Some(rel) => match ask_local_spec(answers, st, local_base(r.file@), rel@) {
                Flow::Stop(h) => Flow::Stop(h),
                Flow::Go(ls, st1) => if local_present(ls) {
                    Flow::Go((), st1)
                } else {
                    Flow::Go((), with_diag(st1, validation_at(r, local_missing_message(rel@))))
                },
            },
        }
    } else {
        Flow::Go((), st)
    }
}

/// Checks that a local reference resolves to something on disk.
pub fn validate_local_reference(reference: &ReferenceReport, rp: &mut Replay, answers: &[MetadataAnswer]) -> (r: Result<(), Halt>)
    requires
        old(rp).pos <= answers@.len(),
    ensures
        match validate_local_spec(answers@, old(rp)@, *reference) {
            Flow::Go(_, st) => r is Ok && final(rp)@ == st,
            Flow::Stop(h) => r matches Err(e) && halted_as(e, h, final(rp)@),
        },
        final(rp).pos <= answers@.len(),
        final(rp).pos >= old(rp).pos,
        final(rp).memo == old(rp).memo,
{
    if reference.parsed.kind != ReferenceKind::LocalAction && reference.parsed.kind != ReferenceKind::LocalWorkflow {
        return Ok(());
    }
    let rel = match &reference.parsed.path {
        Some(rel) => rel,
        None => return Ok(()),
    };
    let base = local_base_of(&reference.file);
    let state = rp.ask_local(answers, &base, rel)?;
    let present = if state.is_dir {
        state.has_action_yml || state.has_action_yaml
    } else {
        state.exists
    };
    if !present {
        let rel_chars = chars_of(rel.as_str());
        rp.push_diag(validation_for(reference, message2("local reference does not exist on disk: ", &rel_chars)));
    }
    Ok(())
}


/// The reference is ignored inline or matches an update-exclude glob by its
/// raw value or by `owner/repo`.
pub open spec fn excluded_spec(r: ReferenceReport, globs: Seq<Seq<char>>, owner: Seq<char>, repo: Seq<char>) -> bool {
    r.update_ignored || globset_match(globs, r.raw@) || globset_match(globs, owner + "/"@ + repo)
}

pub open spec fn needs_classification(s: Settings, kind: RefKind) -> bool {
    (kind == RefKind::BranchOrUnknown || kind == RefKind::Branch || kind == RefKind::NonSemverTag)
        && (s.validate || s.pin_floating_to_sha)
}

/// Whether a reference of this kind is updated to a commit SHA rather than
/// to a tag: every one with `--latest-hash`, and a SHA pin with `--latest`,
/// which keeps each pin's representation.
pub open spec fn hash_target(s: Settings, kind: RefKind) -> bool {
    s.latest_hash || (s.update_mode == UpdateMode::Latest && kind == RefKind::Sha)
}

fn hash_target_of(settings: &Settings, kind: RefKind) -> (b: bool)
    ensures
        b == hash_target(*settings, kind),
{
    settings.latest_hash || (settings.update_mode == UpdateMode::Latest && kind == RefKind::Sha)
}

/// Tags are loaded for any reference that may be updated, advised on,
/// classified, or validated.
pub open spec fn needs_tags(s: Settings, kind: RefKind, excluded: bool) -> bool {
    let semver_update = kind == RefKind::SemverLikeTag;
    let sha_update = hash_target(s, kind) && kind == RefKind::Sha;
    let sha_advisory = !hash_target(s, kind) && kind == RefKind::Sha;
    (!excluded && (semver_update || sha_update || sha_advisory || needs_classification(s, kind))) || s.validate
}

pub open spec fn with_kind(st: ResState, idx: usize, kind: RefKind) -> ResState {
    ResState { kinds: st.kinds.push((idx, kind)), ..st }
}

/// With `--validate` or `--pin-floating-to-sha`, an unknown ref that names an
/// upstream tag is a non-semver tag, one that names a branch is a branch; the
/// commit behind it is recorded.
pub open spec fn classify_spec(
    s: Settings,
    answers: Seq<MetadataAnswer>,
    st: ResState,
    idx: usize,
    r: ReferenceReport,
    owner: Seq<char>,
    repo: Seq<char>,
    current: Seq<char>,
    tags: Seq<RemoteTagView>,
) -> Flow<(RefKind, Option<Seq<char>>)> {
    let kind = r.parsed.ref_kind;
    if !needs_classification(s, kind) {
        Flow::Go((kind, None), st)
    } else if kind == RefKind::BranchOrUnknown {
        match first_named(tags, current) {
            Some(t) => Flow::Go((RefKind::NonSemverTag, Some(t.sha)), with_kind(st, idx, RefKind::NonSemverTag)),
            None => match ask_branch_spec(answers, st, owner, repo, current) {
                Flow::Stop(h) => Flow::Stop(h),
                Flow::Go(b, st1) => {
                    let st2 = match b.warning {
                        Some(w) => with_diag(st1, diag_at(r, DiagnosticCode::StaleMetadata, w)),
                        None => st1,
                    };
                    match b.sha {
                        Some(sha) => Flow::Go((RefKind::Branch, Some(sha)), with_kind(st2, idx, RefKind::Branch)),
                        None => Flow::Go((RefKind::BranchOrUnknown, None), st2),
                    }
                },
            },
        }
    } else {
        match first_named(tags, current) {
            Some(t) => Flow::Go((kind, Some(t.sha)), st),
            None => match ask_branch_spec(answers, st, owner, repo, current) {
                Flow::Stop(h) => Flow::Stop(h),
                Flow::Go(b, st1) => Flow::Go((kind, b.sha), st1),
            },
        }
    }
}

/// With `--validate`, a remote ref that does not exist upstream falls under
/// the missing-ref policy.
pub open spec fn validate_remote_spec(
    s: Settings,
    answers: Seq<MetadataAnswer>,
    st: ResState,
    r: ReferenceReport,
    owner: Seq<char>,
    repo: Seq<char>,
    current: Seq<char>,
    tags: Seq<RemoteTagView>,
    eff: RefKind,
    csha: Option<Seq<char>>,
) -> Flow<()> {
    if !s.validate {
        Flow::Go((), st)
    } else {
        let ex = match eff {
            RefKind::SemverLikeTag => Flow::Go(first_named(tags, current) is Some, st),
            RefKind::NonSemverTag => Flow::Go(first_named(tags, current) is Some, st),
            RefKind::Branch => Flow::Go(csha is Some, st),
            RefKind::BranchOrUnknown => Flow::Go(false, st),
            RefKind::Sha => ask_commit_spec(answers, st, owner, repo, current),
            RefKind::NoRef => Flow::Go(true, st),
        };
        match ex {
            Flow::Stop(h) => Flow::Stop(h),
            Flow::Go(e, st1) => if e { Flow::Go((), st1) } else { handle_missing_spec(s, st1, r) },
        }
    }
}

/// Loading tags, classifying and validating one remote reference.
pub open spec fn front_spec(
    s: Settings,
    answers: Seq<MetadataAnswer>,
    st: ResState,
    idx: usize,
    r: ReferenceReport,
    owner: Seq<char>,
    repo: Seq<char>,
    current: Seq<char>,
    excluded: bool,
) -> Flow<(RefKind, Option<Seq<char>>)> {
    let kind = r.parsed.ref_kind;
    if !needs_tags(s, kind, excluded) {
        Flow::Go((kind, None), st)
    } else {
        match load_repo_tags_spec(answers, st, owner, repo) {
            Flow::Stop(h) => Flow::Stop(h),
            Flow::Go(ti, st1) => {
                let st2 = match warning_at(answers, ti as int) {
                    Some(w) => with_diag(st1, diag_at(r, DiagnosticCode::StaleMetadata, w)),
                    None => st1,
                };
                let tags = tags_at(answers, ti as int);
                match classify_spec(s, answers, st2, idx, r, owner, repo, current, tags) {
                    Flow::Stop(h) => Flow::Stop(h),
                    Flow::Go(c, st3) => match validate_remote_spec(s, answers, st3, r, owner, repo, current, tags, c.0, c.1) {
                        Flow::Stop(h) => Flow::Stop(h),
                        Flow::Go(_, st4) => Flow::Go(c, st4),
                    },
                }
            },
        }
    }
}

pub open spec fn advisory_message(current: Seq<char>, target: RemoteTagView) -> Seq<char> {
    "SHA pin "@ + byte_prefix(current, 8) + " tracks tag "@ + target.name + "; newer SHA "@
        + byte_prefix(target.sha, 8) + " available \u{2014} run with --latest-hash to update"@
}

pub open spec fn with_opt_diag(st: ResState, r: ReferenceReport, m: Option<Seq<char>>) -> ResState {
    match m {
        Some(m) => with_diag(st, diag_at(r, DiagnosticCode::TargetUnavailable, m)),
        None => st,
    }
}

/// The tags loaded for `owner/repo`, or none.
pub open spec fn memo_tags(answers: Seq<MetadataAnswer>, st: ResState, owner: Seq<char>, repo: Seq<char>) -> Seq<RemoteTagView> {
    if st.memo.contains_key((owner, repo)) {
        tags_at(answers, st.memo[(owner, repo)] as int)
    } else {
        Seq::empty()
    }
}

/// After a decision without a target: its missing ref and its message.
pub open spec fn untargeted_spec(s: Settings, st: ResState, r: ReferenceReport, d: DecisionView) -> Flow<()> {
    let f = if d.current_missing { handle_missing_spec(s, st, r) } else { Flow::Go((), st) };
    match f {
        Flow::Stop(h) => Flow::Stop(h),
        Flow::Go(_, st1) => Flow::Go((), with_opt_diag(st1, r, d.diagnostic)),
    }
}

/// Proposing an update for one remote reference that is not excluded.
pub open spec fn back_spec(
    s: Settings,
    answers: Seq<MetadataAnswer>,
    st: ResState,
    r: ReferenceReport,
    owner: Seq<char>,
    repo: Seq<char>,
    current: Seq<char>,
    eff: RefKind,
    csha: Option<Seq<char>>,
) -> Flow<()> {
    let floating = eff == RefKind::Branch || eff == RefKind::NonSemverTag;
    let update_candidate = if s.pin_floating_to_sha && floating {
        csha is Some
    } else {
        eff == RefKind::SemverLikeTag || eff == RefKind::Sha
    };
    let hash = hash_target(s, eff);
    let sha_advisory = !hash && !s.pin_floating_to_sha && eff == RefKind::Sha;
    let semver_update = !s.pin_floating_to_sha && !sha_advisory && (eff == RefKind::SemverLikeTag || (hash
        && eff == RefKind::Sha));
    let tags = memo_tags(answers, st, owner, repo);
    if !update_candidate && !sha_advisory {
        Flow::Go((), st)
    } else if s.pin_floating_to_sha && floating {
        match csha {
            Some(sha) => if sha != current { Flow::Go((), with_update(st, update_at(r, current, sha))) } else { Flow::Go((), st) },
            None => Flow::Go((), st),
        }
    } else if sha_advisory {
        match select_hash_spec(s, answers, st, r, current, tags) {
            Flow::Stop(h) => Flow::Stop(h),
            Flow::Go(d, st1) => {
                let st2 = match d.target {
                    Some(t) => if t.sha.len() > 0 && !eq_ignore_ascii_case(t.sha, current) {
                        with_diag(st1, diag_at(r, DiagnosticCode::ShaUpdateAvailable, advisory_message(current, t)))
                    } else {
                        st1
                    },
                    None => st1,
                };
                let f = if d.current_missing { handle_missing_spec(s, st2, r) } else { Flow::Go((), st2) };
                match f {
                    Flow::Stop(h) => Flow::Stop(h),
                    Flow::Go(_, st3) => Flow::Go((), with_opt_diag(st3, r, d.diagnostic)),
                }
            },
        }
    } else if !semver_update {
        Flow::Go((), st)
    } else {
        let sel = if hash {
            select_hash_spec(s, answers, st, r, current, tags)
        } else {
            select_tag_spec(s, answers, st, r, current, tags)
        };
        match sel {
            Flow::Stop(h) => Flow::Stop(h),
            Flow::Go(d, st1) => match d.target {
                None => untargeted_spec(s, st1, r, d),
                Some(t) => {
                    let target_ref = if hash { t.sha } else { t.name };
                    if target_ref != current && (!d.current_missing || s.missing_ref == MissingRefPolicy::Fallback) {
                        Flow::Go((), with_update(st1, update_at(r, current, target_ref)))
                    } else {
                        Flow::Go((), with_opt_diag(st1, r, d.diagnostic))
                    }
                },
            },
        }
    }
}

pub open spec fn is_remote(r: ReferenceReport) -> bool {
    r.parsed.kind == ReferenceKind::RemoteAction || r.parsed.kind == ReferenceKind::ReusableWorkflow
}

/// A failed upstream lookup for `r`, with the lookup's error.
pub open spec fn lookup_failure_at(r: ReferenceReport, msg: Seq<char>) -> DiagnosticView {
    DiagnosticView {
        file: r.file@,
        line: Some(r.line),
        message: msg,
        category: DiagnosticCategory::Metadata,
        code: DiagnosticCode::MetadataLookupFailed,
    }
}

/// Everything resolution does for the reference at index `idx`: its steps,
/// and when one of its lookups fails, that failure reported against it and
/// the reference given up.
pub open spec fn process_ref_spec(s: Settings, globs: Seq<Seq<char>>, answers: Seq<MetadataAnswer>, st: ResState, idx: usize, r: ReferenceReport) -> Flow<()> {
    match process_ref_steps(s, globs, answers, st, idx, r) {
        Flow::Stop(HaltView::Lookup(m, st1)) => Flow::Go((), with_diag(st1, lookup_failure_at(r, m))),
        f => f,
    }
}

/// The steps resolution takes for the reference at index `idx`.
pub open spec fn process_ref_steps(s: Settings, globs: Seq<Seq<char>>, answers: Seq<MetadataAnswer>, st: ResState, idx: usize, r: ReferenceReport) -> Flow<()> {
    if !is_remote(r) {
        if s.validate { validate_local_spec(answers, st, r) } else { Flow::Go((), st) }
    } else if r.parsed.owner is Some && r.parsed.repo is Some && r.parsed.ref_name is Some {
        let owner = r.parsed.owner->0@;
        let repo = r.parsed.repo->0@;
        let current = r.parsed.ref_name->0@;
        let excluded = excluded_spec(r, globs, owner, repo);
        match front_spec(s, answers, st, idx, r, owner, repo, current, excluded) {
            Flow::Stop(h) => Flow::Stop(h),
            Flow::Go(c, st1) => if excluded {
                Flow::Go((), st1)
            } else {
                back_spec(s, answers, st1, r, owner, repo, current, c.0, c.1)
            },
        }
    } else {
        Flow::Go((), st)
    }
}

pub open spec fn initial_state() -> ResState {
    ResState { memo: Map::empty(), diags: Seq::empty(), updates: Seq::empty(), kinds: Seq::empty(), pos: 0 }
}

/// Resolution of the first `n` references.
pub open spec fn run_spec(s: Settings, globs: Seq<Seq<char>>, answers: Seq<MetadataAnswer>, refs: Seq<ReferenceReport>, n: int) -> Flow<()>
    decreases n,
{
    if n <= 0 {
        Flow::Go((), initial_state())
    } else {
        match run_spec(s, globs, answers, refs, n - 1) {
            Flow::Stop(h) => Flow::Stop(h),
            Flow::Go(_, st) => process_ref_spec(s, globs, answers, st, (n - 1) as usize, refs[n - 1]),
        }
    }
}

pub enum StepView {
    Need(RequestView),
    Failed(Seq<char>),
    Done(Seq<UpdateView>, Seq<DiagnosticView>, Seq<(usize, RefKind)>),
}

/// Where resolution of `refs` stands given `answers`.
pub open spec fn resolve_spec(s: Settings, answers: Seq<MetadataAnswer>, refs: Seq<ReferenceReport>) -> StepView {
    let globs = string_views(s.update_exclude@);
    match first_invalid(globs) {
        Some(p) => StepView::Failed("invalid update exclude glob "@ + p),
        None => if !globset_builds(globs) {
            StepView::Failed("failed to build update exclude glob set"@)
        } else {
            match run_spec(s, globs, answers, refs, refs.len() as int) {
                Flow::Stop(HaltView::Need(q)) => StepView::Need(q),
                Flow::Stop(HaltView::Fail(m)) => StepView::Failed(m),
                Flow::Stop(HaltView::Lookup(m, _)) => StepView::Failed(m),
                Flow::Go(_, st) => StepView::Done(st.updates, st.diags, st.kinds),
            }
        },
    }
}

pub open spec fn step_view(r: ResolveStep) -> StepView {
    match r {
        ResolveStep::Need(q) => StepView::Need(q@),
        ResolveStep::Failed(m) => StepView::Failed(m@),
        ResolveStep::Done(res) => StepView::Done(update_views(res.updates@), diag_views(res.diagnostics@), res.resolved_ref_kinds@),
    }
}


fn tags_in(answers: &[MetadataAnswer], i: usize) -> (t: &[RemoteTag])
    requires
        i < answers@.len(),
        answers@[i as int] is Tags,
    ensures
        tag_views(t@) == tags_at(answers@, i as int),
{
    match &answers[i] {
        MetadataAnswer::Tags(load) => load.tags.as_slice(),
        _ => vstd::pervasive::unreached(),
    }
}

fn warning_in(answers: &[MetadataAnswer], i: usize) -> (w: Option<String>)
    requires
        i < answers@.len(),
    ensures
        opt_view(w) == warning_at(answers@, i as int),
{
    match &answers[i] {
        MetadataAnswer::Tags(load) => opt_string_clone(&load.warning),
        _ => None,
    }
}

/// Classifies an unknown ref against the upstream tags and branches.
fn classify(
    settings: &Settings,
    rp: &mut Replay,
    answers: &[MetadataAnswer],
    idx: usize,
    reference: &ReferenceReport,
    owner: &String,
    repo: &String,
    current: &[char],
    tags: &[RemoteTag],
) -> (r: Result<(RefKind, Option<String>), Halt>)
    requires
        old(rp).pos <= answers@.len(),
    ensures
        match classify_spec(*settings, answers@, old(rp)@, idx, *reference, owner@, repo@, current@, tag_views(tags@)) {
            Flow::Go(c, st) => r matches Ok(x) && x.0 == c.0 && opt_view(x.1) == c.1 && final(rp)@ == st,
            Flow::Stop(h) => r matches Err(e) && halted_as(e, h, final(rp)@),
        },
        final(rp).pos <= answers@.len(),
        final(rp).pos >= old(rp).pos,
        final(rp).memo == old(rp).memo,
{
    let kind = reference.parsed.ref_kind;
    let needs = (kind == RefKind::BranchOrUnknown || kind == RefKind::Branch || kind == RefKind::NonSemverTag)
        && (settings.validate || settings.pin_floating_to_sha);
    if !needs {
        return Ok((kind, None));
    }
    let found = find_named(tags, current);
    if kind == RefKind::BranchOrUnknown {
        match found {
            Some(i) => {
                rp.kinds.push((idx, RefKind::NonSemverTag));
                Ok((RefKind::NonSemverTag, Some(tags[i].sha.clone())))
            },
            None => {
                let branch = rp.ask_branch(answers, owner, repo, current)?;
                match branch.warning {
                    Some(w) => rp.push_diag(diag_for(reference, DiagnosticCode::StaleMetadata, w)),
                    None => {},
                }
                match branch.sha {
                    Some(sha) => {
                        rp.kinds.push((idx, RefKind::Branch));
                        Ok((RefKind::Branch, Some(sha)))
                    },
                    None => Ok((RefKind::BranchOrUnknown, None)),
                }
            },
        }
    } else {
        match found {
            Some(i) => Ok((kind, Some(tags[i].sha.clone()))),
            None => {
                let branch = rp.ask_branch(answers, owner, repo, current)?;
                Ok((kind, branch.sha))
            },
        }
    }
}

/// With `--validate`, checks that a remote ref exists upstream.
fn validate_remote(
    settings: &Settings,
    rp: &mut Replay,
    answers: &[MetadataAnswer],
    reference: &ReferenceReport,
    owner: &String,
    repo: &String,
    current: &[char],
    tags: &[RemoteTag],
    eff: RefKind,
    csha: &Option<String>,
) -> (r: Result<(), Halt>)
    requires
        old(rp).pos <= answers@.len(),
    ensures
        match validate_remote_spec(*settings, answers@, old(rp)@, *reference, owner@, repo@, current@, tag_views(tags@), eff, opt_view(*csha)) {
            Flow::Go(_, st) => r is Ok && final(rp)@ == st,
            Flow::Stop(h) => r matches Err(e) && halted_as(e, h, final(rp)@),
        },
        final(rp).pos <= answers@.len(),
        final(rp).pos >= old(rp).pos,
        final(rp).memo == old(rp).memo,
{
    if !settings.validate {
        return Ok(());
    }
    let exists_upstream = match eff {
        RefKind::SemverLikeTag => find_named(tags, current).is_some(),
        RefKind::NonSemverTag => find_named(tags, current).is_some(),
        RefKind::Branch => csha.is_some(),
        RefKind::BranchOrUnknown => false,
        RefKind::Sha => rp.ask_commit(answers, owner, repo, current)?,
        RefKind::NoRef => true,
    };
    if !exists_upstream {
        handle_missing_ref(settings, reference, rp)?;
    }
    Ok(())
}

/// Loads tags for, classifies and validates one remote reference.
fn front(
    settings: &Settings,
    rp: &mut Replay,
    answers: &[MetadataAnswer],
    idx: usize,
    reference: &ReferenceReport,
    owner: &String,
    repo: &String,
    current: &[char],
    excluded: bool,
) -> (r: Result<(RefKind, Option<String>), Halt>)
    requires
        memo_ok(answers@, old(rp)@),
    ensures
        match front_spec(*settings, answers@, old(rp)@, idx, *reference, owner@, repo@, current@, excluded) {
            Flow::Go(c, st) => r matches Ok(x) && x.0 == c.0 && opt_view(x.1) == c.1 && final(rp)@ == st,
            Flow::Stop(h) => r matches Err(e) && halted_as(e, h, final(rp)@),
        },
        memo_ok(answers@, final(rp)@),
{
    let kind = reference.parsed.ref_kind;
    let semver_update = kind == RefKind::SemverLikeTag;
    let hash = hash_target_of(settings, kind);
    let sha_update = hash && kind == RefKind::Sha;
    let sha_advisory = !hash && kind == RefKind::Sha;
    let needs_class = (kind == RefKind::BranchOrUnknown || kind == RefKind::Branch || kind == RefKind::NonSemverTag)
        && (settings.validate || settings.pin_floating_to_sha);
    let needs = (!excluded && (semver_update || sha_update || sha_advisory || needs_class)) || settings.validate;
    if !needs {
        return Ok((kind, None));
    }
    let ti = rp.load_repo_tags(answers, owner, repo)?;
    match warning_in(answers, ti) {
        Some(w) => rp.push_diag(diag_for(reference, DiagnosticCode::StaleMetadata, w)),
        None => {},
    }
    let ghost st2 = rp@;
    assert(memo_ok(answers@, st2));
    let tags = tags_in(answers, ti);
    let c = classify(settings, rp, answers, idx, reference, owner, repo, current, tags)?;
    validate_remote(settings, rp, answers, reference, owner, repo, current, tags, c.0, &c.1)?;
    proof {
        let st = rp@;
        assert forall|k: (Seq<char>, Seq<char>)| #[trigger] st.memo.contains_key(k) implies st.memo[k] < st.pos
            && answers@[st.memo[k] as int] is Tags by {
            assert(st2.memo.contains_key(k));
        }
    }
    Ok(c)
}

/// Proposes the update of one remote reference that is not excluded.
fn back(
    settings: &Settings,
    rp: &mut Replay,
    answers: &[MetadataAnswer],
    reference: &ReferenceReport,
    owner: &String,
    repo: &String,
    current: &[char],
    eff: RefKind,
    csha: Option<String>,
) -> (r: Result<(), Halt>)
    requires
        memo_ok(answers@, old(rp)@),
    ensures
        match back_spec(*settings, answers@, old(rp)@, *reference, owner@, repo@, current@, eff, opt_view(csha)) {
            Flow::Go(_, st) => r is Ok && final(rp)@ == st,
            Flow::Stop(h) => r matches Err(e) && halted_as(e, h, final(rp)@),
        },
        memo_ok(answers@, final(rp)@),
{
    let ghost st0 = rp@;
    let floating = eff == RefKind::Branch || eff == RefKind::NonSemverTag;
    let update_candidate = if settings.pin_floating_to_sha && floating {
        csha.is_some()
    } else {
        eff == RefKind::SemverLikeTag || eff == RefKind::Sha
    };
    let hash = hash_target_of(settings, eff);
    let sha_advisory = !hash && !settings.pin_floating_to_sha && eff == RefKind::Sha;
    let semver_update = !settings.pin_floating_to_sha && !sha_advisory && (eff == RefKind::SemverLikeTag || (
    hash && eff == RefKind::Sha));
    if !update_candidate && !sha_advisory {
        return Ok(());
    }
    let empty: Vec<RemoteTag> = Vec::new();
    let tags: &[RemoteTag] = match memo_get(&rp.memo, owner, repo) {
        Some(i) => {
            assert(st0.memo.contains_key((owner@, repo@)));
            tags_in(answers, i)
        },
        None => empty.as_slice(),
    };
    assert(tag_views(tags@) == memo_tags(answers@, st0, owner@, repo@)) by {
        if !st0.memo.contains_key((owner@, repo@)) {
            assert(tag_views(tags@) =~= Seq::<RemoteTagView>::empty());
        }
    }
    if settings.pin_floating_to_sha && floating {
        match csha {
            Some(sha) => {
                let sha_chars = chars_of(sha.as_str());
                if !same(&sha_chars, current) {
                    rp.push_update(update_for(reference, current, sha));
                }
            },
            None => {},
        }
        proof { lemma_memo_ok_mono(answers@, st0, rp@); }
        return Ok(());
    }
    if sha_advisory {
        let d = select_hash_update_target(settings, rp, answers, reference, current, tags)?;
        match &d.target {
            Some(t) => {
                let tsha = chars_of(t.sha.as_str());
                if tsha.len() > 0 && !eq_ignore_ascii_case_exec(&tsha, current) {
                    rp.push_diag(diag_for(reference, DiagnosticCode::ShaUpdateAvailable, advisory(current, t)));
                }
            },
            None => {},
        }
        if d.current_missing {
            handle_missing_ref(settings, reference, rp)?;
        }
        match d.diagnostic {
            Some(m) => rp.push_diag(diag_for(reference, DiagnosticCode::TargetUnavailable, m)),
            None => {},
        }
        proof { lemma_memo_ok_mono(answers@, st0, rp@); }
        return Ok(());
    }
    if !semver_update {
        return Ok(());
    }
    let d = if hash {
        select_hash_update_target(settings, rp, answers, reference, current, tags)?
    } else {
        select_tag_update_target(settings, rp, answers, reference, current, tags)?
    };
    match d.target {
        None => {
            if d.current_missing {
                handle_missing_ref(settings, reference, rp)?;
            }
            match d.diagnostic {
                Some(m) => rp.push_diag(diag_for(reference, DiagnosticCode::TargetUnavailable, m)),
                None => {},
            }
        },
        Some(t) => {
            let target_ref = if hash { t.sha } else { t.name };
            let tr = chars_of(target_ref.as_str());
            if !same(&tr, current) && (!d.current_missing || settings.missing_ref == MissingRefPolicy::Fallback) {
                rp.push_update(update_for(reference, current, target_ref));
            } else {
                match d.diagnostic {
                    Some(m) => rp.push_diag(diag_for(reference, DiagnosticCode::TargetUnavailable, m)),
                    None => {},
                }
            }
        },
    }
    proof { lemma_memo_ok_mono(answers@, st0, rp@); }
    Ok(())
}

fn advisory(current: &[char], t: &RemoteTag) -> (m: String)
    ensures
        m@ == advisory_message(current@, t@),
{
    let mut out = chars_of("SHA pin ");
    push_all(&mut out, &byte_prefix_of(current, 8));
    push_all(&mut out, &chars_of(" tracks tag "));
    push_all(&mut out, &chars_of(t.name.as_str()));
    push_all(&mut out, &chars_of("; newer SHA "));
    let sha = chars_of(t.sha.as_str());
    push_all(&mut out, &byte_prefix_of(&sha, 8));
    push_all(&mut out, &chars_of(" available \u{2014} run with --latest-hash to update"));
    string_of(&out)
}

proof fn lemma_memo_ok_mono(answers: Seq<MetadataAnswer>, st0: ResState, st1: ResState)
    requires
        memo_ok(answers, st0),
        st1.memo == st0.memo,
        st0.pos <= st1.pos <= answers.len(),
    ensures
        memo_ok(answers, st1),
{
    assert forall|k: (Seq<char>, Seq<char>)| #[trigger] st1.memo.contains_key(k) implies st1.memo[k] < st1.pos
        && answers[st1.memo[k] as int] is Tags by {
        assert(st0.memo.contains_key(k));
    }
}


/// Whether `raw` or `owner/repo` matches an update-exclude glob.
pub fn is_update_excluded(globs: &GlobList, raw: &String, owner: &String, repo: &String) -> (r: bool)
    ensures
        r == (globset_match(globs@, raw@) || globset_match(globs@, owner@ + "/"@ + repo@)),
{
    if globset_is_match(globs, raw.as_str()) {
        return true;
    }
    let mut name = chars_of(owner.as_str());
    push_all(&mut name, &chars_of("/"));
    push_all(&mut name, &chars_of(repo.as_str()));
    let name = string_of(&name);
    globset_is_match(globs, name.as_str())
}

/// Everything resolution does for one reference: a failed lookup is
/// reported against it and the reference given up.
fn process_ref(
    settings: &Settings,
    globs: &GlobList,
    rp: &mut Replay,
    answers: &[MetadataAnswer],
    idx: usize,
    reference: &ReferenceReport,
) -> (r: Result<(), Halt>)
    requires
        memo_ok(answers@, old(rp)@),
    ensures
        match process_ref_spec(*settings, globs@, answers@, old(rp)@, idx, *reference) {
            Flow::Go(_, st) => r is Ok && final(rp)@ == st,
            Flow::Stop(h) => r matches Err(e) && e@ == h && !(h is Lookup),
        },
        memo_ok(answers@, final(rp)@),
{
    match process_ref_steps_exec(settings, globs, rp, answers, idx, reference) {
        Ok(()) => Ok(()),
        Err(Halt::Lookup(m)) => {
            let d = Diagnostic { file: reference.file.clone(), line: Some(reference.line), message: m, category: DiagnosticCategory::Metadata, code: DiagnosticCode::MetadataLookupFailed };
            let ghost before = rp@;
            rp.push_diag(d);
            proof { lemma_memo_ok_mono(answers@, before, rp@); }
            Ok(())
        },
        Err(h) => Err(h),
    }
}

/// The steps of one reference.
fn process_ref_steps_exec(
    settings: &Settings,
    globs: &GlobList,
    rp: &mut Replay,
    answers: &[MetadataAnswer],
    idx: usize,
    reference: &ReferenceReport,
) -> (r: Result<(), Halt>)
    requires
        memo_ok(answers@, old(rp)@),
    ensures
        match process_ref_steps(*settings, globs@, answers@, old(rp)@, idx, *reference) {
            Flow::Go(_, st) => r is Ok && final(rp)@ == st,
            Flow::Stop(h) => r matches Err(e) && halted_as(e, h, final(rp)@),
        },
        memo_ok(answers@, final(rp)@),
{
    let ghost st0 = rp@;
    if reference.parsed.kind != ReferenceKind::RemoteAction && reference.parsed.kind != ReferenceKind::ReusableWorkflow {
        if settings.validate {
            validate_local_reference(reference, rp, answers)?;
            proof { lemma_memo_ok_mono(answers@, st0, rp@); }
        }
        return Ok(());
    }
    let (owner, repo, current) = match (&reference.parsed.owner, &reference.parsed.repo, &reference.parsed.ref_name) {
        (Some(o), Some(r), Some(c)) => (o, r, c),
        _ => return Ok(()),
    };
    let excluded = reference.update_ignored || is_update_excluded(globs, &reference.raw, owner, repo);
    let current_chars = chars_of(current.as_str());
    let c = front(settings, rp, answers, idx, reference, owner, repo, &current_chars, excluded)?;
    if excluded {
        return Ok(());
    }
    back(settings, rp, answers, reference, owner, repo, &current_chars, c.0, c.1)
}

proof fn lemma_run_stops(s: Settings, globs: Seq<Seq<char>>, answers: Seq<MetadataAnswer>, refs: Seq<ReferenceReport>, i: int, n: int, h: HaltView)
    requires
        0 <= i <= n,
        run_spec(s, globs, answers, refs, i) == Flow::<()>::Stop(h),
    ensures
        run_spec(s, globs, answers, refs, n) == Flow::<()>::Stop(h),
    decreases n - i,
{
    if i < n {
        lemma_run_stops(s, globs, answers, refs, i + 1, n, h);
    }
}

fn halted(h: Halt) -> (step: ResolveStep)
    ensures
        step_view(step) == (match h@ {
            HaltView::Need(q) => StepView::Need(q),
            HaltView::Fail(m) => StepView::Failed(m),
            HaltView::Lookup(m, _) => StepView::Failed(m),
        }),
{
    match h {
        Halt::Need(q) => ResolveStep::Need(q),
        Halt::Fail(m) => ResolveStep::Failed(m),
        Halt::Lookup(m) => ResolveStep::Failed(m),
    }
}

/// Builds the update-exclude glob set, or names the first invalid pattern.
fn build_update_exclude_globset(patterns: &Vec<String>) -> (r: Result<GlobList, String>)
    ensures
        match first_invalid(string_views(patterns@)) {
            Some(p) => r matches Err(m) && m@ == "invalid update exclude glob "@ + p,
            None => if globset_builds(string_views(patterns@)) {
                r matches Ok(g) && g@ == string_views(patterns@)
            } else {
                r matches Err(m) && m@ == "failed to build update exclude glob set"@
            },
        },
{
    match build_glob_list(patterns) {
        Ok(g) => Ok(g),
        Err(GlobBuildError::Invalid(p)) => Err(message2("invalid update exclude glob ", &chars_of(p.as_str()))),
        Err(GlobBuildError::Build) => Err(string_of(&chars_of("failed to build update exclude glob set"))),
    }
}

/// Replays resolution of `references` over the metadata `answers` given so
/// far: the result is the lookup needed next, a failure, or the complete
/// resolution, whose cache report is that of `cache`.
pub fn resolve_updates(
    settings: &Settings,
    cache: &crate::cache::CacheState,
    references: &[ReferenceReport],
    answers: &[MetadataAnswer],
) -> (step: ResolveStep)
    ensures
        step_view(step) == resolve_spec(*settings, answers@, references@),
        step matches ResolveStep::Done(res) ==> res.cache == cache.report,
{
    let globs = match build_update_exclude_globset(&settings.update_exclude) {
        Ok(g) => g,
        Err(m) => return ResolveStep::Failed(m),
    };
    let ghost gv = globs@;
    let mut rp = Replay::new();
    assert(rp@ == initial_state());
    let mut i: usize = 0;
    while i < references.len()
        invariant
            i <= references.len(),
            gv == globs@,
            gv == string_views(settings.update_exclude@),
            first_invalid(gv) is None,
            globset_builds(gv),
            memo_ok(answers@, rp@),
            run_spec(*settings, gv, answers@, references@, i as int) == Flow::<()>::Go((), rp@),
        decreases references.len() - i,
    {
        match process_ref(settings, &globs, &mut rp, answers, i, &references[i]) {
            Ok(()) => {},
            Err(h) => {
                proof {
                    lemma_run_stops(*settings, gv, answers@, references@, i + 1, references@.len() as int, h@);
                    assert(first_invalid(gv) is None);
                    assert(globset_builds(gv));
                    assert(run_spec(*settings, gv, answers@, references@, references@.len() as int) == Flow::<()>::Stop(h@));
                }
                return halted(h);
            },
        }
        i = i + 1;
    }
    ResolveStep::Done(MetadataResolution {
        updates: rp.updates,
        diagnostics: rp.diags,
        cache: cache.report,
        resolved_ref_kinds: rp.kinds,
    })
}


pub open spec fn missing_diag_text() -> Seq<char> {
    "remote ref no longer exists"@
}

/// `--check` fails (exit code 1) when updates are available, when the
/// missing-ref policy is `error` and a missing ref was reported, or when
/// validation found a reference that does not resolve.
pub open spec fn exit_code_spec(s: Settings, updates_empty: bool, diags: Seq<DiagnosticView>) -> Option<i32> {
    if s.check && !updates_empty {
        Some(1)
    } else if s.check && s.missing_ref == MissingRefPolicy::Error && exists|i: int| 0 <= i < diags.len()
        && contains(#[trigger] diags[i].message, missing_diag_text()) {
        Some(1)
    } else if s.check && exists|i: int| 0 <= i < diags.len() && (#[trigger] diags[i]).category == DiagnosticCategory::Validation {
        Some(1)
    } else {
        None
    }
}

/// The exit code a resolution calls for, if any.
pub fn exit_code_for_resolution(settings: &Settings, resolution: &MetadataResolution) -> (code: Option<i32>)
    ensures
        code == exit_code_spec(*settings, resolution.updates@.len() == 0, diag_views(resolution.diagnostics@)),
{
    let ghost dv = diag_views(resolution.diagnostics@);
    if settings.check && resolution.updates.len() != 0 {
        return Some(1);
    }
    if settings.check && settings.missing_ref == MissingRefPolicy::Error {
        let needle = chars_of("remote ref no longer exists");
        let mut i: usize = 0;
        while i < resolution.diagnostics.len()
            invariant
                i <= resolution.diagnostics@.len(),
                dv == diag_views(resolution.diagnostics@),
                needle@ == missing_diag_text(),
                settings.check,
                settings.missing_ref == MissingRefPolicy::Error,
                resolution.updates@.len() == 0,
                forall|j: int| 0 <= j < i ==> !contains(#[trigger] dv[j].message, missing_diag_text()),
            decreases resolution.diagnostics@.len() - i,
        {
            assert(dv[i as int] == resolution.diagnostics@[i as int]@);
            let message = chars_of(resolution.diagnostics[i].message.as_str());
            if has_text(&message, &needle) {
                assert(contains(dv[i as int].message, missing_diag_text()));
                return Some(1);
            }
            i = i + 1;
        }
    }
    if settings.check {
        let mut i: usize = 0;
        while i < resolution.diagnostics.len()
            invariant
                i <= resolution.diagnostics@.len(),
                dv == diag_views(resolution.diagnostics@),
                settings.check,
                resolution.updates@.len() == 0,
                !(settings.missing_ref == MissingRefPolicy::Error && exists|j: int| 0 <= j < dv.len()
                    && contains(#[trigger] dv[j].message, missing_diag_text())),
                forall|j: int| 0 <= j < i ==> (#[trigger] dv[j]).category != DiagnosticCategory::Validation,
            decreases resolution.diagnostics@.len() - i,
        {
            assert(dv[i as int] == resolution.diagnostics@[i as int]@);
            if resolution.diagnostics[i].category == DiagnosticCategory::Validation {
                return Some(1);
            }
            i = i + 1;
        }
    }
    None
}

/// `<url>` without its angle brackets.
pub open spec fn strip_angles(u: Seq<char>) -> Option<Seq<char>> {
    if u.len() >= 2 && u[0] == '<' && u.last() == '>' {
        Some(u.subrange(1, u.len() - 1))
    } else {
        None
    }
}

/// A link's parameters include `rel="next"`.
pub open spec fn is_next_link(link: Seq<char>) -> bool {
    let parts = split(link, ';');
    exists|j: int| 1 <= j < parts.len() && trim(#[trigger] parts[j]) == "rel=\"next\""@
}

/// The URL of the first link marked `rel="next"`, if it is written `<url>`.
pub open spec fn next_of(links: Seq<Seq<char>>) -> Option<Seq<char>>
    decreases links.len(),
{
    if links.len() == 0 {
        None
    } else if is_next_link(links[0]) {
        strip_angles(trim(split(links[0], ';')[0]))
    } else {
        next_of(links.drop_first())
    }
}

pub open spec fn next_link_spec(header: Seq<char>) -> Option<Seq<char>> {
    next_of(split(header, ','))
}

/// The `rel="next"` URL of a GitHub `Link` header.
pub fn next_link(link_header: &str) -> (r: Option<String>)
    ensures
        opt_view(r) == next_link_spec(link_header@),
{
    let header = chars_of(link_header);
    let links = split_on(&header, ',');
    let ghost lv = views(links@);
    let rel_next = chars_of("rel=\"next\"");
    let mut i: usize = 0;
    assert(lv.skip(0) =~= lv);
    while i < links.len()
        invariant
            i <= links@.len(),
            lv == views(links@),
            lv.len() == links@.len(),
            lv == split(link_header@, ','),
            rel_next@ == "rel=\"next\""@,
            next_of(lv) == next_of(lv.skip(i as int)),
        decreases links.len() - i,
    {
        assert(lv[i as int] == links@[i as int]@);
        assert(lv.skip(i as int)[0] == lv[i as int]);
        let parts = split_on(&links[i], ';');
        let ghost pv = views(parts@);
        assert(pv.len() == parts@.len());
        let mut j: usize = 1;
        let mut marked = false;
        while j < parts.len()
            invariant
                1 <= j,
                j <= parts@.len() || parts@.len() == 0,
                pv == views(parts@),
                pv.len() == parts@.len(),
                rel_next@ == "rel=\"next\""@,
                marked ==> exists|k: int| 1 <= k < pv.len() && trim(#[trigger] pv[k]) == "rel=\"next\""@,
                !marked ==> forall|k: int| 1 <= k < j && k < pv.len() ==> trim(#[trigger] pv[k]) != "rel=\"next\""@,
            decreases parts.len() - j,
        {
            assert(pv[j as int] == parts@[j as int]@);
            let t = trim_chars(&parts[j]);
            if same(&t, &rel_next) {
                marked = true;
            }
            j = j + 1;
        }
        if marked {
            assert(pv.len() > 0);
            assert(pv[0] == parts@[0]@);
            let url = trim_chars(&parts[0]);
            if url.len() >= 2 && url[0] == '<' && url[url.len() - 1] == '>' {
                let inner = slice_of(&url, 1, url.len() - 1);
                return Some(string_of(&inner));
            }
            return None;
        }
        assert(lv.skip(i as int).drop_first() =~= lv.skip(i + 1));
        i = i + 1;
    }
    None
}

/// Who the metadata requests authenticate as: anonymous, or a digest of the token.
pub open spec fn auth_fingerprint_spec(token: Option<Seq<char>>) -> Seq<char> {
    match token {
        None => "anonymous"@,
        Some(t) => "token:"@ + blake3_hex(vstd::utf8::encode_utf8(t)),
    }
}

/// The authentication identity a cache key is tied to.
pub fn auth_fingerprint(token: Option<&str>) -> (f: String)
    ensures
        f@ == auth_fingerprint_spec(match token {
            Some(t) => Some(t@),
            None => None,
        }),
{
    match token {
        None => string_of(&chars_of("anonymous")),
        Some(t) => {
            let bytes = t.as_bytes();
            let digest = blake3_hex_digest(bytes);
            let d = chars_of(digest.as_str());
            message2("token:", &d)
        },
    }
}

fn token_of(settings: &Settings) -> (t: Option<&str>)
    ensures
        (match t {
            Some(x) => Some(x@),
            None => None::<Seq<char>>,
        }) == opt_view(settings.github_token),
{
    match &settings.github_token {
        Some(t) => Some(t.as_str()),
        None => None,
    }
}

pub open spec fn lookup_key_spec(s: Settings, owner: Seq<u8>, repo: Seq<u8>, mode: Seq<u8>) -> Seq<char> {
    blake3_hex(key_material(
        vstd::utf8::encode_utf8(s.github_api_url@),
        owner,
        repo,
        mode,
        vstd::utf8::encode_utf8(auth_fingerprint_spec(opt_view(s.github_token))),
    ))
}

pub open spec fn tags_mode(s: Settings) -> Seq<char> {
    if s.latest_hash { "tags-commit-sha-v2"@ } else { "tags"@ }
}

fn lookup_key(settings: &Settings, owner: &str, repo: &str, mode: &str) -> (k: String)
    ensures
        k@ == lookup_key_spec(*settings, owner.spec_bytes(), repo.spec_bytes(), mode.spec_bytes()),
{
    let fingerprint = auth_fingerprint(token_of(settings));
    cache_key(CacheKeyParts {
        api_host: settings.github_api_url.as_str(),
        owner,
        repo,
        lookup_mode: mode,
        auth_fingerprint: fingerprint.as_str(),
    })
}

/// The cache key of the tag list of `owner/repo`.
pub fn tags_cache_key(settings: &Settings, owner: &str, repo: &str) -> (k: String)
    ensures
        k@ == lookup_key_spec(*settings, owner.spec_bytes(), repo.spec_bytes(), vstd::utf8::encode_utf8(tags_mode(*settings))),
{
    if settings.latest_hash {
        let mode = string_of(&chars_of("tags-commit-sha-v2"));
        lookup_key(settings, owner, repo, mode.as_str())
    } else {
        let mode = string_of(&chars_of("tags"));
        lookup_key(settings, owner, repo, mode.as_str())
    }
}

/// The cache key of the existence of commit `sha` in `owner/repo`.
pub fn commit_cache_key(settings: &Settings, owner: &str, repo: &str, sha: &str) -> (k: String)
    ensures
        k@ == lookup_key_spec(*settings, owner.spec_bytes(), repo.spec_bytes(), vstd::utf8::encode_utf8("commit:"@ + sha@)),
{
    let s = chars_of(sha);
    let mode = message2("commit:", &s);
    lookup_key(settings, owner, repo, mode.as_str())
}

/// The cache key of branch `branch` of `owner/repo`.
pub fn branch_cache_key(settings: &Settings, owner: &str, repo: &str, branch: &str) -> (k: String)
    ensures
        k@ == lookup_key_spec(*settings, owner.spec_bytes(), repo.spec_bytes(), vstd::utf8::encode_utf8("branch-sha-v2:"@ + branch@)),
{
    let b = chars_of(branch);
    let mode = message2("branch-sha-v2:", &b);
    lookup_key(settings, owner, repo, mode.as_str())
}

} // verus!
