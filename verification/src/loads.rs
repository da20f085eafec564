//! Loading one piece of metadata through the cache: read, maybe refresh, write.
//!
//! Each load is a small state machine. The caller reads the cache entry and
//! reports it; the machine answers with the data or asks for a fetch; the
//! caller fetches and reports the outcome; the machine answers with the
//! entry to write back, if any, and the data or the error.
use vstd::prelude::*;

use crate::action_ref::opt_view;
use crate::cache::CacheLookup;
use crate::config::Settings;
use crate::metadata::{
    auth_fingerprint, auth_fingerprint_spec, tag_views, BranchFetch, BranchLoad, BranchLoadView,
    CommitFetch, RemoteTag, RemoteTagView, TagFetch, TagLoad,
};
use crate::text::{chars_of, push_all, string_of};

verus! {

/// A cached tag list.
#[derive(Debug, Clone)]
pub struct TagCacheValue {
    pub provider: String,
    pub api_host: String,
    pub auth_fingerprint: String,
    pub etag: Option<String>,
    pub tags: Vec<RemoteTag>,
}

/// A cached commit existence check.
#[derive(Debug, Clone)]
pub struct CommitCacheValue {
    pub provider: String,
    pub api_host: String,
    pub auth_fingerprint: String,
    pub etag: Option<String>,
    pub sha: String,
    pub exists: bool,
}

/// A cached branch lookup.
#[derive(Debug, Clone)]
pub struct BranchCacheValue {
    pub provider: String,
    pub api_host: String,
    pub auth_fingerprint: String,
    pub etag: Option<String>,
    pub branch: String,
    pub exists: bool,
    pub sha: Option<String>,
}

pub struct TagCacheView {
    pub provider: Seq<char>,
    pub api_host: Seq<char>,
    pub auth_fingerprint: Seq<char>,
    pub etag: Option<Seq<char>>,
    pub tags: Seq<RemoteTagView>,
}

pub struct CommitCacheView {
    pub provider: Seq<char>,
    pub api_host: Seq<char>,
    pub auth_fingerprint: Seq<char>,
    pub etag: Option<Seq<char>>,
    pub sha: Seq<char>,
    pub exists: bool,
}

pub struct BranchCacheView {
    pub provider: Seq<char>,
    pub api_host: Seq<char>,
    pub auth_fingerprint: Seq<char>,
    pub etag: Option<Seq<char>>,
    pub branch: Seq<char>,
    pub exists: bool,
    pub sha: Option<Seq<char>>,
}

impl View for TagCacheValue {
    type V = TagCacheView;

    open spec fn view(&self) -> TagCacheView {
        TagCacheView {
            provider: self.provider@,
            api_host: self.api_host@,
            auth_fingerprint: self.auth_fingerprint@,
            etag: opt_view(self.etag),
            tags: tag_views(self.tags@),
        }
    }
}

impl View for CommitCacheValue {
    type V = CommitCacheView;

    open spec fn view(&self) -> CommitCacheView {
        CommitCacheView {
            provider: self.provider@,
            api_host: self.api_host@,
            auth_fingerprint: self.auth_fingerprint@,
            etag: opt_view(self.etag),
            sha: self.sha@,
            exists: self.exists,
        }
    }
}

impl View for BranchCacheValue {
    type V = BranchCacheView;

    open spec fn view(&self) -> BranchCacheView {
        BranchCacheView {
            provider: self.provider@,
            api_host: self.api_host@,
            auth_fingerprint: self.auth_fingerprint@,
            etag: opt_view(self.etag),
            branch: self.branch@,
            exists: self.exists,
            sha: opt_view(self.sha),
        }
    }
}

/// What the caller reports to a load.
#[derive(Debug)]
pub enum LoadEvent<V, F> {
    /// What reading the cache entry gave.
    Read(CacheLookup<V>),
    /// What fetching gave, with the stale entry that was being refreshed.
    Fetched { stale: Option<V>, outcome: Result<F, String> },
}

/// What a load asks of the caller.
#[derive(Debug)]
pub enum LoadAction<V, R> {
    /// Fetch, conditionally on `etag` when there is one.
    Fetch { stale: Option<V>, etag: Option<String> },
    /// Write `write` back to the cache when given, then yield `result`.
    Finish { write: Option<V>, result: Result<R, String> },
}

pub enum LoadActionView<V, R> {
    Fetch { stale: Option<V>, etag: Option<Seq<char>> },
    Finish { write: Option<V>, result: Result<R, Seq<char>> },
}

pub struct TagLoadView {
    pub tags: Seq<RemoteTagView>,
    pub warning: Option<Seq<char>>,
}

pub open spec fn tag_load_view(l: TagLoad) -> TagLoadView {
    TagLoadView { tags: tag_views(l.tags@), warning: opt_view(l.warning) }
}

pub open spec fn opt_tag_cache(o: Option<TagCacheValue>) -> Option<TagCacheView> {
    match o {
        Some(v) => Some(v@),
        None => None,
    }
}

pub open spec fn opt_commit_cache(o: Option<CommitCacheValue>) -> Option<CommitCacheView> {
    match o {
        Some(v) => Some(v@),
        None => None,
    }
}

pub open spec fn opt_branch_cache(o: Option<BranchCacheValue>) -> Option<BranchCacheView> {
    match o {
        Some(v) => Some(v@),
        None => None,
    }
}

pub open spec fn tags_action_view(a: LoadAction<TagCacheValue, TagLoad>) -> LoadActionView<TagCacheView, TagLoadView> {
    match a {
        LoadAction::Fetch { stale, etag } => LoadActionView::Fetch { stale: opt_tag_cache(stale), etag: opt_view(etag) },
        LoadAction::Finish { write, result } => LoadActionView::Finish {
            write: opt_tag_cache(write),
            result: match result {
                Ok(l) => Ok(tag_load_view(l)),
                Err(e) => Err(e@),
            },
        },
    }
}

pub open spec fn commit_action_view(a: LoadAction<CommitCacheValue, bool>) -> LoadActionView<CommitCacheView, bool> {
    match a {
        LoadAction::Fetch { stale, etag } => LoadActionView::Fetch { stale: opt_commit_cache(stale), etag: opt_view(etag) },
        LoadAction::Finish { write, result } => LoadActionView::Finish {
            write: opt_commit_cache(write),
            result: match result {
                Ok(b) => Ok(b),
                Err(e) => Err(e@),
            },
        },
    }
}

pub open spec fn branch_action_view(a: LoadAction<BranchCacheValue, BranchLoad>) -> LoadActionView<BranchCacheView, BranchLoadView> {
    match a {
        LoadAction::Fetch { stale, etag } => LoadActionView::Fetch { stale: opt_branch_cache(stale), etag: opt_view(etag) },
        LoadAction::Finish { write, result } => LoadActionView::Finish {
            write: opt_branch_cache(write),
            result: match result {
                Ok(l) => Ok(l@),
                Err(e) => Err(e@),
            },
        },
    }
}

/// A stale entry may stand in for a failed refresh only when the run
/// neither checks nor updates.
pub open spec fn may_use_stale(s: Settings) -> bool {
    !s.check && !s.update
}

pub open spec fn fresh_tag_value(s: Settings, etag: Option<Seq<char>>, tags: Seq<RemoteTagView>) -> TagCacheView {
    TagCacheView {
        provider: "github-rest-or-fallback"@,
        api_host: s.github_api_url@,
        auth_fingerprint: auth_fingerprint_spec(opt_view(s.github_token)),
        etag,
        tags,
    }
}

pub open spec fn stale_tags_warning(owner: Seq<char>, repo: Seq<char>, error: Seq<char>) -> Seq<char> {
    "using stale metadata for "@ + owner + "/"@ + repo + " after refresh failed: "@ + error
}

pub open spec fn tags_not_modified_error(owner: Seq<char>, repo: Seq<char>) -> Seq<char> {
    "metadata provider returned not-modified for "@ + owner + "/"@ + repo + " without cached tags"@
}

/// Loading the tag list of `owner/repo`: a fresh entry is used as it is; a
/// stale one is refreshed conditionally, kept when unmodified, and used with a
/// warning when the refresh fails in a run that neither checks nor updates;
/// otherwise the list is fetched. Fetched lists are written back.
pub open spec fn load_tags_spec(s: Settings, owner: Seq<char>, repo: Seq<char>, ev: LoadEvent<TagCacheValue, TagFetch>) -> LoadActionView<TagCacheView, TagLoadView> {
    match ev {
        LoadEvent::Read(CacheLookup::Fresh(v)) => LoadActionView::Finish {
            write: None,
            result: Ok(TagLoadView { tags: v@.tags, warning: None }),
        },
        LoadEvent::Read(CacheLookup::Stale(v)) => LoadActionView::Fetch { stale: Some(v@), etag: v@.etag },
        LoadEvent::Read(_) => LoadActionView::Fetch { stale: None, etag: None },
        LoadEvent::Fetched { stale, outcome } => match outcome {
            Ok(TagFetch::Fresh { tags, etag }) => LoadActionView::Finish {
                write: Some(fresh_tag_value(s, opt_view(etag), tag_views(tags@))),
                result: Ok(TagLoadView { tags: tag_views(tags@), warning: None }),
            },
            Ok(TagFetch::NotModified) => match stale {
                Some(v) => LoadActionView::Finish {
                    write: Some(v@),
                    result: Ok(TagLoadView { tags: v@.tags, warning: None }),
                },
                None => LoadActionView::Finish { write: None, result: Err(tags_not_modified_error(owner, repo)) },
            },
            Err(e) => match stale {
                Some(v) => if may_use_stale(s) {
                    LoadActionView::Finish {
                        write: None,
                        result: Ok(TagLoadView { tags: v@.tags, warning: Some(stale_tags_warning(owner, repo, e@)) }),
                    }
                } else {
                    LoadActionView::Finish { write: None, result: Err(e@) }
                },
                None => LoadActionView::Finish { write: None, result: Err(e@) },
            },
        },
    }
}

fn clone_tags(tags: &Vec<RemoteTag>) -> (r: Vec<RemoteTag>)
    ensures
        tag_views(r@) == tag_views(tags@),
{
    let mut out: Vec<RemoteTag> = Vec::new();
    let mut i: usize = 0;
    while i < tags.len()
        invariant
            i <= tags@.len(),
            tag_views(out@) == tag_views(tags@).take(i as int),
        decreases tags@.len() - i,
    {
        let ghost before = tag_views(out@);
        out.push(tags[i].duplicate());
        assert(tag_views(out@) =~= before.push(tags@[i as int]@));
        assert(tag_views(tags@).take(i + 1) =~= tag_views(tags@).take(i as int).push(tags@[i as int]@));
        i = i + 1;
    }
    assert(tag_views(tags@).take(tags@.len() as int) =~= tag_views(tags@));
    out
}

fn clone_opt(o: &Option<String>) -> (r: Option<String>)
    ensures
        opt_view(r) == opt_view(*o),
{
    match o {
        Some(s) => Some(s.clone()),
        None => None,
    }
}

fn fingerprint_of(settings: &Settings) -> (f: String)
    ensures
        f@ == auth_fingerprint_spec(opt_view(settings.github_token)),
{
    match &settings.github_token {
        Some(t) => auth_fingerprint(Some(t.as_str())),
        None => auth_fingerprint(None),
    }
}

/// `a`, `owner`, `/`, `repo` and `b`, as a string.
fn repo_message(a: &str, owner: &str, repo: &str, b: &str) -> (m: Vec<char>)
    ensures
        m@ == a@ + owner@ + "/"@ + repo@ + b@,
{
    let mut out = chars_of(a);
    push_all(&mut out, &chars_of(owner));
    push_all(&mut out, &chars_of("/"));
    push_all(&mut out, &chars_of(repo));
    push_all(&mut out, &chars_of(b));
    out
}

/// One step of loading the tag list of `owner/repo`.
pub fn load_tags(settings: &Settings, owner: &str, repo: &str, event: LoadEvent<TagCacheValue, TagFetch>) -> (a: LoadAction<TagCacheValue, TagLoad>)
    ensures
        tags_action_view(a) == load_tags_spec(*settings, owner@, repo@, event),
{
    match event {
        LoadEvent::Read(CacheLookup::Fresh(v)) => LoadAction::Finish {
            write: None,
            result: Ok(TagLoad { tags: v.tags, warning: None }),
        },
        LoadEvent::Read(CacheLookup::Stale(v)) => {
            let etag = clone_opt(&v.etag);
            LoadAction::Fetch { stale: Some(v), etag }
        },
        LoadEvent::Read(_) => LoadAction::Fetch { stale: None, etag: None },
        LoadEvent::Fetched { stale, outcome } => match outcome {
            Ok(TagFetch::Fresh { tags, etag }) => {
                let value = TagCacheValue {
                    provider: string_of(&chars_of("github-rest-or-fallback")),
                    api_host: settings.github_api_url.clone(),
                    auth_fingerprint: fingerprint_of(settings),
                    etag,
                    tags: clone_tags(&tags),
                };
                LoadAction::Finish { write: Some(value), result: Ok(TagLoad { tags, warning: None }) }
            },
            Ok(TagFetch::NotModified) => match stale {
                Some(v) => {
                    let tags = clone_tags(&v.tags);
                    LoadAction::Finish { write: Some(v), result: Ok(TagLoad { tags, warning: None }) }
                },
                None => {
                    let m = repo_message("metadata provider returned not-modified for ", owner, repo, " without cached tags");
                    LoadAction::Finish { write: None, result: Err(string_of(&m)) }
                },
            },
            Err(e) => match stale {
                Some(v) => if !settings.check && !settings.update {
                    let mut m = repo_message("using stale metadata for ", owner, repo, " after refresh failed: ");
                    push_all(&mut m, &chars_of(e.as_str()));
                    LoadAction::Finish {
                        write: None,
                        result: Ok(TagLoad { tags: v.tags, warning: Some(string_of(&m)) }),
                    }
                } else {
                    LoadAction::Finish { write: None, result: Err(e) }
                },
                None => LoadAction::Finish { write: None, result: Err(e) },
            },
        },
    }
}

pub open spec fn fresh_commit_value(s: Settings, etag: Option<Seq<char>>, sha: Seq<char>, exists: bool) -> CommitCacheView {
    CommitCacheView {
        provider: "github-rest"@,
        api_host: s.github_api_url@,
        auth_fingerprint: auth_fingerprint_spec(opt_view(s.github_token)),
        etag,
        sha,
        exists,
    }
}

pub open spec fn commit_not_modified_error(owner: Seq<char>, repo: Seq<char>, sha: Seq<char>) -> Seq<char> {
    "metadata provider returned not-modified for "@ + owner + "/"@ + repo + "@"@ + sha
        + " without cached commit metadata"@
}

/// Loading whether commit `sha` exists in `owner/repo`, through the cache as
/// for tags; a failed refresh of a stale entry falls back to it silently in
/// a run that neither checks nor updates.
pub open spec fn load_commit_spec(s: Settings, owner: Seq<char>, repo: Seq<char>, sha: Seq<char>, ev: LoadEvent<CommitCacheValue, CommitFetch>) -> LoadActionView<CommitCacheView, bool> {
    match ev {
        LoadEvent::Read(CacheLookup::Fresh(v)) => LoadActionView::Finish { write: None, result: Ok(v.exists) },
        LoadEvent::Read(CacheLookup::Stale(v)) => LoadActionView::Fetch { stale: Some(v@), etag: v@.etag },
        LoadEvent::Read(_) => LoadActionView::Fetch { stale: None, etag: None },
        LoadEvent::Fetched { stale, outcome } => match outcome {
            Ok(CommitFetch::Fresh { exists, etag }) => LoadActionView::Finish {
                write: Some(fresh_commit_value(s, opt_view(etag), sha, exists)),
                result: Ok(exists),
            },
            Ok(CommitFetch::NotModified) => match stale {
                Some(v) => LoadActionView::Finish { write: Some(v@), result: Ok(v.exists) },
                None => LoadActionView::Finish { write: None, result: Err(commit_not_modified_error(owner, repo, sha)) },
            },
            Err(e) => match stale {
                Some(v) => if may_use_stale(s) {
                    LoadActionView::Finish { write: None, result: Ok(v.exists) }
                } else {
                    LoadActionView::Finish { write: None, result: Err(e@) }
                },
                None => LoadActionView::Finish { write: None, result: Err(e@) },
            },
        },
    }
}

/// One step of loading whether commit `sha` exists in `owner/repo`.
pub fn load_commit_exists(settings: &Settings, owner: &str, repo: &str, sha: &str, event: LoadEvent<CommitCacheValue, CommitFetch>) -> (a: LoadAction<CommitCacheValue, bool>)
    ensures
        commit_action_view(a) == load_commit_spec(*settings, owner@, repo@, sha@, event),
{
    match event {
        LoadEvent::Read(CacheLookup::Fresh(v)) => LoadAction::Finish { write: None, result: Ok(v.exists) },
        LoadEvent::Read(CacheLookup::Stale(v)) => {
            let etag = clone_opt(&v.etag);
            LoadAction::Fetch { stale: Some(v), etag }
        },
        LoadEvent::Read(_) => LoadAction::Fetch { stale: None, etag: None },
        LoadEvent::Fetched { stale, outcome } => match outcome {
            Ok(CommitFetch::Fresh { exists, etag }) => {
                let value = CommitCacheValue {
                    provider: string_of(&chars_of("github-rest")),
                    api_host: settings.github_api_url.clone(),
                    auth_fingerprint: fingerprint_of(settings),
                    etag,
                    sha: string_of(&chars_of(sha)),
                    exists,
                };
                LoadAction::Finish { write: Some(value), result: Ok(exists) }
            },
            Ok(CommitFetch::NotModified) => match stale {
                Some(v) => {
                    let exists = v.exists;
                    LoadAction::Finish { write: Some(v), result: Ok(exists) }
                },
                None => {
                    let mut m = repo_message("metadata provider returned not-modified for ", owner, repo, "@");
                    push_all(&mut m, &chars_of(sha));
                    push_all(&mut m, &chars_of(" without cached commit metadata"));
                    LoadAction::Finish { write: None, result: Err(string_of(&m)) }
                },
            },
            Err(e) => match stale {
                Some(v) => if !settings.check && !settings.update {
                    LoadAction::Finish { write: None, result: Ok(v.exists) }
                } else {
                    LoadAction::Finish { write: None, result: Err(e) }
                },
                None => LoadAction::Finish { write: None, result: Err(e) },
            },
        },
    }
}

pub open spec fn fresh_branch_value(s: Settings, etag: Option<Seq<char>>, branch: Seq<char>, exists: bool, sha: Option<Seq<char>>) -> BranchCacheView {
    BranchCacheView {
        provider: "github-rest-or-fallback"@,
        api_host: s.github_api_url@,
        auth_fingerprint: auth_fingerprint_spec(opt_view(s.github_token)),
        etag,
        branch,
        exists,
        sha,
    }
}

/// The head commit of an existing branch.
pub open spec fn branch_head(exists: bool, sha: Option<Seq<char>>) -> Option<Seq<char>> {
    if exists { sha } else { None }
}

pub open spec fn stale_branch_warning(owner: Seq<char>, repo: Seq<char>, branch: Seq<char>, error: Seq<char>) -> Seq<char> {
    "using stale branch metadata for "@ + owner + "/"@ + repo + "@"@ + branch + " after refresh failed: "@ + error
}

pub open spec fn branch_not_modified_error(owner: Seq<char>, repo: Seq<char>, branch: Seq<char>) -> Seq<char> {
    "metadata provider returned not-modified for "@ + owner + "/"@ + repo + "@"@ + branch
        + " without cached branch metadata"@
}

/// Loading branch `branch` of `owner/repo`, through the cache as for tags.
pub open spec fn load_branch_spec(s: Settings, owner: Seq<char>, repo: Seq<char>, branch: Seq<char>, ev: LoadEvent<BranchCacheValue, BranchFetch>) -> LoadActionView<BranchCacheView, BranchLoadView> {
    match ev {
        LoadEvent::Read(CacheLookup::Fresh(v)) => LoadActionView::Finish {
            write: None,
            result: Ok(BranchLoadView { sha: branch_head(v.exists, v@.sha), warning: None }),
        },
        LoadEvent::Read(CacheLookup::Stale(v)) => LoadActionView::Fetch { stale: Some(v@), etag: v@.etag },
        LoadEvent::Read(_) => LoadActionView::Fetch { stale: None, etag: None },
        LoadEvent::Fetched { stale, outcome } => match outcome {
            Ok(BranchFetch::Fresh { exists, sha, etag }) => LoadActionView::Finish {
                write: Some(fresh_branch_value(s, opt_view(etag), branch, exists, opt_view(sha))),
                result: Ok(BranchLoadView { sha: branch_head(exists, opt_view(sha)), warning: None }),
            },
            Ok(BranchFetch::NotModified) => match stale {
                Some(v) => LoadActionView::Finish {
                    write: Some(v@),
                    result: Ok(BranchLoadView { sha: branch_head(v.exists, v@.sha), warning: None }),
                },
                None => LoadActionView::Finish { write: None, result: Err(branch_not_modified_error(owner, repo, branch)) },
            },
            Err(e) => match stale {
                Some(v) => if may_use_stale(s) {
                    LoadActionView::Finish {
                        write: None,
                        result: Ok(BranchLoadView {
                            sha: branch_head(v.exists, v@.sha),
                            warning: Some(stale_branch_warning(owner, repo, branch, e@)),
                        }),
                    }
                } else {
                    LoadActionView::Finish { write: None, result: Err(e@) }
                },
                None => LoadActionView::Finish { write: None, result: Err(e@) },
            },
        },
    }
}

fn head_of(exists: bool, sha: &Option<String>) -> (r: Option<String>)
    ensures
        opt_view(r) == branch_head(exists, opt_view(*sha)),
{
    if exists { clone_opt(sha) } else { None }
}

/// One step of loading branch `branch` of `owner/repo`.
pub fn load_branch_exists(settings: &Settings, owner: &str, repo: &str, branch: &str, event: LoadEvent<BranchCacheValue, BranchFetch>) -> (a: LoadAction<BranchCacheValue, BranchLoad>)
    ensures
        branch_action_view(a) == load_branch_spec(*settings, owner@, repo@, branch@, event),
{
    match event {
        LoadEvent::Read(CacheLookup::Fresh(v)) => LoadAction::Finish {
            write: None,
            result: Ok(BranchLoad { sha: head_of(v.exists, &v.sha), warning: None }),
        },
        LoadEvent::Read(CacheLookup::Stale(v)) => {
            let etag = clone_opt(&v.etag);
            LoadAction::Fetch { stale: Some(v), etag }
        },
        LoadEvent::Read(_) => LoadAction::Fetch { stale: None, etag: None },
        LoadEvent::Fetched { stale, outcome } => match outcome {
            Ok(BranchFetch::Fresh { exists, sha, etag }) => {
                let head = head_of(exists, &sha);
                let value = BranchCacheValue {
                    provider: string_of(&chars_of("github-rest-or-fallback")),
                    api_host: settings.github_api_url.clone(),
                    auth_fingerprint: fingerprint_of(settings),
                    etag,
                    branch: string_of(&chars_of(branch)),
                    exists,
                    sha,
                };
                LoadAction::Finish { write: Some(value), result: Ok(BranchLoad { sha: head, warning: None }) }
            },
            Ok(BranchFetch::NotModified) => match stale {
                Some(v) => {
                    let head = head_of(v.exists, &v.sha);
                    LoadAction::Finish { write: Some(v), result: Ok(BranchLoad { sha: head, warning: None }) }
                },
                None => {
                    let mut m = repo_message("metadata provider returned not-modified for ", owner, repo, "@");
                    push_all(&mut m, &chars_of(branch));
                    push_all(&mut m, &chars_of(" without cached branch metadata"));
                    LoadAction::Finish { write: None, result: Err(string_of(&m)) }
                },
            },
            Err(e) => match stale {
                Some(v) => if !settings.check && !settings.update {
                    let mut m = repo_message("using stale branch metadata for ", owner, repo, "@");
                    push_all(&mut m, &chars_of(branch));
                    push_all(&mut m, &chars_of(" after refresh failed: "));
                    push_all(&mut m, &chars_of(e.as_str()));
                    LoadAction::Finish {
                        write: None,
                        result: Ok(BranchLoad { sha: head_of(v.exists, &v.sha), warning: Some(string_of(&m)) }),
                    }
                } else {
                    LoadAction::Finish { write: None, result: Err(e) }
                },
                None => LoadAction::Finish { write: None, result: Err(e) },
            },
        },
    }
}

/// The tag list that a load writes back to the cache is what a later fresh
/// read of that entry yields: the same tags, with no fetch and no warning.
pub proof fn law_written_tags_read_back(
    s: Settings,
    owner: Seq<char>,
    repo: Seq<char>,
    ev: LoadEvent<TagCacheValue, TagFetch>,
    entry: TagCacheValue,
)
    requires
        load_tags_spec(s, owner, repo, ev) matches LoadActionView::Finish { write: Some(w), .. } && w == entry@,
    ensures
        load_tags_spec(s, owner, repo, ev) matches LoadActionView::Finish { result: Ok(l), .. }
            && load_tags_spec(s, owner, repo, LoadEvent::Read(CacheLookup::Fresh(entry)))
            == (LoadActionView::<TagCacheView, TagLoadView>::Finish {
            write: None,
            result: Ok(TagLoadView { tags: l.tags, warning: None }),
        }),
{
}

/// Whether a commit exists, as a load writes it back to the cache, is what a
/// later fresh read of that entry yields, with no fetch.
pub proof fn law_written_commit_read_back(
    s: Settings,
    owner: Seq<char>,
    repo: Seq<char>,
    sha: Seq<char>,
    ev: LoadEvent<CommitCacheValue, CommitFetch>,
    entry: CommitCacheValue,
)
    requires
        load_commit_spec(s, owner, repo, sha, ev) matches LoadActionView::Finish { write: Some(w), .. } && w == entry@,
    ensures
        load_commit_spec(s, owner, repo, sha, ev) matches LoadActionView::Finish { result: Ok(b), .. }
            && load_commit_spec(s, owner, repo, sha, LoadEvent::Read(CacheLookup::Fresh(entry)))
            == (LoadActionView::<CommitCacheView, bool>::Finish { write: None, result: Ok(b) }),
{
}

/// The branch head that a load writes back to the cache is what a later
/// fresh read of that entry yields, with no fetch and no warning.
pub proof fn law_written_branch_read_back(
    s: Settings,
    owner: Seq<char>,
    repo: Seq<char>,
    branch: Seq<char>,
    ev: LoadEvent<BranchCacheValue, BranchFetch>,
    entry: BranchCacheValue,
)
    requires
        load_branch_spec(s, owner, repo, branch, ev) matches LoadActionView::Finish { write: Some(w), .. } && w == entry@,
    ensures
        load_branch_spec(s, owner, repo, branch, ev) matches LoadActionView::Finish { result: Ok(l), .. }
            && load_branch_spec(s, owner, repo, branch, LoadEvent::Read(CacheLookup::Fresh(entry)))
            == (LoadActionView::<BranchCacheView, BranchLoadView>::Finish {
            write: None,
            result: Ok(BranchLoadView { sha: l.sha, warning: None }),
        }),
{
}

} // verus!
