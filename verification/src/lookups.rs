//! The upstream lookups of the providers: which request or `git ls-remote`
//! invocation each lookup makes, and what each answer means.
//!
//! The caller performs the HTTP requests and runs `git`; it hands back the
//! answer as plain values and does what the step says next.
use vstd::prelude::*;

use crate::action_ref::opt_view;
use crate::metadata::{tag_views, BranchFetch, CommitFetch, RemoteTag, TagFetch};
use crate::providers::{encode_branch, encode_branch_spec, ls_head, parse_ls_remote_head, parse_ls_remote_tags, GitHubRestProvider};
use crate::text::{chars_of, message2, push_all, push_str, string_of, trim, trim_chars};

verus! {

/// A GET request: its URL and its headers, in order.
#[derive(Debug, Clone)]
pub struct HttpRequest {
    pub url: String,
    pub headers: Vec<(String, String)>,
}

pub open spec fn header_views(h: Seq<(String, String)>) -> Seq<(Seq<char>, Seq<char>)> {
    h.map_values(|p: (String, String)| (p.0@, p.1@))
}

/// What a request gave.
#[derive(Debug, Clone)]
pub enum HttpReply<B> {
    /// A response with a success or not-modified status: the status, the
    /// `ETag` and `Link` header values, and the body as read (none when it
    /// could not be read as the lookup expects).
    Response { status: u16, etag: Option<String>, link: Option<String>, body: Option<B> },
    /// No usable response: the status code when the server answered with an
    /// error status, and the error's text.
    Error { code: Option<u16>, text: String },
}

/// The request was answered with `304 Not Modified`.
pub open spec fn not_modified<B>(r: HttpReply<B>) -> bool {
    match r {
        HttpReply::Response { status, .. } => status == 304,
        HttpReply::Error { code, .. } => code == Some(304u16),
    }
}

/// The user agent of the requests.
pub open spec fn user_agent(version: Seq<char>) -> Seq<char> {
    "gh-actions-updater/"@ + version
}

/// The headers of a request: the media type, the user agent, the token when
/// there is one, and the ETag to revalidate when there is one.
pub open spec fn headers_spec(version: Seq<char>, token: Option<Seq<char>>, etag: Option<Seq<char>>) -> Seq<(Seq<char>, Seq<char>)> {
    seq![("Accept"@, "application/vnd.github+json"@), ("User-Agent"@, user_agent(version))]
        + match token {
        Some(t) => seq![("Authorization"@, "Bearer "@ + t)],
        None => Seq::empty(),
    } + match etag {
        Some(e) => seq![("If-None-Match"@, e)],
        None => Seq::empty(),
    }
}

fn pair(name: &str, value: Vec<char>) -> (p: (String, String))
    ensures
        p.0@ == name@,
        p.1@ == value@,
{
    (string_of(&chars_of(name)), string_of(&value))
}

/// The headers of a request of `provider` for version `version` of this tool.
pub fn request_headers(provider: &GitHubRestProvider, version: &str, etag: Option<&str>) -> (h: Vec<(String, String)>)
    ensures
        header_views(h@) == headers_spec(version@, opt_view(provider.token), match etag {
            Some(e) => Some(e@),
            None => None,
        }),
{
    let mut h: Vec<(String, String)> = Vec::new();
    h.push(pair("Accept", chars_of("application/vnd.github+json")));
    let mut agent = chars_of("gh-actions-updater/");
    push_str(&mut agent, version);
    h.push(pair("User-Agent", agent));
    match &provider.token {
        Some(t) => {
            let mut bearer = chars_of("Bearer ");
            push_str(&mut bearer, t.as_str());
            h.push(pair("Authorization", bearer));
        },
        None => {},
    }
    match etag {
        Some(e) => h.push(pair("If-None-Match", chars_of(e))),
        None => {},
    }
    assert(header_views(h@) =~= headers_spec(version@, opt_view(provider.token), match etag {
        Some(e) => Some(e@),
        None => None,
    }));
    h
}

/// `api/repos/owner/repo/` followed by `rest`.
pub open spec fn repo_url(api: Seq<char>, owner: Seq<char>, repo: Seq<char>, rest: Seq<char>) -> Seq<char> {
    api + "/repos/"@ + owner + "/"@ + repo + "/"@ + rest
}

fn repo_url_of(api: &str, owner: &str, repo: &str, rest: &[char]) -> (u: String)
    ensures
        u@ == repo_url(api@, owner@, repo@, rest@),
{
    let mut u = chars_of(api);
    push_str(&mut u, "/repos/");
    push_str(&mut u, owner);
    push_str(&mut u, "/");
    push_str(&mut u, repo);
    push_str(&mut u, "/");
    push_all(&mut u, rest);
    string_of(&u)
}

/// The first page of the tags of `owner/repo`.
pub open spec fn tags_url(api: Seq<char>, owner: Seq<char>, repo: Seq<char>) -> Seq<char> {
    repo_url(api, owner, repo, "tags?per_page=100"@)
}

/// Paging through the tags of one repository.
#[derive(Debug, Clone)]
pub struct TagPages {
    pub owner: String,
    pub repo: String,
    /// The tags of the pages read so far, in order.
    pub tags: Vec<RemoteTag>,
    /// The `ETag` of the first page.
    pub etag: Option<String>,
    /// No page has been read yet.
    pub first_page: bool,
}

/// What to do next while paging through tags.
#[derive(Debug)]
pub enum TagPagesStep {
    /// Make this request and hand its reply to `tags_step`.
    Request(HttpRequest),
    /// Ask `git ls-remote` instead; when that fails too, fail with this message.
    Fallback(String),
    /// The lookup is over.
    Finish(Result<TagFetch, String>),
}

/// Starts the tag lookup of `owner/repo`: the state and the first request,
/// which revalidates `etag` when there is one.
pub fn tags_begin(provider: &GitHubRestProvider, version: &str, owner: &str, repo: &str, etag: Option<&str>) -> (r: (TagPages, HttpRequest))
    ensures
        r.0.owner@ == owner@,
        r.0.repo@ == repo@,
        r.0.tags@.len() == 0,
        r.0.etag is None,
        r.0.first_page,
        r.1.url@ == tags_url(provider.api_url@, owner@, repo@),
        header_views(r.1.headers@) == headers_spec(version@, opt_view(provider.token), match etag {
            Some(e) => Some(e@),
            None => None,
        }),
{
    let url = repo_url_of(provider.api_url.as_str(), owner, repo, &chars_of("tags?per_page=100"));
    let headers = request_headers(provider, version, etag);
    let state = TagPages {
        owner: string_of(&chars_of(owner)),
        repo: string_of(&chars_of(repo)),
        tags: Vec::new(),
        etag: None,
        first_page: true,
    };
    (state, HttpRequest { url, headers })
}

/// The message of a failed lookup of `owner/repo`.
pub open spec fn tags_failure(owner: Seq<char>, repo: Seq<char>) -> Seq<char> {
    "GitHub REST metadata lookup failed for "@ + owner + "/"@ + repo
}

/// Takes the reply to the last request of a tag lookup: `304` means the
/// cached tags stand; an error falls back to `git ls-remote` when the
/// provider has that fallback and fails otherwise; a page adds its tags
/// (the first page also gives the `ETag`) and is followed by the request for
/// the `rel="next"` page of its `Link` header, if there is one.
pub fn tags_step(provider: &GitHubRestProvider, version: &str, state: &mut TagPages, reply: HttpReply<Vec<RemoteTag>>) -> (step: TagPagesStep)
    ensures
        final(state).owner@ == old(state).owner@,
        final(state).repo@ == old(state).repo@,
        ({
            let o = old(state).owner@;
            let p = old(state).repo@;
            if not_modified(reply) {
                step matches TagPagesStep::Finish(Ok(TagFetch::NotModified))
            } else {
                match reply {
                    HttpReply::Error { text, .. } => if provider.fallback is Some {
                        step matches TagPagesStep::Fallback(m) && m@ == tags_failure(o, p) + ": "@ + text@
                    } else {
                        step matches TagPagesStep::Finish(Err(m)) && m@ == tags_failure(o, p) + ": "@ + text@
                    },
                    HttpReply::Response { etag, link, body, .. } => match body {
                        None => step matches TagPagesStep::Finish(Err(m))
                            && m@ == "failed to parse GitHub tags response for "@ + o + "/"@ + p,
                        Some(page) => {
                            let tags = tag_views(old(state).tags@) + tag_views(page@);
                            let first_etag = if old(state).first_page { opt_view(etag) } else { opt_view(old(state).etag) };
                            let next = match link {
                                Some(l) => crate::metadata::next_link_spec(l@),
                                None => None,
                            };
                            match next {
                                None => step matches TagPagesStep::Finish(Ok(TagFetch::Fresh { tags: t, etag: e }))
                                    && tag_views(t@) == tags && opt_view(e) == first_etag,
                                Some(u) => step matches TagPagesStep::Request(q)
                                    && q.url@ == u
                                    && header_views(q.headers@) == headers_spec(version@, opt_view(provider.token), None)
                                    && tag_views(final(state).tags@) == tags
                                    && opt_view(final(state).etag) == first_etag
                                    && !final(state).first_page,
                            }
                        },
                    },
                }
            }
        }),
{
    let o = chars_of(state.owner.as_str());
    let p = chars_of(state.repo.as_str());
    let mut failure = chars_of("GitHub REST metadata lookup failed for ");
    push_all(&mut failure, &o);
    push_str(&mut failure, "/");
    push_all(&mut failure, &p);
    match reply {
        HttpReply::Error { code, text } => {
            if code == Some(304u16) {
                return TagPagesStep::Finish(Ok(TagFetch::NotModified));
            }
            push_str(&mut failure, ": ");
            push_str(&mut failure, text.as_str());
            if provider.fallback.is_some() {
                TagPagesStep::Fallback(string_of(&failure))
            } else {
                TagPagesStep::Finish(Err(string_of(&failure)))
            }
        },
        HttpReply::Response { status, etag, link, body } => {
            if status == 304 {
                return TagPagesStep::Finish(Ok(TagFetch::NotModified));
            }
            if state.first_page {
                state.etag = etag;
            }
            let next = match &link {
                Some(l) => crate::metadata::next_link(l.as_str()),
                None => None,
            };
            let mut page = match body {
                Some(page) => page,
                None => {
                    let mut m = chars_of("failed to parse GitHub tags response for ");
                    push_all(&mut m, &o);
                    push_str(&mut m, "/");
                    push_all(&mut m, &p);
                    return TagPagesStep::Finish(Err(string_of(&m)));
                },
            };
            let ghost before = tag_views(state.tags@);
            let ghost added = tag_views(page@);
            state.tags.append(&mut page);
            assert(tag_views(state.tags@) =~= before + added);
            match next {
                None => {
                    let mut tags: Vec<RemoteTag> = Vec::new();
                    std::mem::swap(&mut tags, &mut state.tags);
                    let etag = match &state.etag {
                        Some(e) => Some(e.clone()),
                        None => None,
                    };
                    TagPagesStep::Finish(Ok(TagFetch::Fresh { tags, etag }))
                },
                Some(url) => {
                    state.first_page = false;
                    let headers = request_headers(provider, version, None);
                    TagPagesStep::Request(HttpRequest { url, headers })
                },
            }
        },
    }
}

/// The branch `branch` of `owner/repo`.
pub open spec fn branch_url(api: Seq<char>, owner: Seq<char>, repo: Seq<char>, branch: Seq<char>) -> Seq<char> {
    repo_url(api, owner, repo, "branches/"@ + encode_branch_spec(branch))
}

/// The request for branch `branch` of `owner/repo`, revalidating `etag`.
pub fn branch_request(provider: &GitHubRestProvider, version: &str, owner: &str, repo: &str, branch: &str, etag: Option<&str>) -> (q: HttpRequest)
    ensures
        q.url@ == branch_url(provider.api_url@, owner@, repo@, branch@),
        header_views(q.headers@) == headers_spec(version@, opt_view(provider.token), match etag {
            Some(e) => Some(e@),
            None => None,
        }),
{
    let mut rest = chars_of("branches/");
    push_str(&mut rest, encode_branch(branch).as_str());
    let url = repo_url_of(provider.api_url.as_str(), owner, repo, &rest);
    HttpRequest { url, headers: request_headers(provider, version, etag) }
}

/// What a branch or commit reply comes to.
#[derive(Debug)]
pub enum LookupStep<T> {
    /// Ask `git ls-remote` instead; when that fails too, fail with this message.
    Fallback(String),
    /// The lookup is over.
    Finish(Result<T, String>),
}

pub open spec fn branch_failure(owner: Seq<char>, repo: Seq<char>, branch: Seq<char>) -> Seq<char> {
    "GitHub REST branch lookup failed for "@ + owner + "/"@ + repo + "@"@ + branch
}

/// Reads the reply to a branch request. The body is the branch's head
/// commit as read from the response (`commit.sha`, none when absent), or
/// none when the response is not JSON.
pub fn branch_step(provider: &GitHubRestProvider, owner: &str, repo: &str, branch: &str, reply: HttpReply<Option<String>>) -> (step: LookupStep<BranchFetch>)
    ensures
        if not_modified(reply) {
            step matches LookupStep::Finish(Ok(BranchFetch::NotModified))
        } else {
            match reply {
                HttpReply::Error { code, text } => if code == Some(404u16) {
                    step matches LookupStep::Finish(Ok(BranchFetch::Fresh { exists: false, sha: None, etag: None }))
                } else if provider.fallback is Some {
                    step matches LookupStep::Fallback(m) && m@ == branch_failure(owner@, repo@, branch@) + ": "@ + text@
                } else {
                    step matches LookupStep::Finish(Err(m)) && m@ == branch_failure(owner@, repo@, branch@) + ": "@ + text@
                },
                HttpReply::Response { etag, body, .. } => match body {
                    None => step matches LookupStep::Finish(Err(m))
                        && m@ == "failed to parse branch metadata for "@ + owner@ + "/"@ + repo@ + "@"@ + branch@,
                    Some(sha) => step matches LookupStep::Finish(Ok(BranchFetch::Fresh { exists: true, sha: s, etag: e }))
                        && opt_view(s) == opt_view(sha) && opt_view(e) == opt_view(etag),
                },
            }
        },
{
    let mut failure = chars_of(owner);
    push_str(&mut failure, "/");
    push_str(&mut failure, repo);
    push_str(&mut failure, "@");
    push_str(&mut failure, branch);
    match reply {
        HttpReply::Response { status, etag, body, .. } => {
            if status == 304 {
                return LookupStep::Finish(Ok(BranchFetch::NotModified));
            }
            match body {
                Some(sha) => LookupStep::Finish(Ok(BranchFetch::Fresh { exists: true, sha, etag })),
                None => LookupStep::Finish(Err(message2("failed to parse branch metadata for ", &failure))),
            }
        },
        HttpReply::Error { code, text } => {
            if code == Some(304u16) {
                LookupStep::Finish(Ok(BranchFetch::NotModified))
            } else if code == Some(404u16) {
                LookupStep::Finish(Ok(BranchFetch::Fresh { exists: false, sha: None, etag: None }))
            } else {
                push_str(&mut failure, ": ");
                push_str(&mut failure, text.as_str());
                if provider.fallback.is_some() {
                    LookupStep::Fallback(message2("GitHub REST branch lookup failed for ", &failure))
                } else {
                    LookupStep::Finish(Err(message2("GitHub REST branch lookup failed for ", &failure)))
                }
            }
        },
    }
}

/// The commit `sha` of `owner/repo`.
pub open spec fn commit_url(api: Seq<char>, owner: Seq<char>, repo: Seq<char>, sha: Seq<char>) -> Seq<char> {
    repo_url(api, owner, repo, "commits/"@ + sha)
}

/// The request for commit `sha` of `owner/repo`, revalidating `etag`.
pub fn commit_request(provider: &GitHubRestProvider, version: &str, owner: &str, repo: &str, sha: &str, etag: Option<&str>) -> (q: HttpRequest)
    ensures
        q.url@ == commit_url(provider.api_url@, owner@, repo@, sha@),
        header_views(q.headers@) == headers_spec(version@, opt_view(provider.token), match etag {
            Some(e) => Some(e@),
            None => None,
        }),
{
    let mut rest = chars_of("commits/");
    push_str(&mut rest, sha);
    let url = repo_url_of(provider.api_url.as_str(), owner, repo, &rest);
    HttpRequest { url, headers: request_headers(provider, version, etag) }
}

/// Reads the reply to a commit request: a response means the commit
/// exists, `404` that it does not; there is no fallback for commits.
pub fn commit_step(owner: &str, repo: &str, sha: &str, reply: HttpReply<()>) -> (r: Result<CommitFetch, String>)
    ensures
        if not_modified(reply) {
            r matches Ok(CommitFetch::NotModified)
        } else {
            match reply {
                HttpReply::Response { etag, .. } => r matches Ok(CommitFetch::Fresh { exists: true, etag: e })
                    && opt_view(e) == opt_view(etag),
                HttpReply::Error { code, text } => if code == Some(404u16) {
                    r matches Ok(CommitFetch::Fresh { exists: false, etag: None })
                } else {
                    r matches Err(m) && m@ == "GitHub REST commit lookup failed for "@ + owner@ + "/"@ + repo@ + "@"@ + sha@
                        + ": "@ + text@
                },
            }
        },
{
    match reply {
        HttpReply::Response { status, etag, .. } => {
            if status == 304 {
                Ok(CommitFetch::NotModified)
            } else {
                Ok(CommitFetch::Fresh { exists: true, etag })
            }
        },
        HttpReply::Error { code, text } => {
            if code == Some(304u16) {
                Ok(CommitFetch::NotModified)
            } else if code == Some(404u16) {
                Ok(CommitFetch::Fresh { exists: false, etag: None })
            } else {
                let mut m = chars_of("GitHub REST commit lookup failed for ");
                push_str(&mut m, owner);
                push_str(&mut m, "/");
                push_str(&mut m, repo);
                push_str(&mut m, "@");
                push_str(&mut m, sha);
                push_str(&mut m, ": ");
                push_str(&mut m, text.as_str());
                Err(string_of(&m))
            }
        },
    }
}

/// The clone URL of `owner/repo` on github.com.
pub open spec fn clone_url(owner: Seq<char>, repo: Seq<char>) -> Seq<char> {
    "https://github.com/"@ + owner + "/"@ + repo + ".git"@
}

fn clone_url_of(owner: &str, repo: &str) -> (u: String)
    ensures
        u@ == clone_url(owner@, repo@),
{
    let mut u = chars_of("https://github.com/");
    push_str(&mut u, owner);
    push_str(&mut u, "/");
    push_str(&mut u, repo);
    push_str(&mut u, ".git");
    string_of(&u)
}

/// The arguments of `git` that list the tags of `owner/repo`.
pub fn ls_remote_tags_args(owner: &str, repo: &str) -> (a: Vec<String>)
    ensures
        a@.len() == 3,
        a@[0]@ == "ls-remote"@,
        a@[1]@ == "--tags"@,
        a@[2]@ == clone_url(owner@, repo@),
{
    let mut a: Vec<String> = Vec::new();
    a.push(string_of(&chars_of("ls-remote")));
    a.push(string_of(&chars_of("--tags")));
    a.push(clone_url_of(owner, repo));
    a
}

/// The arguments of `git` that show the head of branch `branch` of `owner/repo`.
pub fn ls_remote_heads_args(owner: &str, repo: &str, branch: &str) -> (a: Vec<String>)
    ensures
        a@.len() == 4,
        a@[0]@ == "ls-remote"@,
        a@[1]@ == "--heads"@,
        a@[2]@ == clone_url(owner@, repo@),
        a@[3]@ == "refs/heads/"@ + branch@,
{
    let mut a: Vec<String> = Vec::new();
    a.push(string_of(&chars_of("ls-remote")));
    a.push(string_of(&chars_of("--heads")));
    a.push(clone_url_of(owner, repo));
    let mut r = chars_of("refs/heads/");
    push_str(&mut r, branch);
    a.push(string_of(&r));
    a
}

/// How a run of `git` went: it could not be started, or it exited,
/// successfully or not, with this output (decoded lossily).
#[derive(Debug, Clone)]
pub enum GitRun {
    NotStarted,
    Exited { success: bool, stdout: String, stderr: String },
}

/// The failure of a run of `git ls-remote` for `owner/repo`, if it failed.
pub open spec fn git_failure(owner: Seq<char>, repo: Seq<char>, run: GitRun) -> Option<Seq<char>> {
    match run {
        GitRun::NotStarted => Some("failed to run git ls-remote for "@ + owner + "/"@ + repo),
        GitRun::Exited { success, stderr, .. } => if success {
            None
        } else {
            Some("git ls-remote failed for "@ + owner + "/"@ + repo + ": "@ + trim(stderr@))
        },
    }
}

fn git_failure_of(owner: &str, repo: &str, run: &GitRun) -> (r: Option<String>)
    ensures
        opt_view(r) == git_failure(owner@, repo@, *run),
{
    match run {
        GitRun::NotStarted => {
            let mut m = chars_of("failed to run git ls-remote for ");
            push_str(&mut m, owner);
            push_str(&mut m, "/");
            push_str(&mut m, repo);
            Some(string_of(&m))
        },
        GitRun::Exited { success, stderr, .. } => {
            if *success {
                None
            } else {
                let mut m = chars_of("git ls-remote failed for ");
                push_str(&mut m, owner);
                push_str(&mut m, "/");
                push_str(&mut m, repo);
                push_str(&mut m, ": ");
                push_all(&mut m, &trim_chars(&chars_of(stderr.as_str())));
                Some(string_of(&m))
            }
        },
    }
}

/// The tags that a run of `git ls-remote --tags` listed: those of its
/// output, ordered by name, with no `ETag`.
pub fn ls_remote_tags_result(owner: &str, repo: &str, run: GitRun) -> (r: Result<TagFetch, String>)
    ensures
        match git_failure(owner@, repo@, run) {
            Some(m) => r matches Err(e) && e@ == m,
            None => r matches Ok(TagFetch::Fresh { tags, etag: None })
                && crate::providers::sorted_by_name(tag_views(tags@))
                && crate::providers::lists_exactly(tag_views(tags@), crate::providers::ls_map(
                    crate::text::lines(run->stdout@),
                )),
        },
{
    match git_failure_of(owner, repo, &run) {
        Some(m) => Err(m),
        None => match run {
            GitRun::Exited { stdout, .. } => match parse_ls_remote_tags(stdout.as_str()) {
                Ok(tags) => Ok(TagFetch::Fresh { tags, etag: None }),
                Err(e) => Err(e),
            },
            GitRun::NotStarted => Err(string_of(&chars_of("failed to run git ls-remote"))),
        },
    }
}

/// The branch head that a run of `git ls-remote --heads` printed: the branch
/// exists when a commit was printed.
pub fn ls_remote_branch_result(owner: &str, repo: &str, run: GitRun) -> (r: Result<BranchFetch, String>)
    ensures
        match git_failure(owner@, repo@, run) {
            Some(m) => r matches Err(e) && e@ == m,
            None => r matches Ok(BranchFetch::Fresh { exists, sha, etag: None })
                && opt_view(sha) == ls_head(run->stdout@)
                && exists == (sha is Some),
        },
{
    match git_failure_of(owner, repo, &run) {
        Some(m) => Err(m),
        None => match run {
            GitRun::Exited { stdout, .. } => {
                let sha = parse_ls_remote_head(stdout.as_str());
                Ok(BranchFetch::Fresh { exists: sha.is_some(), sha, etag: None })
            },
            GitRun::NotStarted => Err(string_of(&chars_of("failed to run git ls-remote"))),
        },
    }
}

} // verus!
