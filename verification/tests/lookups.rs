use gh_actions_updater::lookups::{
    branch_request, branch_step, commit_request, commit_step, ls_remote_branch_result, ls_remote_heads_args,
    ls_remote_tags_args, ls_remote_tags_result, request_headers, tags_begin, tags_step, GitRun, HttpReply,
    LookupStep, TagPagesStep,
};
use gh_actions_updater::metadata::{BranchFetch, CommitFetch, RemoteTag, TagFetch};
use gh_actions_updater::providers::{GitHubRestProvider, GitLsRemoteProvider};

fn provider(token: Option<&str>, fallback: bool) -> GitHubRestProvider {
    GitHubRestProvider {
        api_url: "https://api.github.com".to_string(),
        token: token.map(|t| t.to_string()),
        fallback: if fallback { Some(GitLsRemoteProvider) } else { None },
    }
}

fn tag(name: &str, sha: &str) -> RemoteTag {
    RemoteTag { name: name.to_string(), sha: sha.to_string() }
}

fn pair(a: &str, b: &str) -> (String, String) {
    (a.to_string(), b.to_string())
}

#[test]
fn headers_carry_agent_token_and_etag() {
    let h = request_headers(&provider(Some("tok"), false), "1.2.3", Some("\"e1\""));
    assert_eq!(
        h,
        vec![
            pair("Accept", "application/vnd.github+json"),
            pair("User-Agent", "gh-actions-updater/1.2.3"),
            pair("Authorization", "Bearer tok"),
            pair("If-None-Match", "\"e1\""),
        ]
    );
    let anonymous = request_headers(&provider(None, true), "1.2.3", None);
    assert_eq!(anonymous.len(), 2);
}

#[test]
fn tag_pages_are_followed_and_collected() {
    let p = provider(None, false);
    let (mut state, first) = tags_begin(&p, "0.2.1", "actions", "checkout", Some("old"));
    assert_eq!(first.url, "https://api.github.com/repos/actions/checkout/tags?per_page=100");
    assert_eq!(first.headers.last().unwrap(), &pair("If-None-Match", "old"));

    let page1 = HttpReply::Response {
        status: 200,
        etag: Some("e1".to_string()),
        link: Some("<https://api.github.com/x?page=2>; rel=\"next\", <https://api.github.com/x?page=9>; rel=\"last\"".to_string()),
        body: Some(vec![tag("v2", "b")]),
    };
    let second = match tags_step(&p, "0.2.1", &mut state, page1) {
        TagPagesStep::Request(q) => q,
        other => panic!("unexpected {other:?}"),
    };
    assert_eq!(second.url, "https://api.github.com/x?page=2");
    assert!(second.headers.iter().all(|(n, _)| n != "If-None-Match"));

    let page2 = HttpReply::Response { status: 200, etag: Some("e2".to_string()), link: None, body: Some(vec![tag("v1", "a")]) };
    match tags_step(&p, "0.2.1", &mut state, page2) {
        TagPagesStep::Finish(Ok(TagFetch::Fresh { tags, etag })) => {
            assert_eq!(tags, vec![tag("v2", "b"), tag("v1", "a")]);
            assert_eq!(etag, Some("e1".to_string()));
        }
        other => panic!("unexpected {other:?}"),
    }
}

#[test]
fn not_modified_keeps_cached_tags() {
    let p = provider(None, true);
    let (mut state, _) = tags_begin(&p, "0.2.1", "o", "r", Some("e"));
    let reply = HttpReply::Response { status: 304, etag: None, link: None, body: None };
    assert!(matches!(tags_step(&p, "0.2.1", &mut state, reply), TagPagesStep::Finish(Ok(TagFetch::NotModified))));
    let (mut state, _) = tags_begin(&p, "0.2.1", "o", "r", Some("e"));
    let reply: HttpReply<Vec<RemoteTag>> = HttpReply::Error { code: Some(304), text: "x".to_string() };
    assert!(matches!(tags_step(&p, "0.2.1", &mut state, reply), TagPagesStep::Finish(Ok(TagFetch::NotModified))));
}

#[test]
fn failed_tag_lookup_falls_back_only_when_allowed() {
    let with = provider(None, true);
    let (mut state, _) = tags_begin(&with, "0.2.1", "o", "r", None);
    let reply: HttpReply<Vec<RemoteTag>> = HttpReply::Error { code: Some(403), text: "http status: 403".to_string() };
    match tags_step(&with, "0.2.1", &mut state, reply) {
        TagPagesStep::Fallback(m) => assert_eq!(m, "GitHub REST metadata lookup failed for o/r: http status: 403"),
        other => panic!("unexpected {other:?}"),
    }
    let without = provider(Some("t"), false);
    let (mut state, _) = tags_begin(&without, "0.2.1", "o", "r", None);
    let reply: HttpReply<Vec<RemoteTag>> = HttpReply::Error { code: None, text: "dns".to_string() };
    match tags_step(&without, "0.2.1", &mut state, reply) {
        TagPagesStep::Finish(Err(m)) => assert_eq!(m, "GitHub REST metadata lookup failed for o/r: dns"),
        other => panic!("unexpected {other:?}"),
    }
}

#[test]
fn unreadable_tag_page_is_an_error() {
    let p = provider(None, false);
    let (mut state, _) = tags_begin(&p, "0.2.1", "o", "r", None);
    let reply = HttpReply::Response { status: 200, etag: None, link: None, body: None };
    match tags_step(&p, "0.2.1", &mut state, reply) {
        TagPagesStep::Finish(Err(m)) => assert_eq!(m, "failed to parse GitHub tags response for o/r"),
        other => panic!("unexpected {other:?}"),
    }
}

#[test]
fn branch_lookups() {
    let p = provider(None, true);
    let q = branch_request(&p, "0.2.1", "o", "r", "release/v1", Some("e"));
    assert_eq!(q.url, "https://api.github.com/repos/o/r/branches/release%2Fv1");
    let found = HttpReply::Response { status: 200, etag: Some("e2".to_string()), link: None, body: Some(Some("abc".to_string())) };
    match branch_step(&p, "o", "r", "main", found) {
        LookupStep::Finish(Ok(BranchFetch::Fresh { exists, sha, etag })) => {
            assert!(exists);
            assert_eq!(sha, Some("abc".to_string()));
            assert_eq!(etag, Some("e2".to_string()));
        }
        other => panic!("unexpected {other:?}"),
    }
    let missing: HttpReply<Option<String>> = HttpReply::Error { code: Some(404), text: "nf".to_string() };
    assert!(matches!(
        branch_step(&p, "o", "r", "main", missing),
        LookupStep::Finish(Ok(BranchFetch::Fresh { exists: false, sha: None, etag: None }))
    ));
    let broken: HttpReply<Option<String>> = HttpReply::Error { code: Some(500), text: "boom".to_string() };
    match branch_step(&p, "o", "r", "main", broken) {
        LookupStep::Fallback(m) => assert_eq!(m, "GitHub REST branch lookup failed for o/r@main: boom"),
        other => panic!("unexpected {other:?}"),
    }
    let alone = provider(None, false);
    let broken: HttpReply<Option<String>> = HttpReply::Error { code: Some(500), text: "boom".to_string() };
    match branch_step(&alone, "o", "r", "main", broken) {
        LookupStep::Finish(Err(m)) => assert_eq!(m, "GitHub REST branch lookup failed for o/r@main: boom"),
        other => panic!("unexpected {other:?}"),
    }
    let unreadable: HttpReply<Option<String>> = HttpReply::Response { status: 200, etag: None, link: None, body: None };
    match branch_step(&p, "o", "r", "main", unreadable) {
        LookupStep::Finish(Err(m)) => assert_eq!(m, "failed to parse branch metadata for o/r@main"),
        other => panic!("unexpected {other:?}"),
    }
}

#[test]
fn commit_lookups() {
    let p = provider(None, true);
    let q = commit_request(&p, "0.2.1", "o", "r", "abc", None);
    assert_eq!(q.url, "https://api.github.com/repos/o/r/commits/abc");
    let ok = HttpReply::Response { status: 200, etag: Some("e".to_string()), link: None, body: Some(()) };
    assert!(matches!(commit_step("o", "r", "abc", ok), Ok(CommitFetch::Fresh { exists: true, etag: Some(_) })));
    let nm: HttpReply<()> = HttpReply::Response { status: 304, etag: None, link: None, body: None };
    assert!(matches!(commit_step("o", "r", "abc", nm), Ok(CommitFetch::NotModified)));
    let missing: HttpReply<()> = HttpReply::Error { code: Some(404), text: String::new() };
    assert!(matches!(commit_step("o", "r", "abc", missing), Ok(CommitFetch::Fresh { exists: false, etag: None })));
    let broken: HttpReply<()> = HttpReply::Error { code: Some(500), text: "http status: 500".to_string() };
    assert_eq!(
        commit_step("o", "r", "abc", broken).err().unwrap(),
        "GitHub REST commit lookup failed for o/r@abc: http status: 500"
    );
}

#[test]
fn git_ls_remote_invocations_and_results() {
    assert_eq!(ls_remote_tags_args("o", "r"), vec!["ls-remote", "--tags", "https://github.com/o/r.git"]);
    assert_eq!(
        ls_remote_heads_args("o", "r", "main"),
        vec!["ls-remote", "--heads", "https://github.com/o/r.git", "refs/heads/main"]
    );
    let run = GitRun::Exited {
        success: true,
        stdout: "bbb\trefs/tags/v2\naaa\trefs/tags/v1\nccc\trefs/tags/v1^{}\n".to_string(),
        stderr: String::new(),
    };
    match ls_remote_tags_result("o", "r", run) {
        Ok(TagFetch::Fresh { tags, etag }) => {
            assert_eq!(tags, vec![tag("v1", "ccc"), tag("v2", "bbb")]);
            assert!(etag.is_none());
        }
        other => panic!("unexpected {other:?}"),
    }
    let failed = GitRun::Exited { success: false, stdout: String::new(), stderr: "  fatal: no repo \n".to_string() };
    assert_eq!(ls_remote_tags_result("o", "r", failed).err().unwrap(), "git ls-remote failed for o/r: fatal: no repo");
    assert_eq!(
        ls_remote_branch_result("o", "r", GitRun::NotStarted).err().unwrap(),
        "failed to run git ls-remote for o/r"
    );
    let head = GitRun::Exited { success: true, stdout: String::new(), stderr: String::new() };
    assert!(matches!(
        ls_remote_branch_result("o", "r", head),
        Ok(BranchFetch::Fresh { exists: false, sha: None, etag: None })
    ));
}
