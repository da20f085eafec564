//! Where upstream metadata comes from: the GitHub REST API, with
//! `git ls-remote` as the fallback for anonymous use of github.com.
//!
//! The requests themselves are made by the caller; this module holds the
//! providers' configuration and the parsing of what `git ls-remote` prints.
use vstd::prelude::*;

use crate::action_ref::opt_view;
use crate::config::Settings;
use crate::metadata::{tag_views, BranchFetch, CommitFetch, RemoteTag, RemoteTagView, TagFetch};
use crate::tag_memo::{name_index_entries, name_index_get, name_index_insert, name_index_new, NameIndex};
use crate::text::{
    chars_of, ends_with, has_prefix, has_suffix, is_space, is_space_exec, lemma_name_less_total,
    lemma_name_less_transitive, lines, lines_of, name_before, name_less, same, slice_of,
    starts_with, string_of, trim, trim_chars, trim_start, views,
};

verus! {

/// `s` without any trailing `c` (`str::trim_end_matches` with one character).
pub open spec fn trim_end_char(s: Seq<char>, c: char) -> Seq<char>
    decreases s.len(),
{
    if s.len() > 0 && s.last() == c {
        trim_end_char(s.drop_last(), c)
    } else {
        s
    }
}

/// The public GitHub API, the one endpoint for which `git ls-remote` can stand in.
pub open spec fn public_api_url() -> Seq<char> {
    "https://api.github.com"@
}

/// Lists tags and branches with `git ls-remote` against github.com.
#[derive(Debug, Clone, Copy)]
pub struct GitLsRemoteProvider;

/// Looks metadata up through the GitHub REST API at `api_url`.
#[derive(Debug, Clone)]
pub struct GitHubRestProvider {
    pub api_url: String,
    pub token: Option<String>,
    pub fallback: Option<GitLsRemoteProvider>,
}

fn trim_end_slash(s: &[char]) -> (out: Vec<char>)
    ensures
        out@ == trim_end_char(s@, '/'),
{
    let mut b: usize = s.len();
    assert(s@.subrange(0, b as int) =~= s@);
    while b > 0 && s[b - 1] == '/'
        invariant
            b <= s.len(),
            trim_end_char(s@, '/') == trim_end_char(s@.subrange(0, b as int), '/'),
        decreases b,
    {
        assert(s@.subrange(0, b as int).drop_last() =~= s@.subrange(0, b - 1));
        b = b - 1;
    }
    slice_of(s, 0, b)
}

impl GitHubRestProvider {
    /// The provider for `settings`: the API URL without trailing slashes, the
    /// token, and `git ls-remote` as fallback exactly when the API is the
    /// public one and no token is set.
    pub fn new(settings: &Settings) -> (p: Self)
        ensures
            p.api_url@ == trim_end_char(settings.github_api_url@, '/'),
            opt_view(p.token) == opt_view(settings.github_token),
            p.fallback is Some <==> (p.api_url@ == public_api_url() && settings.github_token is None),
    {
        let url = trim_end_slash(&chars_of(settings.github_api_url.as_str()));
        let public = chars_of("https://api.github.com");
        let fallback = if same(&url, &public) && settings.github_token.is_none() {
            Some(GitLsRemoteProvider)
        } else {
            None
        };
        let token = match &settings.github_token {
            Some(t) => Some(t.clone()),
            None => None,
        };
        GitHubRestProvider { api_url: string_of(&url), token, fallback }
    }
}

/// A source of upstream metadata. Branch and commit lookups are optional.
pub trait TagProvider {
    fn fetch_tags(&self, owner: &str, repo: &str, etag: Option<&str>) -> Result<TagFetch, String>;

    /// The head of `branch`. A provider without branch lookups fails with a
    /// message that says so.
    fn fetch_branch(&self, owner: &str, repo: &str, branch: &str, etag: Option<&str>) -> (r: Result<BranchFetch, String>)
        default_ensures
            r matches Err(m) && m@ == "branch metadata lookup is not supported by this provider"@,
    {
        Err(string_of(&chars_of("branch metadata lookup is not supported by this provider")))
    }

    /// Whether commit `sha` exists. A provider without commit lookups fails
    /// with a message that says so.
    fn fetch_commit(&self, owner: &str, repo: &str, sha: &str, etag: Option<&str>) -> (r: Result<CommitFetch, String>)
        default_ensures
            r matches Err(m) && m@ == "commit metadata lookup is not supported by this provider"@,
    {
        Err(string_of(&chars_of("commit metadata lookup is not supported by this provider")))
    }
}

/// The position of the first white space in `s`.
pub open spec fn first_space(s: Seq<char>) -> Option<int>
    decreases s.len(),
{
    if s.len() == 0 {
        None
    } else if is_space(s[0]) {
        Some(0)
    } else {
        match first_space(s.drop_first()) {
            Some(i) => Some(i + 1),
            None => None,
        }
    }
}

pub proof fn lemma_first_space_bounds(s: Seq<char>)
    ensures
        first_space(s) is Some ==> 0 <= first_space(s)->0 < s.len() && is_space(s[first_space(s)->0]),
    decreases s.len(),
{
    if s.len() > 0 && !is_space(s[0]) {
        lemma_first_space_bounds(s.drop_first());
    }
}

fn find_space(s: &[char]) -> (r: Option<usize>)
    ensures
        match r {
            Some(i) => first_space(s@) == Some(i as int),
            None => first_space(s@) is None,
        },
{
    let mut i: usize = 0;
    assert(s@.skip(0) =~= s@);
    while i < s.len()
        invariant
            i <= s.len(),
            first_space(s@) == match first_space(s@.skip(i as int)) {
                Some(k) => Some(k + i),
                None => None,
            },
        decreases s.len() - i,
    {
        if is_space_exec(s[i]) {
            return Some(i);
        }
        assert(s@.skip(i as int).drop_first() =~= s@.skip(i + 1));
        i = i + 1;
    }
    None
}

/// What a line of `git ls-remote --tags` names: the tag, its commit, and
/// whether the line is the peeled commit of an annotated tag.
pub open spec fn ls_line(line: Seq<char>) -> Option<(Seq<char>, Seq<char>, bool)> {
    match first_space(line) {
        None => None,
        Some(i) => {
            let sha = line.take(i);
            let reference = trim(line.skip(i + 1));
            if starts_with(reference, "refs/tags/"@) {
                let raw = reference.skip("refs/tags/"@.len() as int);
                if ends_with(raw, "^{}"@) {
                    Some((raw.take(raw.len() - "^{}"@.len()), sha, true))
                } else {
                    Some((raw, sha, false))
                }
            } else {
                None
            }
        },
    }
}

/// The tags named so far after one more line: a peeled commit replaces the
/// tag object; otherwise the first line for a name wins.
pub open spec fn ls_step(m: Map<Seq<char>, Seq<char>>, line: Seq<char>) -> Map<Seq<char>, Seq<char>> {
    match ls_line(line) {
        None => m,
        Some((name, sha, peeled)) => if peeled || !m.contains_key(name) {
            m.insert(name, sha)
        } else {
            m
        },
    }
}

/// The tags that the lines `ls` name, each with its commit.
pub open spec fn ls_map(ls: Seq<Seq<char>>) -> Map<Seq<char>, Seq<char>>
    decreases ls.len(),
{
    if ls.len() == 0 {
        Map::empty()
    } else {
        ls_step(ls_map(ls.drop_last()), ls.last())
    }
}

/// The tag named by one line of `git ls-remote --tags` output, if any.
fn parse_ls_line(line: &[char]) -> (r: Option<(Vec<char>, Vec<char>, bool)>)
    ensures
        match r {
            Some((name, sha, peeled)) => ls_line(line@) == Some((name@, sha@, peeled)),
            None => ls_line(line@) is None,
        },
{
    let i = match find_space(line) {
        None => return None,
        Some(i) => i,
    };
    proof {
        lemma_first_space_bounds(line@);
        assert(first_space(line@) == Some(i as int));
        assert(first_space(line@)->0 == i);
        assert(i < line@.len());
    }
    let n = line.len();
    let sha = slice_of(line, 0, i);
    let reference = trim_chars(&slice_of(line, i + 1, n));
    assert(sha@ =~= line@.take(i as int));
    let prefix = chars_of("refs/tags/");
    if !has_prefix(&reference, &prefix) {
        return None;
    }
    let raw = slice_of(&reference, prefix.len(), reference.len());
    assert(raw@ =~= reference@.skip("refs/tags/"@.len() as int));
    let peel = chars_of("^{}");
    if has_suffix(&raw, &peel) {
        let name = slice_of(&raw, 0, raw.len() - peel.len());
        assert(name@ =~= raw@.take(raw@.len() - "^{}"@.len()));
        Some((name, sha, true))
    } else {
        Some((raw, sha, false))
    }
}

/// `tags` is ordered strictly by name.
pub open spec fn sorted_by_name(tags: Seq<RemoteTagView>) -> bool {
    forall|i: int, j: int| 0 <= i < j < tags.len() ==> name_less(#[trigger] tags[i].name, #[trigger] tags[j].name)
}

/// `tags` lists exactly the tags of `m`, each with its commit.
pub open spec fn lists_exactly(tags: Seq<RemoteTagView>, m: Map<Seq<char>, Seq<char>>) -> bool {
    &&& forall|i: int| 0 <= i < tags.len() ==> #[trigger] m.contains_key(tags[i].name) && m[tags[i].name] == tags[i].sha
    &&& forall|k: Seq<char>| #[trigger] m.contains_key(k) ==> exists|i: int| 0 <= i < tags.len() && tags[i].name == k
}

/// The names of `entries` are pairwise different.
pub open spec fn distinct_names(entries: Seq<RemoteTagView>) -> bool {
    forall|i: int, j: int| 0 <= i < j < entries.len() ==> #[trigger] entries[i].name != #[trigger] entries[j].name
}

/// `out` holds the first `n` of `entries`, in some order.
#[verifier::opaque]
pub open spec fn holds_prefix(out: Seq<RemoteTagView>, entries: Seq<RemoteTagView>, n: int) -> bool {
    &&& out.len() == n
    &&& forall|a: int| 0 <= a < out.len() ==> exists|b: int| 0 <= b < n && #[trigger] out[a] == entries[b]
    &&& forall|b: int| 0 <= b < n ==> exists|a: int| 0 <= a < out.len() && out[a] == #[trigger] entries[b]
}

/// Inserts `x` into `out`, which is ordered by name and has no entry of
/// `x`'s name, at the place that keeps it ordered.
fn insert_by_name(out: &mut Vec<RemoteTag>, x: RemoteTag) -> (p: usize)
    requires
        sorted_by_name(tag_views(old(out)@)),
        forall|a: int| 0 <= a < tag_views(old(out)@).len() ==> #[trigger] tag_views(old(out)@)[a].name != x@.name,
    ensures
        p <= old(out)@.len(),
        tag_views(final(out)@) == tag_views(old(out)@).insert(p as int, x@),
        sorted_by_name(tag_views(final(out)@)),
{
    let ghost old_out = tag_views(out@);
    let xn = chars_of(x.name.as_str());
    let mut p: usize = 0;
    while p < out.len()
        invariant
            p <= out@.len(),
            old_out == tag_views(out@),
            xn@ == x.name@,
            forall|j: int| 0 <= j < p ==> !name_less(x.name@, #[trigger] out@[j].name@),
        ensures
            p <= out@.len(),
            old_out == tag_views(out@),
            forall|j: int| 0 <= j < p ==> !name_less(x.name@, #[trigger] out@[j].name@),
            p < out@.len() ==> name_less(x.name@, out@[p as int].name@),
        decreases out@.len() - p,
    {
        let on = chars_of(out[p].name.as_str());
        if name_before(&xn, &on) {
            break;
        }
        p = p + 1;
    }
    proof {
        assert forall|j: int| 0 <= j < p implies name_less(#[trigger] old_out[j].name, x@.name) by {
            assert(old_out[j].name == out@[j].name@);
            assert(old_out[j].name != x@.name);
            lemma_name_less_total(old_out[j].name, x@.name);
        }
        if p < old_out.len() {
            assert(name_less(x@.name, old_out[p as int].name));
            assert forall|j: int| p <= j < old_out.len() implies name_less(x@.name, #[trigger] old_out[j].name) by {
                if j > p {
                    lemma_name_less_transitive(x@.name, old_out[p as int].name, old_out[j].name);
                }
            }
        }
    }
    out.insert(p, x);
    proof {
        let nv = tag_views(out@);
        assert(nv =~= old_out.insert(p as int, x@));
        assert forall|a: int, c: int| 0 <= a < c < nv.len() implies name_less(#[trigger] nv[a].name, #[trigger] nv[c].name) by {
            if c < p {
                assert(nv[a] == old_out[a] && nv[c] == old_out[c]);
            } else if c == p {
                assert(nv[a] == old_out[a]);
            } else if a < p {
                assert(nv[a] == old_out[a] && nv[c] == old_out[c - 1]);
                lemma_name_less_transitive(old_out[a].name, x@.name, old_out[c - 1].name);
            } else if a == p {
                assert(nv[c] == old_out[c - 1]);
            } else {
                assert(nv[a] == old_out[a - 1] && nv[c] == old_out[c - 1]);
            }
        }
    }
    p
}

proof fn lemma_holds_after_insert(out: Seq<RemoteTagView>, ev: Seq<RemoteTagView>, i: int, p: int)
    requires
        0 <= i < ev.len(),
        0 <= p <= out.len(),
        holds_prefix(out, ev, i),
    ensures
        holds_prefix(out.insert(p, ev[i]), ev, i + 1),
{
    reveal(holds_prefix);
    let nv = out.insert(p, ev[i]);
    assert forall|a: int| 0 <= a < nv.len() implies exists|b: int| 0 <= b < i + 1 && #[trigger] nv[a] == ev[b] by {
        if a < p {
            let b = choose|b: int| 0 <= b < i && out[a] == ev[b];
            assert(nv[a] == ev[b]);
        } else if a == p {
            assert(nv[a] == ev[i]);
        } else {
            let b = choose|b: int| 0 <= b < i && out[a - 1] == ev[b];
            assert(nv[a] == ev[b]);
        }
    }
    assert forall|b: int| 0 <= b < i + 1 implies exists|a: int| 0 <= a < nv.len() && nv[a] == #[trigger] ev[b] by {
        if b == i {
            assert(nv[p] == ev[b]);
        } else {
            let a = choose|a: int| 0 <= a < out.len() && out[a] == ev[b];
            if a < p {
                assert(nv[a] == ev[b]);
            } else {
                assert(nv[a + 1] == ev[b]);
            }
        }
    }
}

proof fn lemma_prefix_names_differ(out: Seq<RemoteTagView>, ev: Seq<RemoteTagView>, i: int)
    requires
        0 <= i < ev.len(),
        distinct_names(ev),
        holds_prefix(out, ev, i),
    ensures
        forall|a: int| 0 <= a < out.len() ==> #[trigger] out[a].name != ev[i].name,
{
    reveal(holds_prefix);
    assert forall|a: int| 0 <= a < out.len() implies #[trigger] out[a].name != ev[i].name by {
        let b = choose|b: int| 0 <= b < i && out[a] == ev[b];
        assert(ev[b].name != ev[i].name);
    }
}

/// `entries` ordered by name.
fn sort_by_name(entries: &Vec<RemoteTag>) -> (out: Vec<RemoteTag>)
    requires
        distinct_names(tag_views(entries@)),
    ensures
        sorted_by_name(tag_views(out@)),
        holds_prefix(tag_views(out@), tag_views(entries@), entries@.len() as int),
{
    let ghost ev = tag_views(entries@);
    let mut out: Vec<RemoteTag> = Vec::new();
    let mut i: usize = 0;
    assert(tag_views(out@) =~= Seq::<RemoteTagView>::empty());
    assert(holds_prefix(tag_views(out@), ev, 0)) by { reveal(holds_prefix); }
    while i < entries.len()
        invariant
            i <= entries@.len(),
            ev == tag_views(entries@),
            distinct_names(ev),
            sorted_by_name(tag_views(out@)),
            holds_prefix(tag_views(out@), ev, i as int),
        decreases entries@.len() - i,
    {
        let x = entries[i].duplicate();
        let ghost before = tag_views(out@);
        proof {
            lemma_prefix_names_differ(before, ev, i as int);
        }
        let p = insert_by_name(&mut out, x);
        proof { lemma_holds_after_insert(before, ev, i as int, p as int); }
        i = i + 1;
    }
    out
}

/// `index` and `entries` together record the tags of `m`: the index maps
/// each name to the position of its entry, and every entry is indexed.
pub open spec fn index_records(index: Map<Seq<char>, usize>, entries: Seq<RemoteTagView>, m: Map<Seq<char>, Seq<char>>) -> bool {
    &&& forall|k: Seq<char>| #[trigger] index.contains_key(k) <==> m.contains_key(k)
    &&& forall|k: Seq<char>| #[trigger] index.contains_key(k) ==> {
        &&& index[k] < entries.len()
        &&& entries[index[k] as int].name == k
        &&& entries[index[k] as int].sha == m[k]
    }
    &&& forall|j: int| 0 <= j < entries.len() ==> #[trigger] index.contains_key(entries[j].name) && index[entries[j].name] == j
}

proof fn lemma_records_update(idx: Map<Seq<char>, usize>, before: Seq<RemoteTagView>, m: Map<Seq<char>, Seq<char>>, name: Seq<char>, sha: Seq<char>)
    requires
        index_records(idx, before, m),
        idx.contains_key(name),
    ensures
        index_records(idx, before.update(idx[name] as int, RemoteTagView { name, sha }), m.insert(name, sha)),
{
    let at = idx[name] as int;
    let after = before.update(at, RemoteTagView { name, sha });
    let m2 = m.insert(name, sha);
    assert forall|k: Seq<char>| #[trigger] idx.contains_key(k) <==> m2.contains_key(k) by {}
    assert forall|k: Seq<char>| #[trigger] idx.contains_key(k) implies {
        &&& idx[k] < after.len()
        &&& after[idx[k] as int].name == k
        &&& after[idx[k] as int].sha == m2[k]
    } by {
        if k != name {
            assert(before[idx[k] as int].name == k);
            assert(idx[k] != at);
        }
    }
    assert forall|j: int| 0 <= j < after.len() implies #[trigger] idx.contains_key(after[j].name) && idx[after[j].name] == j by {
        if j != at {
            assert(after[j] == before[j]);
            assert(idx.contains_key(before[j].name));
        }
    }
}

proof fn lemma_records_push(idx: Map<Seq<char>, usize>, before: Seq<RemoteTagView>, m: Map<Seq<char>, Seq<char>>, name: Seq<char>, sha: Seq<char>)
    requires
        index_records(idx, before, m),
        !m.contains_key(name),
        before.len() <= usize::MAX,
    ensures
        index_records(idx.insert(name, before.len() as usize), before.push(RemoteTagView { name, sha }), m.insert(name, sha)),
{
    let at = before.len() as usize;
    let idx2 = idx.insert(name, at);
    let after = before.push(RemoteTagView { name, sha });
    let m2 = m.insert(name, sha);
    assert forall|k: Seq<char>| #[trigger] idx2.contains_key(k) <==> m2.contains_key(k) by {}
    assert forall|k: Seq<char>| #[trigger] idx2.contains_key(k) implies {
        &&& idx2[k] < after.len()
        &&& after[idx2[k] as int].name == k
        &&& after[idx2[k] as int].sha == m2[k]
    } by {
        if k != name {
            assert(idx.contains_key(k));
            assert(before[idx[k] as int].name == k);
        }
    }
    assert forall|j: int| 0 <= j < after.len() implies #[trigger] idx2.contains_key(after[j].name) && idx2[after[j].name] == j by {
        if j < at {
            assert(after[j] == before[j]);
            assert(idx.contains_key(before[j].name));
            assert(before[j].name != name);
        }
    }
}

/// Records the tag that one more line names.
fn record_line(index: &mut NameIndex, entries: &mut Vec<RemoteTag>, line: &[char], m: Ghost<Map<Seq<char>, Seq<char>>>)
    requires
        index_records(name_index_entries(*old(index)), tag_views(old(entries)@), m@),
    ensures
        index_records(name_index_entries(*final(index)), tag_views(final(entries)@), ls_step(m@, line@)),
{
    match parse_ls_line(line) {
        None => {},
        Some((name, sha, peeled)) => {
            let name_s = string_of(&name);
            let sha_s = string_of(&sha);
            assert(ls_line(line@) == Some((name@, sha@, peeled)));
            let ghost idx = name_index_entries(*index);
            let ghost before = tag_views(entries@);
            match name_index_get(index, &name_s) {
                Some(at) => {
                    assert(idx.contains_key(name@));
                    assert(m@.contains_key(name@));
                    if peeled {
                        entries.set(at, RemoteTag { name: name_s, sha: sha_s });
                        proof {
                            lemma_records_update(idx, before, m@, name@, sha@);
                            assert(tag_views(entries@) =~= before.update(at as int, RemoteTagView { name: name@, sha: sha@ }));
                        }
                    }
                },
                None => {
                    assert(!m@.contains_key(name@));
                    let at = entries.len();
                    let key = string_of(&name);
                    entries.push(RemoteTag { name: name_s, sha: sha_s });
                    name_index_insert(index, key, at);
                    proof {
                        lemma_records_push(idx, before, m@, name@, sha@);
                        assert(tag_views(entries@) =~= before.push(RemoteTagView { name: name@, sha: sha@ }));
                    }
                },
            }
        },
    }
}

proof fn lemma_recorded_distinct(idx: Map<Seq<char>, usize>, ev: Seq<RemoteTagView>, m: Map<Seq<char>, Seq<char>>)
    requires
        index_records(idx, ev, m),
    ensures
        distinct_names(ev),
{
    assert forall|a: int, b: int| 0 <= a < b < ev.len() implies #[trigger] ev[a].name != #[trigger] ev[b].name by {
        assert(0 <= a < ev.len());
        assert(idx.contains_key(ev[a].name));
        assert(idx[ev[a].name] == a);
        assert(idx.contains_key(ev[b].name));
        assert(idx[ev[b].name] == b);
    }
}

proof fn lemma_sorted_lists(idx: Map<Seq<char>, usize>, ev: Seq<RemoteTagView>, tv: Seq<RemoteTagView>, m: Map<Seq<char>, Seq<char>>)
    requires
        index_records(idx, ev, m),
        holds_prefix(tv, ev, ev.len() as int),
    ensures
        lists_exactly(tv, m),
{
    reveal(holds_prefix);
    assert forall|a: int| 0 <= a < tv.len() implies #[trigger] m.contains_key(tv[a].name) && m[tv[a].name] == tv[a].sha by {
        let b = choose|b: int| 0 <= b < ev.len() && tv[a] == ev[b];
        assert(0 <= b < ev.len());
        assert(idx.contains_key(ev[b].name));
        assert(idx[ev[b].name] == b);
    }
    assert forall|k: Seq<char>| #[trigger] m.contains_key(k) implies exists|a: int| 0 <= a < tv.len() && tv[a].name == k by {
        assert(idx.contains_key(k));
        let b = idx[k] as int;
        assert(ev[b].name == k);
        let a = choose|a: int| 0 <= a < tv.len() && tv[a] == ev[b];
        assert(tv[a].name == k);
    }
}

/// The tags that `git ls-remote --tags` printed, ordered by name. A peeled
/// line (`^{}`) gives an annotated tag its commit; otherwise the first line
/// for a name wins.
pub fn parse_ls_remote_tags(output: &str) -> (r: Result<Vec<RemoteTag>, String>)
    ensures
        r matches Ok(tags) && sorted_by_name(tag_views(tags@)) && lists_exactly(tag_views(tags@), ls_map(lines(output@))),
{
    let ls = lines_of(&chars_of(output));
    let ghost all = lines(output@);
    let mut index: NameIndex = name_index_new();
    let mut entries: Vec<RemoteTag> = Vec::new();
    let mut i: usize = 0;
    assert(all.take(0) =~= Seq::<Seq<char>>::empty());
    assert(tag_views(entries@) =~= Seq::<RemoteTagView>::empty());
    while i < ls.len()
        invariant
            i <= ls@.len(),
            views(ls@) == all,
            index_records(name_index_entries(index), tag_views(entries@), ls_map(all.take(i as int))),
        decreases ls@.len() - i,
    {
        assert(all.take(i + 1).drop_last() =~= all.take(i as int));
        assert(ls@[i as int]@ == all[i as int]);
        record_line(&mut index, &mut entries, &ls[i], Ghost(ls_map(all.take(i as int))));
        i = i + 1;
    }
    assert(all.take(i as int) =~= all);
    let ghost idx = name_index_entries(index);
    let ghost ev = tag_views(entries@);
    proof { lemma_recorded_distinct(idx, ev, ls_map(all)); }
    let tags = sort_by_name(&entries);
    proof { lemma_sorted_lists(idx, ev, tag_views(tags@), ls_map(all)); }
    Ok(tags)
}

/// The commit of the first line of `git ls-remote --heads` output: its first
/// white-space-separated word.
pub open spec fn ls_head(output: Seq<char>) -> Option<Seq<char>> {
    let ls = lines(output);
    if ls.len() == 0 {
        None
    } else {
        let l = trim_start(ls[0]);
        if l.len() == 0 {
            None
        } else {
            match first_space(l) {
                Some(i) => Some(l.take(i)),
                None => Some(l),
            }
        }
    }
}

/// The commit that `git ls-remote --heads` printed for the branch, if any.
pub fn parse_ls_remote_head(output: &str) -> (r: Option<String>)
    ensures
        opt_view(r) == ls_head(output@),
{
    let ls = lines_of(&chars_of(output));
    if ls.len() == 0 {
        return None;
    }
    let first = &ls[0];
    let mut a: usize = 0;
    assert(first@.skip(0) =~= first@);
    while a < first.len() && is_space_exec(first[a])
        invariant
            a <= first@.len(),
            trim_start(first@) == trim_start(first@.skip(a as int)),
        decreases first@.len() - a,
    {
        assert(first@.skip(a as int).drop_first() =~= first@.skip(a + 1));
        a = a + 1;
    }
    let l = slice_of(first, a, first.len());
    assert(trim_start(first@.skip(a as int)) == first@.skip(a as int));
    if l.len() == 0 {
        return None;
    }
    match find_space(&l) {
        Some(i) => {
            proof { lemma_first_space_bounds(l@); }
            Some(string_of(&slice_of(&l, 0, i)))
        },
        None => Some(string_of(&l)),
    }
}

/// `branch` with each `/` written as `%2F`, for a URL path.
pub open spec fn encode_branch_spec(branch: Seq<char>) -> Seq<char>
    decreases branch.len(),
{
    if branch.len() == 0 {
        branch
    } else if branch.last() == '/' {
        encode_branch_spec(branch.drop_last()) + seq!['%', '2', 'F']
    } else {
        encode_branch_spec(branch.drop_last()).push(branch.last())
    }
}

/// `branch` with each `/` written as `%2F` (`str::replace`).
pub fn encode_branch(branch: &str) -> (r: String)
    ensures
        r@ == encode_branch_spec(branch@),
{
    let b = chars_of(branch);
    let mut out: Vec<char> = Vec::new();
    let mut i: usize = 0;
    while i < b.len()
        invariant
            i <= b@.len(),
            b@ == branch@,
            out@ == encode_branch_spec(b@.take(i as int)),
        decreases b@.len() - i,
    {
        assert(b@.take(i + 1).drop_last() =~= b@.take(i as int));
        if b[i] == '/' {
            out.push('%');
            out.push('2');
            out.push('F');
        } else {
            out.push(b[i]);
        }
        i = i + 1;
    }
    assert(b@.take(i as int) =~= b@);
    string_of(&out)
}

} // verus!
