//! Deciding which files a scan covers.
//!
//! The caller walks the file system; this module decides for each path it
//! meets whether it is scanned, and orders the result.
use vstd::prelude::*;

use ahash::AHashSet;

use crate::globs::{
    build_glob_list, first_invalid, globset_builds, globset_is_match, globset_match, GlobBuildError, GlobList,
};
use crate::scanner::file_name;
use crate::text::{
    chars_of, last_index_of, lemma_last_index_of_bounds, message2, rfind_char, same, slice_of, string_of, string_views,
};

verus! {

#[verifier::external_type_specification]
#[verifier::external_body]
#[verifier::reject_recursive_types(T)]
#[verifier::reject_recursive_types(S)]
pub struct ExAHashSet<T, S>(AHashSet<T, S>);

/// `std::path::Path::strip_prefix` of `path` by `base`, as text.
pub uninterp spec fn path_stripped(path: Seq<char>, base: Seq<char>) -> Option<Seq<char>>;

/// `std::path::Path::parent` of `path`, as text.
pub uninterp spec fn path_parent_of(path: Seq<char>) -> Option<Seq<char>>;

/// `path_a < path_b` in the order of `std::path::Path`, which compares
/// components.
pub uninterp spec fn path_precedes(a: Seq<char>, b: Seq<char>) -> bool;

/// `Path::new(path).strip_prefix(base)`, as text.
#[verifier::external_body]
fn strip_path_prefix(path: &str, base: &str) -> (r: Option<String>)
    ensures
        opt_string(r) == path_stripped(path@, base@),
{
    std::path::Path::new(path).strip_prefix(base).ok().map(|rest| rest.to_string_lossy().into_owned())
}

/// `Path::new(path).parent()`, as text.
#[verifier::external_body]
pub(crate) fn path_parent(path: &str) -> (r: Option<String>)
    ensures
        opt_string(r) == path_parent_of(path@),
{
    std::path::Path::new(path).parent().map(|parent| parent.to_string_lossy().into_owned())
}

/// `Path::new(a) < Path::new(b)`.
#[verifier::external_body]
fn path_before(a: &str, b: &str) -> (r: bool)
    ensures
        r == path_precedes(a@, b@),
{
    std::path::Path::new(a) < std::path::Path::new(b)
}

/// The set of normalized paths seen so far.
pub type SeenPaths = AHashSet<String>;

/// What a set of seen paths holds.
pub uninterp spec fn seen_entries(s: SeenPaths) -> Set<Seq<char>>;

/// An empty set of seen paths (`AHashSet::with_capacity`).
#[verifier::external_body]
fn seen_new(capacity: usize) -> (s: SeenPaths)
    ensures
        seen_entries(s) == Set::<Seq<char>>::empty(),
{
    AHashSet::with_capacity(capacity)
}

/// Adds `path` (`AHashSet::insert`); whether it was not there before.
#[verifier::external_body]
fn seen_insert(s: &mut SeenPaths, path: String) -> (fresh: bool)
    ensures
        fresh == !seen_entries(*old(s)).contains(path@),
        seen_entries(*final(s)) == seen_entries(*old(s)).insert(path@),
{
    s.insert(path)
}

pub open spec fn opt_string(o: Option<String>) -> Option<Seq<char>> {
    match o {
        Some(s) => Some(s@),
        None => None,
    }
}

/// `s` with each `\` written as `/`.
pub open spec fn forward_slashes(s: Seq<char>) -> Seq<char> {
    s.map_values(|c: char| if c == '\\' { '/' } else { c })
}

/// A path as globs see it: without a leading `.` component, with forward slashes.
pub open spec fn normalize_spec(path: Seq<char>) -> Seq<char> {
    forward_slashes(
        match path_stripped(path, "."@) {
            Some(rest) => rest,
            None => path,
        },
    )
}

fn forward_slashes_of(s: &[char]) -> (out: Vec<char>)
    ensures
        out@ == forward_slashes(s@),
{
    let mut out: Vec<char> = Vec::new();
    let mut i: usize = 0;
    while i < s.len()
        invariant
            i <= s@.len(),
            out@ == forward_slashes(s@.take(i as int)),
        decreases s@.len() - i,
    {
        out.push(if s[i] == '\\' { '/' } else { s[i] });
        assert(forward_slashes(s@.take(i + 1)) =~= forward_slashes(s@.take(i as int)).push(if s@[i as int] == '\\' { '/' } else { s@[i as int] }));
        i = i + 1;
    }
    assert(s@.take(i as int) =~= s@);
    out
}

/// The path as globs see it: without a leading `.` component, with forward slashes.
pub fn normalize(path: &str) -> (r: String)
    ensures
        r@ == normalize_spec(path@),
{
    let stripped = match strip_path_prefix(path, ".") {
        Some(rest) => rest,
        None => string_of(&chars_of(path)),
    };
    string_of(&forward_slashes_of(&chars_of(stripped.as_str())))
}

/// The extension of a file name: after its last `.`, unless that dot starts it.
pub open spec fn extension_of(name: Seq<char>) -> Option<Seq<char>> {
    match last_index_of(name, '.') {
        Some(i) => if i == 0 {
            None
        } else {
            Some(name.skip(i + 1))
        },
        None => None,
    }
}

/// Action metadata, or a file ending in `.yml` or `.yaml`.
pub open spec fn candidate_spec(path: Seq<char>) -> bool {
    match file_name(path) {
        Some(n) => n == "action.yml"@ || n == "action.yaml"@ || extension_of(n) == Some("yml"@)
            || extension_of(n) == Some("yaml"@),
        None => false,
    }
}

/// Whether the file at `path` may hold GitHub Actions YAML.
pub fn is_candidate_file(path: &str) -> (r: bool)
    ensures
        r == candidate_spec(path@),
{
    let name = match crate::scanner::file_name_of(&chars_of(path)) {
        Some(n) => n,
        None => return false,
    };
    if same(&name, &chars_of("action.yml")) || same(&name, &chars_of("action.yaml")) {
        return true;
    }
    match rfind_char(&name, '.') {
        Some(i) => {
            proof { lemma_last_index_of_bounds(name@, '.'); }
            if i == 0 {
                false
            } else {
                let ext = slice_of(&name, i + 1, name.len());
                same(&ext, &chars_of("yml")) || same(&ext, &chars_of("yaml"))
            }
        },
        None => false,
    }
}

/// The path holds a glob metacharacter: `*`, `?` or `[`.
pub open spec fn glob_meta_spec(path: Seq<char>) -> bool {
    exists|i: int| 0 <= i < path.len() && (path[i] == '*' || path[i] == '?' || path[i] == '[')
}

/// Whether `path` holds a glob metacharacter.
pub fn has_glob_meta(path: &str) -> (r: bool)
    ensures
        r == glob_meta_spec(path@),
{
    let p = chars_of(path);
    let mut i: usize = 0;
    while i < p.len()
        invariant
            i <= p@.len(),
            p@ == path@,
            forall|j: int| 0 <= j < i ==> !(p@[j] == '*' || p@[j] == '?' || p@[j] == '['),
        decreases p@.len() - i,
    {
        if p[i] == '*' || p[i] == '?' || p[i] == '[' {
            return true;
        }
        i = i + 1;
    }
    false
}

/// The tails of `s` after each `/`, longest first.
pub open spec fn tails_after_slash(s: Seq<char>) -> Seq<Seq<char>>
    decreases s.len(),
{
    match crate::text::index_of(s, '/') {
        Some(i) => if 0 <= i < s.len() {
            seq![s.skip(i + 1)] + tails_after_slash(s.skip(i + 1))
        } else {
            Seq::empty()
        },
        None => Seq::empty(),
    }
}

/// The set matches the path or one of its tails after a `/`.
pub open spec fn matches_suffix_spec(globs: Seq<Seq<char>>, normalized: Seq<char>) -> bool {
    globset_match(globs, normalized) || exists|i: int|
        0 <= i < tails_after_slash(normalized).len() && globset_match(globs, #[trigger] tails_after_slash(normalized)[i])
}

/// Whether the set matches `normalized` or a tail of it after a `/`.
pub fn matches_glob_or_suffix(globs: &GlobList, normalized: &str) -> (r: bool)
    ensures
        r == matches_suffix_spec(globs@, normalized@),
{
    if globset_is_match(globs, normalized) {
        return true;
    }
    let s = chars_of(normalized);
    let ghost all = tails_after_slash(s@);
    let mut start: usize = 0;
    let ghost done: int = 0;
    assert(s@.skip(0) =~= s@);
    loop
        invariant
            start <= s@.len(),
            s@ == normalized@,
            0 <= done <= all.len(),
            all == tails_after_slash(s@),
            all.skip(done) == tails_after_slash(s@.skip(start as int)),
            forall|j: int| 0 <= j < done ==> !globset_match(globs@, #[trigger] all[j]),
            !globset_match(globs@, normalized@),
        decreases s@.len() - start,
    {
        let rest = slice_of(&s, start, s.len());
        assert(rest@ == s@.skip(start as int));
        match crate::text::find_char(&rest, '/') {
            None => {
                proof {
                    crate::text::lemma_index_of_bounds(rest@, '/');
                    assert(all.skip(done).len() == 0);
                    assert forall|j: int| 0 <= j < all.len() implies !globset_match(globs@, #[trigger] all[j]) by {
                        if j >= done {
                            assert(all.skip(done)[j - done] == all[j]);
                        }
                    }
                }
                return false;
            },
            Some(k) => {
                proof {
                    crate::text::lemma_index_of_bounds(rest@, '/');
                    assert(tails_after_slash(rest@) == seq![rest@.skip(k + 1)] + tails_after_slash(rest@.skip(k + 1)));
                }
                let next = start + k + 1;
                let tail = slice_of(&s, next, s.len());
                let tail_text = string_of(&tail);
                proof {
                    assert(rest@.skip(k + 1) =~= s@.skip(next as int));
                    assert(all.skip(done)[0] == s@.skip(next as int));
                    assert(all[done] == all.skip(done)[0]);
                    assert(all.skip(done + 1) =~= all.skip(done).drop_first());
                }
                if globset_is_match(globs, tail_text.as_str()) {
                    assert(globset_match(globs@, all[done]));
                    return true;
                }
                start = next;
                proof { done = done + 1; }
            },
        }
    }
}

/// The directory that include globs are relative to: the parent of a
/// `.github` directory, else the root itself.
pub open spec fn match_base_spec(root: Seq<char>) -> Seq<char> {
    if file_name(root) == Some(".github"@) {
        match path_parent_of(root) {
            Some(p) => p,
            None => "."@,
        }
    } else {
        root
    }
}

/// The directory that include globs of a walk from `root` are relative to.
pub fn match_base(root: &str) -> (r: String)
    ensures
        r@ == match_base_spec(root@),
{
    let name = crate::scanner::file_name_of(&chars_of(root));
    let dot_github = match &name {
        Some(n) => same(n, &chars_of(".github")),
        None => false,
    };
    if dot_github {
        match path_parent(root) {
            Some(p) => p,
            None => string_of(&chars_of(".")),
        }
    } else {
        string_of(&chars_of(root))
    }
}

/// Builds the glob set of `patterns`, or names the first invalid pattern.
pub fn build_globset(patterns: &Vec<String>) -> (r: Result<GlobList, String>)
    ensures
        match first_invalid(string_views(patterns@)) {
            Some(p) => r matches Err(m) && m@ == "invalid glob "@ + p,
            None => if globset_builds(string_views(patterns@)) {
                r matches Ok(g) && g@ == string_views(patterns@)
            } else {
                r matches Err(m) && m@ == "failed to build glob set"@
            },
        },
{
    match build_glob_list(patterns) {
        Ok(g) => Ok(g),
        Err(GlobBuildError::Invalid(p)) => Err(message2("invalid glob ", &chars_of(p.as_str()))),
        Err(GlobBuildError::Build) => Err(string_of(&chars_of("failed to build glob set"))),
    }
}

/// An explicitly named file is scanned when it is a candidate and no
/// exclude glob matches it or a tail of it.
pub open spec fn explicit_wanted_spec(path: Seq<char>, exclude: Seq<Seq<char>>) -> bool {
    candidate_spec(path) && !matches_suffix_spec(exclude, normalize_spec(path))
}

/// Whether an explicitly named file is scanned.
pub fn explicit_file_wanted(path: &str, exclude: &GlobList) -> (r: bool)
    ensures
        r == explicit_wanted_spec(path@, exclude@),
{
    let normalized = normalize(path);
    is_candidate_file(path) && !matches_glob_or_suffix(exclude, normalized.as_str())
}

/// The path relative to the walk's base, normalized.
pub open spec fn root_relative_spec(path: Seq<char>, base: Seq<char>) -> Seq<char> {
    normalize_spec(
        match path_stripped(path, base) {
            Some(rest) => rest,
            None => path,
        },
    )
}

/// A walked file is scanned when it is a candidate, an include glob matches
/// it relative to the base (or, in a recursive scan, a tail of it), and no
/// exclude glob matches it.
pub open spec fn walked_wanted_spec(path: Seq<char>, base: Seq<char>, includes: Seq<Seq<char>>, exclude: Seq<Seq<char>>, recursive: bool) -> bool {
    let rel = root_relative_spec(path, base);
    let normalized = normalize_spec(path);
    &&& candidate_spec(path)
    &&& (globset_match(includes, rel) || (recursive && (matches_suffix_spec(includes, rel)
        || matches_suffix_spec(includes, normalized))))
    &&& !globset_match(exclude, rel)
    &&& !matches_suffix_spec(exclude, normalized)
}

/// Whether a file met while walking from a root with base `base` is scanned.
pub fn walked_file_wanted(path: &str, base: &str, includes: &GlobList, exclude: &GlobList, recursive: bool) -> (r: bool)
    ensures
        r == walked_wanted_spec(path@, base@, includes@, exclude@, recursive),
{
    let relative = match strip_path_prefix(path, base) {
        Some(rest) => rest,
        None => string_of(&chars_of(path)),
    };
    let rel = normalize(relative.as_str());
    let normalized = normalize(path);
    is_candidate_file(path)
        && (globset_is_match(includes, rel.as_str()) || (recursive && (matches_glob_or_suffix(includes, rel.as_str())
        || matches_glob_or_suffix(includes, normalized.as_str()))))
        && !globset_is_match(exclude, rel.as_str())
        && !matches_glob_or_suffix(exclude, normalized.as_str())
}

/// What one parent `.gitignore` says of a walked entry.
#[derive(Debug, Clone, Copy, PartialEq, Eq, Structural)]
pub enum ParentVerdict {
    /// No pattern of it matches.
    Unmatched,
    /// An ignore pattern matches; whether that pattern also ignores the root.
    Ignore { ignores_root: bool },
    /// A whitelist pattern matches.
    Whitelist,
}

/// The first parent with a verdict decides: an ignore that does not also
/// ignore the walk's root hides the entry; anything else keeps it.
pub open spec fn parents_ignore_spec(verdicts: Seq<ParentVerdict>) -> bool
    decreases verdicts.len(),
{
    if verdicts.len() == 0 {
        false
    } else {
        match verdicts[0] {
            ParentVerdict::Ignore { ignores_root } => !ignores_root,
            ParentVerdict::Whitelist => false,
            ParentVerdict::Unmatched => parents_ignore_spec(verdicts.drop_first()),
        }
    }
}

/// Whether the parents' `.gitignore` files, nearest first, hide a walked
/// entry; the walk's root itself is never hidden.
pub fn is_ignored_by_parent(is_root: bool, verdicts: &[ParentVerdict]) -> (r: bool)
    ensures
        r == (!is_root && parents_ignore_spec(verdicts@)),
{
    if is_root {
        return false;
    }
    let mut i: usize = 0;
    assert(verdicts@.skip(0) =~= verdicts@);
    while i < verdicts.len()
        invariant
            i <= verdicts@.len(),
            !is_root,
            parents_ignore_spec(verdicts@) == parents_ignore_spec(verdicts@.skip(i as int)),
        decreases verdicts@.len() - i,
    {
        assert(verdicts@.skip(i as int)[0] == verdicts@[i as int]);
        assert(verdicts@.skip(i as int).drop_first() =~= verdicts@.skip(i + 1));
        let v = verdicts[i];
        match v {
            ParentVerdict::Ignore { ignores_root } => {
                assert(parents_ignore_spec(verdicts@.skip(i as int)) == !ignores_root);
                return !ignores_root;
            },
            ParentVerdict::Whitelist => return false,
            ParentVerdict::Unmatched => {},
        }
        i = i + 1;
    }
    false
}

/// Keeps the first path of each normalized form, in order.
pub open spec fn dedup_spec(files: Seq<Seq<char>>) -> Seq<Seq<char>>
    decreases files.len(),
{
    if files.len() == 0 {
        Seq::empty()
    } else {
        let prev = files.drop_last();
        if exists|j: int| 0 <= j < prev.len() && normalize_spec(#[trigger] prev[j]) == normalize_spec(files.last()) {
            dedup_spec(prev)
        } else {
            dedup_spec(prev).push(files.last())
        }
    }
}

/// `x` placed after every path of `s` that it does not precede (a step of
/// a stable sort).
pub open spec fn insert_path(s: Seq<Seq<char>>, x: Seq<char>) -> Seq<Seq<char>>
    decreases s.len(),
{
    if s.len() == 0 || !path_precedes(x, s.last()) {
        s.push(x)
    } else {
        insert_path(s.drop_last(), x).push(s.last())
    }
}

/// `s` stably sorted in path order.
pub open spec fn sort_paths(s: Seq<Seq<char>>) -> Seq<Seq<char>>
    decreases s.len(),
{
    if s.len() == 0 {
        s
    } else {
        insert_path(sort_paths(s.drop_last()), s.last())
    }
}

proof fn lemma_insert_path(s: Seq<Seq<char>>, x: Seq<char>, p: int)
    requires
        0 <= p <= s.len(),
        forall|j: int| p <= j < s.len() ==> path_precedes(x, #[trigger] s[j]),
        p > 0 ==> !path_precedes(x, s[p - 1]),
    ensures
        insert_path(s, x) == s.insert(p, x),
    decreases s.len(),
{
    if p == s.len() {
        assert(s.insert(p, x) =~= s.push(x));
    } else {
        assert(path_precedes(x, s.last()));
        lemma_insert_path(s.drop_last(), x, p);
        assert(s.drop_last().insert(p, x).push(s.last()) =~= s.insert(p, x));
    }
}

/// The discovered files without repeats of a normalized path, in path order.
pub fn dedup_and_sort(files: Vec<String>) -> (r: Vec<String>)
    ensures
        string_views(r@) == sort_paths(dedup_spec(string_views(files@))),
{
    let ghost fv = string_views(files@);
    let mut seen = seen_new(files.len());
    let mut kept: Vec<String> = Vec::new();
    let mut i: usize = 0;
    while i < files.len()
        invariant
            i <= files@.len(),
            fv == string_views(files@),
            string_views(kept@) == dedup_spec(fv.take(i as int)),
            forall|k: Seq<char>| #[trigger] seen_entries(seen).contains(k) <==> exists|j: int| 0 <= j < i && normalize_spec(#[trigger] fv[j]) == k,
        decreases files@.len() - i,
    {
        let ghost prefix = fv.take(i + 1);
        assert(prefix.drop_last() =~= fv.take(i as int));
        assert(prefix.last() == fv[i as int]);
        assert(fv[i as int] == files@[i as int]@);
        let key = normalize(files[i].as_str());
        let ghost k = key@;
        let ghost before = seen_entries(seen);
        let fresh = seen_insert(&mut seen, key);
        proof {
            let prev = prefix.drop_last();
            if fresh {
                assert forall|j: int| 0 <= j < prev.len() implies normalize_spec(#[trigger] prev[j]) != normalize_spec(prefix.last()) by {
                    assert(prev[j] == fv[j]);
                    if normalize_spec(prev[j]) == normalize_spec(prefix.last()) {
                        assert(before.contains(k));
                    }
                }
            } else {
                let j = choose|j: int| 0 <= j < i && normalize_spec(#[trigger] fv[j]) == k;
                assert(prev[j] == fv[j]);
                assert(0 <= j < prev.len() && normalize_spec(prev[j]) == normalize_spec(prefix.last()));
            }
            assert forall|q: Seq<char>| #[trigger] seen_entries(seen).contains(q) <==> exists|j: int| 0 <= j < i + 1 && normalize_spec(#[trigger] fv[j]) == q by {
                if q == k {
                    assert(0 <= i < i + 1 && normalize_spec(fv[i as int]) == q);
                }
                if exists|j: int| 0 <= j < i + 1 && normalize_spec(#[trigger] fv[j]) == q {
                    let j = choose|j: int| 0 <= j < i + 1 && normalize_spec(#[trigger] fv[j]) == q;
                    if j < i {
                        assert(before.contains(q));
                    }
                }
            }
        }
        if fresh {
            let ghost kv = string_views(kept@);
            kept.push(files[i].clone());
            assert(string_views(kept@) =~= kv.push(fv[i as int]));
        }
        i = i + 1;
    }
    assert(fv.take(i as int) =~= fv);
    let ghost kv = string_views(kept@);
    let mut out: Vec<String> = Vec::new();
    let mut i: usize = 0;
    while i < kept.len()
        invariant
            i <= kept@.len(),
            kv == string_views(kept@),
            string_views(out@) == sort_paths(kv.take(i as int)),
        decreases kept@.len() - i,
    {
        assert(kv.take(i + 1).drop_last() =~= kv.take(i as int));
        assert(kv.take(i + 1).last() == kept@[i as int]@);
        let x = kept[i].clone();
        let mut p: usize = out.len();
        while p > 0 && path_before(x.as_str(), out[p - 1].as_str())
            invariant
                p <= out@.len(),
                forall|j: int| p <= j < out@.len() ==> path_precedes(x@, #[trigger] out@[j]@),
            decreases p,
        {
            p = p - 1;
        }
        let ghost before = string_views(out@);
        proof {
            assert forall|j: int| p <= j < before.len() implies path_precedes(x@, #[trigger] before[j]) by {
                assert(before[j] == out@[j]@);
            }
            if p > 0 {
                assert(before[p - 1] == out@[p - 1]@);
            }
            lemma_insert_path(before, x@, p as int);
        }
        out.insert(p, x);
        assert(string_views(out@) =~= before.insert(p as int, kv[i as int]));
        i = i + 1;
    }
    assert(kv.take(i as int) =~= kv);
    out
}

/// How a root of the scan is read.
#[derive(Debug, Clone, Copy, PartialEq, Eq, Structural)]
pub enum RootKind {
    /// A file, scanned as named.
    File,
    /// A glob pattern that names no existing path, expanded.
    Pattern,
    /// A directory, walked.
    Walk,
}

/// A file is scanned as named; a path that does not exist but holds glob
/// metacharacters is expanded; anything else is walked.
pub fn root_kind(root: &str, is_file: bool, exists: bool) -> (k: RootKind)
    ensures
        k == (if is_file {
            RootKind::File
        } else if !exists && glob_meta_spec(root@) {
            RootKind::Pattern
        } else {
            RootKind::Walk
        }),
{
    if is_file {
        RootKind::File
    } else if !exists && has_glob_meta(root) {
        RootKind::Pattern
    } else {
        RootKind::Walk
    }
}

/// The roots of a scan: the given paths, or the current directory.
pub fn scan_roots(paths: &Vec<String>) -> (r: Vec<String>)
    ensures
        string_views(r@) == if paths@.len() == 0 { seq!["."@] } else { string_views(paths@) },
{
    if paths.len() == 0 {
        let mut r: Vec<String> = Vec::new();
        r.push(string_of(&chars_of(".")));
        assert(string_views(r@) =~= seq!["."@]);
        r
    } else {
        crate::text::clone_strings(paths)
    }
}

} // verus!
