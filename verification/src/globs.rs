//! Glob matching, done by the `globset` and `glob` crates.
use vstd::prelude::*;

use crate::text::string_views;

verus! {

#[verifier::external_type_specification]
#[verifier::external_body]
pub struct ExGlob(globset::Glob);

#[verifier::external_type_specification]
#[verifier::external_body]
pub struct ExGlobSetBuilder(globset::GlobSetBuilder);

#[verifier::external_type_specification]
#[verifier::external_body]
pub struct ExGlobSet(globset::GlobSet);

/// `globset::Glob::new` accepts `pattern`.
pub uninterp spec fn glob_valid(pattern: Seq<char>) -> bool;

/// The patterns added to a `GlobSetBuilder`, in the order they were added.
pub uninterp spec fn builder_patterns(builder: globset::GlobSetBuilder) -> Seq<Seq<char>>;

/// The patterns a `GlobSet` was built from.
pub uninterp spec fn set_patterns(set: globset::GlobSet) -> Seq<Seq<char>>;

/// `globset::GlobSetBuilder::build` succeeds on these (valid) patterns.
pub uninterp spec fn globset_builds(patterns: Seq<Seq<char>>) -> bool;

/// `GlobSet::is_match` of the set of `patterns` on the path `text`.
pub uninterp spec fn globset_match(patterns: Seq<Seq<char>>, text: Seq<char>) -> bool;

/// A glob that `globset::Glob::new` accepted, with the pattern it came from.
pub struct CompiledGlob {
    pattern: String,
    glob: globset::Glob,
}

impl View for CompiledGlob {
    type V = Seq<char>;

    closed spec fn view(&self) -> Seq<char> {
        self.pattern@
    }
}

/// Compiles `pattern` with `globset::Glob::new`; none when it is rejected.
#[verifier::external_body]
fn glob_compile(pattern: &str) -> (r: Option<CompiledGlob>)
    ensures
        r is Some <==> glob_valid(pattern@),
        r matches Some(g) ==> g@ == pattern@,
{
    match globset::Glob::new(pattern) {
        Ok(glob) => Some(CompiledGlob { pattern: pattern.to_string(), glob }),
        Err(_) => None,
    }
}

/// `globset::GlobSetBuilder::new`: a builder with no patterns.
#[verifier::external_body]
fn builder_new() -> (b: globset::GlobSetBuilder)
    ensures
        builder_patterns(b) == Seq::<Seq<char>>::empty(),
{
    globset::GlobSetBuilder::new()
}

/// `GlobSetBuilder::add`: appends one compiled glob to the builder.
#[verifier::external_body]
fn builder_add(builder: &mut globset::GlobSetBuilder, glob: CompiledGlob)
    ensures
        builder_patterns(*final(builder)) == builder_patterns(*old(builder)).push(glob@),
{
    builder.add(glob.glob);
}

/// `GlobSetBuilder::build`: the set of the builder's patterns, or none when
/// the matcher cannot be built.
#[verifier::external_body]
fn builder_build(builder: &globset::GlobSetBuilder) -> (r: Option<globset::GlobSet>)
    ensures
        r is Some <==> globset_builds(builder_patterns(*builder)),
        r matches Some(set) ==> set_patterns(set) == builder_patterns(*builder),
{
    builder.build().ok()
}

/// A compiled set of glob patterns.
pub struct GlobList {
    pub set: globset::GlobSet,
}

impl View for GlobList {
    type V = Seq<Seq<char>>;

    open spec fn view(&self) -> Seq<Seq<char>> {
        set_patterns(self.set)
    }
}

/// `GlobSet::is_match`: whether any pattern of the set matches `text`; an
/// empty set matches nothing.
#[verifier::external_body]
pub(crate) fn globset_is_match(globs: &GlobList, text: &str) -> (r: bool)
    ensures
        r == globset_match(globs@, text@),
        globs@.len() == 0 ==> !r,
{
    globs.set.is_match(text)
}

/// The first pattern `globset` rejects.
pub open spec fn first_invalid(patterns: Seq<Seq<char>>) -> Option<Seq<char>>
    decreases patterns.len(),
{
    if patterns.len() == 0 {
        None
    } else if !glob_valid(patterns[0]) {
        Some(patterns[0])
    } else {
        first_invalid(patterns.drop_first())
    }
}

/// Why a glob set could not be built.
#[derive(Debug, Clone)]
pub enum GlobBuildError {
    /// This pattern, the first rejected, is not a valid glob.
    Invalid(String),
    /// The patterns are valid but the matcher could not be built.
    Build,
}

/// Compiles `patterns` in order into one set: the first invalid pattern is
/// named, and a set that cannot be built is reported.
pub fn build_glob_list(patterns: &Vec<String>) -> (r: Result<GlobList, GlobBuildError>)
    ensures
        match first_invalid(string_views(patterns@)) {
            Some(p) => r matches Err(GlobBuildError::Invalid(q)) && q@ == p,
            None => if globset_builds(string_views(patterns@)) {
                r matches Ok(g) && g@ == string_views(patterns@)
            } else {
                r matches Err(GlobBuildError::Build)
            },
        },
{
    let ghost pv = string_views(patterns@);
    let mut builder = builder_new();
    let mut i: usize = 0;
    assert(pv.skip(0) =~= pv);
    while i < patterns.len()
        invariant
            i <= patterns.len(),
            pv == string_views(patterns@),
            pv.len() == patterns@.len(),
            first_invalid(pv) == first_invalid(pv.skip(i as int)),
            builder_patterns(builder) == pv.take(i as int),
        decreases patterns.len() - i,
    {
        assert(pv[i as int] == patterns@[i as int]@);
        assert(pv.skip(i as int)[0] == pv[i as int]);
        let glob = match glob_compile(patterns[i].as_str()) {
            Some(g) => g,
            None => return Err(GlobBuildError::Invalid(patterns[i].clone())),
        };
        assert(pv.skip(i as int).drop_first() =~= pv.skip(i + 1));
        builder_add(&mut builder, glob);
        assert(pv.take(i + 1) =~= pv.take(i as int).push(pv[i as int]));
        i = i + 1;
    }
    assert(pv.skip(i as int) =~= Seq::<Seq<char>>::empty());
    assert(pv.take(i as int) =~= pv);
    match builder_build(&builder) {
        Some(set) => Ok(GlobList { set }),
        None => Err(GlobBuildError::Build),
    }
}

#[verifier::external_type_specification]
#[verifier::external_body]
pub struct ExPattern(glob::Pattern);

/// A compiled `glob` pattern and its text.
///
/// Only [`pattern_new`] builds one, so `pattern` is always `text` compiled.
pub struct GlobPattern {
    text: Vec<char>,
    pattern: glob::Pattern,
}

impl View for GlobPattern {
    type V = Seq<char>;

    closed spec fn view(&self) -> Seq<char> {
        self.text@
    }
}

/// `glob::Pattern::new` accepts `pattern`.
pub uninterp spec fn pattern_valid(pattern: Seq<char>) -> bool;

/// `glob::Pattern::matches` of the compiled `pattern` on `text`.
pub uninterp spec fn pattern_match(pattern: Seq<char>, text: Seq<char>) -> bool;

/// Compiles `text` with `glob::Pattern::new`; none when it is not a valid pattern.
#[verifier::external_body]
pub(crate) fn pattern_new(text: &str) -> (r: Option<GlobPattern>)
    ensures
        r is Some <==> pattern_valid(text@),
        r matches Some(p) ==> p@ == text@,
{
    match glob::Pattern::new(text) {
        Ok(pattern) => Some(GlobPattern { text: text.chars().collect(), pattern }),
        Err(_) => None,
    }
}

/// `glob::Pattern::matches`: whether `pattern` matches all of `text`.
#[verifier::external_body]
pub(crate) fn pattern_matches(pattern: &GlobPattern, text: &str) -> (r: bool)
    ensures
        r == pattern_match(pattern@, text@),
{
    pattern.pattern.matches(text)
}

} // verus!
