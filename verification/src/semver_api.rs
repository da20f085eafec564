//! Semantic versions, parsed and ordered by the `semver` crate.
use vstd::prelude::*;

use std::cmp::Ordering;

verus! {

#[verifier::external_type_specification]
#[verifier::external_body]
pub struct ExVersion(semver::Version);

/// A version parsed by `semver::Version::parse`, with its five components.
///
/// Only [`semver_parse`] builds one, so the components always are those of `inner`.
pub struct SemVersion {
    major: u64,
    minor: u64,
    patch: u64,
    pre: String,
    build: String,
    inner: semver::Version,
}

/// The components that determine a version and its order.
pub struct VersionView {
    pub major: u64,
    pub minor: u64,
    pub patch: u64,
    pub pre: Seq<char>,
    pub build: Seq<char>,
}

impl View for SemVersion {
    type V = VersionView;

    closed spec fn view(&self) -> VersionView {
        VersionView {
            major: self.major,
            minor: self.minor,
            patch: self.patch,
            pre: self.pre@,
            build: self.build@,
        }
    }
}

impl SemVersion {
    /// The major number.
    pub fn major(&self) -> (r: u64)
        ensures
            r == self@.major,
    {
        self.major
    }

    /// The minor number.
    pub fn minor(&self) -> (r: u64)
        ensures
            r == self@.minor,
    {
        self.minor
    }

    /// The patch number.
    pub fn patch(&self) -> (r: u64)
        ensures
            r == self@.patch,
    {
        self.patch
    }

    /// Whether the version has no pre-release part.
    pub fn is_release(&self) -> (r: bool)
        ensures
            r == (self@.pre.len() == 0),
    {
        self.pre.as_str().is_empty()
    }
}

/// The version that `semver::Version::parse` reads from `text`, if any.
pub uninterp spec fn semver_parsed(text: Seq<char>) -> Option<VersionView>;

/// The order `semver::Version::cmp` gives two versions: -1, 0 or 1.
pub uninterp spec fn semver_order(a: VersionView, b: VersionView) -> int;

/// `a` comes before `b` by major, minor and patch alone.
pub open spec fn triple_lt(a: VersionView, b: VersionView) -> bool {
    ||| a.major < b.major
    ||| (a.major == b.major && a.minor < b.minor)
    ||| (a.major == b.major && a.minor == b.minor && a.patch < b.patch)
}

pub open spec fn triple_eq(a: VersionView, b: VersionView) -> bool {
    a.major == b.major && a.minor == b.minor && a.patch == b.patch
}

/// Parses `text` with `semver::Version::parse`; the components of the result
/// are copied out of it.
#[verifier::external_body]
pub(crate) fn semver_parse(text: &str) -> (r: Option<SemVersion>)
    ensures
        r matches Some(v) ==> semver_parsed(text@) == Some(v@),
        r is None ==> semver_parsed(text@) is None,
{
    match semver::Version::parse(text) {
        Ok(v) => Some(SemVersion {
            major: v.major,
            minor: v.minor,
            patch: v.patch,
            pre: v.pre.as_str().to_string(),
            build: v.build.as_str().to_string(),
            inner: v,
        }),
        Err(_) => None,
    }
}

/// Compares two versions with `semver::Version`'s `Ord`: -1, 0 or 1.
///
/// The derived order compares major, minor and patch numerically before the
/// pre-release and build parts, a version without pre-release comes after one
/// with it, and equal components compare equal; the order of two different
/// pre-release or build parts is left to the name `semver_order`. Being an
/// `Ord` over the five components (the pre-release and build orders of
/// `impls.rs` compare equal only on equal text), it is a total order among
/// parsed versions: antisymmetric, transitive, and equal only on equal
/// versions.
#[verifier::external_body]
pub(crate) fn semver_compare(a: &SemVersion, b: &SemVersion) -> (r: i8)
    ensures
        r == semver_order(a@, b@),
        -1 <= r <= 1,
        semver_order(b@, a@) == -r,
        r == 0 ==> a@ == b@,
        r != 1 ==> forall|t: Seq<char>| #[trigger] semver_parsed(t) is Some && semver_order(semver_parsed(t)->0, a@) != 1
            ==> semver_order(semver_parsed(t)->0, b@) != 1,
        triple_lt(a@, b@) ==> r == -1,
        triple_lt(b@, a@) ==> r == 1,
        a@ == b@ ==> r == 0,
        triple_eq(a@, b@) && a@.pre.len() == 0 && b@.pre.len() > 0 ==> r == 1,
        triple_eq(a@, b@) && a@.pre.len() > 0 && b@.pre.len() == 0 ==> r == -1,
{
    match a.inner.cmp(&b.inner) {
        Ordering::Less => -1,
        Ordering::Equal => 0,
        Ordering::Greater => 1,
    }
}

} // verus!
