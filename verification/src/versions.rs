//! Semver-like refs: their versions, their precision, and the newest tag.
use vstd::prelude::*;

use crate::action_ref::{strip_v, strip_v_exec};
use crate::cli::PinStyle;
use crate::config::Settings;
use crate::metadata::{tag_views, RemoteTag, RemoteTagView};
use crate::semver_api::{
    semver_compare, semver_order, semver_parse, semver_parsed, triple_lt, SemVersion, VersionView,
};
use crate::text::{chars_of, decimal, decimal_of, push_all, split, split_on, string_of, views};

verus! {

/// How many components a semver-like ref spells out.
#[derive(Clone, Copy, Debug, PartialEq, Eq, Structural)]
pub enum VersionPrecision {
    Major,
    Minor,
    Full,
}

/// A semver-like ref: its version, with missing components read as zero.
pub struct VersionRef {
    pub version: SemVersion,
    pub precision: VersionPrecision,
}

/// The text handed to the semver parser for `tag`, and the precision of `tag`:
/// `v4` reads as `4.0.0`, `v4.1` as `4.1.0`, anything else as written.
pub open spec fn version_text(tag: Seq<char>) -> (Seq<char>, VersionPrecision) {
    let v = strip_v(tag);
    let parts = split(v, '.');
    if parts.len() == 1 {
        (parts[0] + ".0.0"@, VersionPrecision::Major)
    } else if parts.len() == 2 {
        (parts[0] + "."@ + parts[1] + ".0"@, VersionPrecision::Minor)
    } else if parts.len() == 3 {
        (parts[0] + "."@ + parts[1] + "."@ + parts[2], VersionPrecision::Full)
    } else {
        (v, VersionPrecision::Full)
    }
}

/// The version and precision of a semver-like ref, if it parses.
pub open spec fn version_ref_of(tag: Seq<char>) -> Option<(VersionView, VersionPrecision)> {
    match semver_parsed(version_text(tag).0) {
        Some(v) => Some((v, version_text(tag).1)),
        None => None,
    }
}

/// The version of a tag name, if it is semver-like and parses.
pub open spec fn version_of(tag: Seq<char>) -> Option<VersionView> {
    match version_ref_of(tag) {
        Some(r) => Some(r.0),
        None => None,
    }
}

/// Parses a semver-like ref.
pub fn parse_version_ref(tag: &[char]) -> (r: Option<VersionRef>)
    ensures
        r matches Some(vr) ==> version_ref_of(tag@) == Some((vr.version@, vr.precision)),
        r is None ==> version_ref_of(tag@) is None,
{
    let v = strip_v_exec(tag);
    let parts = split_on(&v, '.');
    assert(views(parts@).len() == parts@.len());
    let (text, precision) = if parts.len() == 1 {
        assert(views(parts@)[0] == parts@[0]@);
        let mut text = parts[0].clone();
        push_all(&mut text, &chars_of(".0.0"));
        (text, VersionPrecision::Major)
    } else if parts.len() == 2 {
        assert(views(parts@)[0] == parts@[0]@);
        assert(views(parts@)[1] == parts@[1]@);
        let mut text = parts[0].clone();
        push_all(&mut text, &chars_of("."));
        push_all(&mut text, &parts[1]);
        push_all(&mut text, &chars_of(".0"));
        (text, VersionPrecision::Minor)
    } else if parts.len() == 3 {
        assert(views(parts@)[0] == parts@[0]@);
        assert(views(parts@)[1] == parts@[1]@);
        assert(views(parts@)[2] == parts@[2]@);
        let mut text = parts[0].clone();
        push_all(&mut text, &chars_of("."));
        push_all(&mut text, &parts[1]);
        push_all(&mut text, &chars_of("."));
        push_all(&mut text, &parts[2]);
        (text, VersionPrecision::Full)
    } else {
        (v, VersionPrecision::Full)
    };
    assert(text@ == version_text(tag@).0);
    let text = string_of(&text);
    match semver_parse(text.as_str()) {
        Some(version) => Some(VersionRef { version, precision }),
        None => None,
    }
}

/// The version of a tag name.
pub fn parse_version_tag(tag: &[char]) -> (r: Option<SemVersion>)
    ensures
        r matches Some(v) ==> version_of(tag@) == Some(v@),
        r is None ==> version_of(tag@) is None,
{
    match parse_version_ref(tag) {
        Some(vr) => Some(vr.version),
        None => None,
    }
}

/// The ref that names `target_name` at `precision`: its major version, its
/// major and minor version, or the tag itself; a leading `v` is kept when
/// the current ref or the tag has one.
pub open spec fn formatted_ref(precision: VersionPrecision, current: Seq<char>, target_name: Seq<char>) -> Seq<char> {
    match version_of(target_name) {
        None => target_name,
        Some(v) => {
            let prefix = if (current.len() > 0 && current[0] == 'v') || (target_name.len() > 0
                && target_name[0] == 'v') {
                "v"@
            } else {
                Seq::<char>::empty()
            };
            match precision {
                VersionPrecision::Major => prefix + decimal(v.major as nat),
                VersionPrecision::Minor => prefix + decimal(v.major as nat) + "."@ + decimal(v.minor as nat),
                VersionPrecision::Full => target_name,
            }
        },
    }
}

/// Writes the target tag at the given precision.
pub fn format_version_ref(precision: VersionPrecision, current: &[char], target: &RemoteTag) -> (r: Vec<char>)
    ensures
        r@ == formatted_ref(precision, current@, target.name@),
{
    let name = chars_of(target.name.as_str());
    let target_ref = match parse_version_ref(&name) {
        Some(t) => t,
        None => return name,
    };
    let mut out: Vec<char> = Vec::new();
    if (current.len() > 0 && current[0] == 'v') || (name.len() > 0 && name[0] == 'v') {
        out.push('v');
    }
    let ghost prefix = out@;
    proof {
        reveal_strlit("v");
        assert("v"@ =~= seq!['v']);
    }
    match precision {
        VersionPrecision::Major => {
            push_all(&mut out, &decimal_of(target_ref.version.major()));
            out
        },
        VersionPrecision::Minor => {
            push_all(&mut out, &decimal_of(target_ref.version.major()));
            push_all(&mut out, &chars_of("."));
            push_all(&mut out, &decimal_of(target_ref.version.minor()));
            out
        },
        VersionPrecision::Full => name,
    }
}

/// The ref an update writes for `target` under `pin_style`.
pub open spec fn pinned_ref(pin_style: PinStyle, current: Seq<char>, current_precision: VersionPrecision, target_name: Seq<char>) -> Seq<char> {
    match pin_style {
        PinStyle::Preserve => formatted_ref(current_precision, current, target_name),
        PinStyle::Major => formatted_ref(VersionPrecision::Major, current, target_name),
        PinStyle::Minor => formatted_ref(VersionPrecision::Minor, current, target_name),
        PinStyle::Full => target_name,
    }
}

/// Writes the target tag in the requested pin style.
pub fn format_pin_style(pin_style: PinStyle, current: &[char], current_ref: &VersionRef, target: &RemoteTag) -> (r: Vec<char>)
    ensures
        r@ == pinned_ref(pin_style, current@, current_ref.precision, target.name@),
{
    match pin_style {
        PinStyle::Preserve => format_version_ref(current_ref.precision, current, target),
        PinStyle::Major => format_version_ref(VersionPrecision::Major, current, target),
        PinStyle::Minor => format_version_ref(VersionPrecision::Minor, current, target),
        PinStyle::Full => chars_of(target.name.as_str()),
    }
}

/// The version of a tag name when the tag may be selected: it parses, has
/// the required major version, and is no pre-release unless those are
/// included.
pub open spec fn candidate_version(include_prereleases: bool, major: Option<u64>, name: Seq<char>) -> Option<VersionView> {
    match version_of(name) {
        None => None,
        Some(v) => if (major is None || v.major == major->0) && (include_prereleases || v.pre.len() == 0) {
            Some(v)
        } else {
            None
        },
    }
}

/// The newest candidate among the first `n` tags; of equal versions the later
/// tag wins.
pub open spec fn newest_among(include_prereleases: bool, major: Option<u64>, tags: Seq<RemoteTagView>, n: int) -> Option<(RemoteTagView, VersionView)>
    decreases n,
{
    if n <= 0 {
        None
    } else {
        let prev = newest_among(include_prereleases, major, tags, n - 1);
        match candidate_version(include_prereleases, major, tags[n - 1].name) {
            None => prev,
            Some(v) => match prev {
                None => Some((tags[n - 1], v)),
                Some(best) => if semver_order(best.1, v) == 1 {
                    prev
                } else {
                    Some((tags[n - 1], v))
                },
            },
        }
    }
}

/// The newest tag that may be selected, if any.
pub open spec fn newest_tag(include_prereleases: bool, major: Option<u64>, tags: Seq<RemoteTagView>) -> Option<RemoteTagView> {
    match newest_among(include_prereleases, major, tags, tags.len() as int) {
        Some(best) => Some(best.0),
        None => None,
    }
}

/// The newest semver tag, restricted to one major version when given, and
/// to releases unless pre-releases are included.
///
/// The result is a candidate that no candidate comes after in the semver
/// order, and the last of the tags with that version; its major, minor and
/// patch are at least those of every other candidate.
pub fn latest_semver_tag(settings: &Settings, tags: &[RemoteTag], major: Option<u64>) -> (r: Option<RemoteTag>)
    ensures
        r matches Some(t) ==> exists|j: int| 0 <= j < tags@.len() && #[trigger] tags@[j]@ == t@ && forall|k: int| 0 <= k < tags@.len()
            && k != j && (#[trigger] candidate_version(settings.include_prereleases, major, tags@[k].name@)) is Some
            ==> semver_order(candidate_version(settings.include_prereleases, major, tags@[k].name@)->0,
            candidate_version(settings.include_prereleases, major, t.name@)->0) != 1
            && (j < k ==> semver_order(candidate_version(settings.include_prereleases, major, tags@[k].name@)->0,
            candidate_version(settings.include_prereleases, major, t.name@)->0) == -1),
        opt_tag_view(r) == newest_tag(settings.include_prereleases, major, tag_views(tags@)),
        r is Some <==> exists|k: int| 0 <= k < tags@.len()
            && (#[trigger] candidate_version(settings.include_prereleases, major, tags@[k].name@)) is Some,
        r matches Some(t) ==> candidate_version(settings.include_prereleases, major, t.name@) is Some
            && forall|k: int| 0 <= k < tags@.len()
            && (#[trigger] candidate_version(settings.include_prereleases, major, tags@[k].name@)) is Some
            ==> !triple_lt(candidate_version(settings.include_prereleases, major, t.name@)->0,
            candidate_version(settings.include_prereleases, major, tags@[k].name@)->0),
{
    let ghost incl = settings.include_prereleases;
    let ghost tv = tag_views(tags@);
    let mut best: Option<(usize, SemVersion)> = None;
    let mut i: usize = 0;
    while i < tags.len()
        invariant
            i <= tags.len(),
            incl == settings.include_prereleases,
            tv == tag_views(tags@),
            tv.len() == tags@.len(),
            match best {
                None => newest_among(incl, major, tv, i as int) is None
                    && forall|k: int| 0 <= k < i ==> (#[trigger] candidate_version(incl, major, tags@[k].name@)) is None,
                Some(b) => b.0 < i && newest_among(incl, major, tv, i as int) == Some((tv[b.0 as int], b.1@))
                    && candidate_version(incl, major, tags@[b.0 as int].name@) == Some(b.1@)
                    && forall|k: int| 0 <= k < i && (#[trigger] candidate_version(incl, major, tags@[k].name@)) is Some
                    ==> !triple_lt(b.1@, candidate_version(incl, major, tags@[k].name@)->0)
                    && (k != b.0 ==> semver_order(candidate_version(incl, major, tags@[k].name@)->0, b.1@) != 1)
                    && (b.0 < k ==> semver_order(candidate_version(incl, major, tags@[k].name@)->0, b.1@) == -1),
            },
        decreases tags.len() - i,
    {
        assert(tv[i as int] == tags@[i as int]@);
        let name = chars_of(tags[i].name.as_str());
        match parse_version_tag(&name) {
            None => {},
            Some(version) => {
                if (major.is_none() || version.major() == major.unwrap()) && (settings.include_prereleases
                    || version.is_release()) {
                    proof {
                        assert(candidate_version(incl, major, tags@[i as int].name@) == Some(version@));
                    }
                    best = match best {
                        None => Some((i, version)),
                        Some(b) => {
                            if semver_compare(&b.1, &version) == 1 {
                                Some(b)
                            } else {
                                proof {
                                    assert forall|k: int| 0 <= k < i && (#[trigger] candidate_version(incl, major, tags@[k].name@)) is Some
                                        implies semver_order(candidate_version(incl, major, tags@[k].name@)->0, version@) != 1 by {
                                        if k != b.0 {
                                            assert(semver_parsed(version_text(tags@[k].name@).0) is Some);
                                        }
                                    }
                                }
                                Some((i, version))
                            }
                        },
                    };
                }
            },
        }
        i = i + 1;
    }
    match best {
        None => None,
        Some(b) => {
            assert(tv[b.0 as int] == tags@[b.0 as int]@);
            let t = tags[b.0].duplicate();
            assert(tags@[b.0 as int]@ == t@);
            Some(t)
        },
    }
}

pub open spec fn opt_tag_view(t: Option<RemoteTag>) -> Option<RemoteTagView> {
    match t {
        Some(t) => Some(t@),
        None => None,
    }
}

} // verus!
