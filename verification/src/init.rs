//! Writing a starter configuration file: where it goes, when to refuse, and
//! how its text is adjusted.
use vstd::prelude::*;

use crate::scanner::{lemma_first_text_bounds, text_index};
use crate::text::{chars_of, push_all, push_str, slice_of, string_of};

verus! {

/// The file written when no output path is given.
pub open spec fn default_config_path() -> Seq<char> {
    ".gh-actions-updater.toml"@
}

/// Where the starter configuration goes: the given output path, or the default.
pub fn config_path(output: &Option<String>) -> (p: String)
    ensures
        p@ == match output {
            Some(o) => o@,
            None => default_config_path(),
        },
{
    match output {
        Some(o) => o.clone(),
        None => string_of(&chars_of(".gh-actions-updater.toml")),
    }
}

pub open spec fn refusal_spec(path: Seq<char>) -> Seq<char> {
    path + " already exists; pass --force to overwrite it"@
}

/// Why an existing file is not overwritten, when it is not: it is present and
/// `--force` was not given.
pub fn init_refusal(path: &str, present: bool, force: bool) -> (r: Option<String>)
    ensures
        match r {
            Some(m) => present && !force && m@ == refusal_spec(path@),
            None => !present || force,
        },
{
    if present && !force {
        let mut m = chars_of(path);
        push_str(&mut m, " already exists; pass --force to overwrite it");
        Some(string_of(&m))
    } else {
        None
    }
}

/// `s` with every occurrence of `from` replaced by `to`, left to right
/// (`str::replace` with a non-empty pattern).
pub open spec fn replace_all(s: Seq<char>, from: Seq<char>, to: Seq<char>) -> Seq<char>
    decreases s.len(),
{
    if from.len() == 0 {
        s
    } else {
        match text_index(s, from) {
            None => s,
            Some(k) => if 0 <= k && k + from.len() <= s.len() {
                s.take(k) + to + replace_all(s.skip(k + from.len()), from, to)
            } else {
                s
            },
        }
    }
}

/// `s` with every occurrence of `from` replaced by `to`.
pub fn replace_text(s: &str, from: &str, to: &str) -> (r: String)
    requires
        from@.len() > 0,
    ensures
        r@ == replace_all(s@, from@, to@),
{
    let text = chars_of(s);
    let pat = chars_of(from);
    let rep = chars_of(to);
    let mut out: Vec<char> = Vec::new();
    let mut start: usize = 0;
    assert(text@.skip(0) =~= text@);
    loop
        invariant
            start <= text@.len(),
            pat@ == from@,
            pat@.len() > 0,
            rep@ == to@,
            out@ + replace_all(text@.skip(start as int), from@, to@) == replace_all(s@, from@, to@),
            text@ == s@,
        decreases text@.len() - start,
    {
        let rest = slice_of(&text, start, text.len());
        assert(rest@ =~= text@.skip(start as int));
        match crate::scanner::text_index_of(&rest, &pat) {
            None => {
                let ghost before = out@;
                push_all(&mut out, &rest);
                assert(out@ =~= before + replace_all(rest@, from@, to@));
                return string_of(&out);
            },
            Some(k) => {
                proof { lemma_first_text_bounds(rest@, pat@, 0); }
                let ghost before = out@;
                push_all(&mut out, &slice_of(&rest, 0, k));
                push_all(&mut out, &rep);
                assert(rest@.skip(k + pat@.len()) =~= text@.skip(start + k + pat@.len()));
                assert(out@ =~= before + rest@.take(k as int) + to@);
                start = start + k + pat.len();
            },
        }
    }
}

} // verus!
