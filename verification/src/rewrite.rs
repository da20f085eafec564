//! Rewriting the refs of updated references in place.
//!
//! Updates are grouped by file, ordered by where they stand, and applied
//! only where each span still holds the ref it was found with. The caller
//! reads and writes the files; this module decides what to write and what to
//! report.
use vstd::prelude::*;

use crate::action_ref::opt_view;
use crate::config::Settings;
use crate::metadata::diag_views;
use crate::report::{UpdateReport, UpdateView};
use crate::scanner::{ByteSpan, Diagnostic, DiagnosticCategory, DiagnosticCode, DiagnosticView};
use crate::text::{
    char_width, char_width_exec, chars_of, decimal, decimal_usize, lemma_name_less_total, lemma_name_less_transitive, lines, lines_of, name_before, name_less, push_all, same, slice_of, string_of, views,
};

verus! {

/// What rewriting the files did or would do.
#[derive(Debug)]
pub struct RewriteResult {
    pub changed: bool,
    pub would_change: bool,
    pub diagnostics: Vec<Diagnostic>,
    pub diffs: Vec<String>,
}

/// One ref to replace: the span it stands at, the text found there, and the
/// text to put there.
#[derive(Debug, Clone)]
pub struct Replacement {
    pub span: ByteSpan,
    pub current: String,
    pub target: String,
    pub line: usize,
}

pub struct ReplacementView {
    pub span: ByteSpan,
    pub current: Seq<char>,
    pub target: Seq<char>,
    pub line: usize,
}

impl View for Replacement {
    type V = ReplacementView;

    open spec fn view(&self) -> ReplacementView {
        ReplacementView { span: self.span, current: self.current@, target: self.target@, line: self.line }
    }
}

impl Replacement {
    /// A copy with the same span and texts.
    pub fn duplicate(&self) -> (r: Replacement)
        ensures
            r@ == self@,
    {
        Replacement { span: self.span, current: self.current.clone(), target: self.target.clone(), line: self.line }
    }
}

pub open spec fn replacement_views(r: Seq<Replacement>) -> Seq<ReplacementView> {
    r.map_values(|x: Replacement| x@)
}

/// The replacements of one file, ordered by where they start.
#[derive(Debug, Clone)]
pub struct FilePlan {
    pub file: String,
    pub replacements: Vec<Replacement>,
    pub overlapping: bool,
}

impl RewriteResult {
    /// A result with nothing done and nothing to report.
    pub fn new() -> (r: RewriteResult)
        ensures
            !r.changed,
            !r.would_change,
            r.diagnostics@.len() == 0,
            r.diffs@.len() == 0,
    {
        RewriteResult { changed: false, would_change: false, diagnostics: Vec::new(), diffs: Vec::new() }
    }

    /// Records that a rewritten file was written.
    pub fn mark_written(&mut self)
        ensures
            final(self).changed,
            final(self).would_change == old(self).would_change,
            final(self).diagnostics@ == old(self).diagnostics@,
            final(self).diffs@ == old(self).diffs@,
    {
        self.changed = true;
    }
}

/// The update has a target and a span that may be rewritten.
pub open spec fn queued(u: UpdateView) -> bool {
    u.target is Some && u.ref_span is Some && u.rewrite_supported
}

pub open spec fn no_span_message() -> Seq<char> {
    "update skipped because no safe source span was found"@
}

pub open spec fn not_safe_message() -> Seq<char> {
    "update skipped because the reference is not rewrite-safe"@
}

pub open spec fn reason_or(reason: Option<Seq<char>>, fallback: Seq<char>) -> Seq<char> {
    match reason {
        Some(r) => r,
        None => fallback,
    }
}

/// Why an update with a target is not rewritten, when it is not.
pub open spec fn skip_diag(u: UpdateView) -> Option<DiagnosticView> {
    if u.target is None {
        None
    } else if u.ref_span is None {
        Some(DiagnosticView {
            file: u.file,
            line: Some(u.line),
            message: reason_or(u.rewrite_reason, no_span_message()),
            category: DiagnosticCategory::General,
            code: DiagnosticCode::RewriteSkipped,
        })
    } else if !u.rewrite_supported {
        Some(DiagnosticView {
            file: u.file,
            line: Some(u.line),
            message: reason_or(u.rewrite_reason, not_safe_message()),
            category: DiagnosticCategory::General,
            code: DiagnosticCode::RewriteSkipped,
        })
    } else {
        None
    }
}

/// The skip diagnostics of `us`, in order.
pub open spec fn skip_diags(us: Seq<UpdateView>) -> Seq<DiagnosticView>
    decreases us.len(),
{
    if us.len() == 0 {
        Seq::empty()
    } else {
        match skip_diag(us.last()) {
            Some(d) => skip_diags(us.drop_last()).push(d),
            None => skip_diags(us.drop_last()),
        }
    }
}

pub open spec fn replacement_of(u: UpdateView) -> ReplacementView {
    ReplacementView { span: u.ref_span->0, current: u.current, target: u.target->0, line: u.line }
}

/// The replacements that `us` queue for `file`, in order.
pub open spec fn queued_for(us: Seq<UpdateView>, file: Seq<char>) -> Seq<ReplacementView>
    decreases us.len(),
{
    if us.len() == 0 {
        Seq::empty()
    } else if queued(us.last()) && us.last().file == file {
        queued_for(us.drop_last(), file).push(replacement_of(us.last()))
    } else {
        queued_for(us.drop_last(), file)
    }
}

/// `x` placed after every replacement of `s` that starts no later
/// (a step of a stable sort by start).
pub open spec fn insert_by_start(s: Seq<ReplacementView>, x: ReplacementView) -> Seq<ReplacementView>
    decreases s.len(),
{
    if s.len() == 0 || s.last().span.start <= x.span.start {
        s.push(x)
    } else {
        insert_by_start(s.drop_last(), x).push(s.last())
    }
}

/// `s` stably sorted by start (`sort_by_key` on the start).
pub open spec fn sort_by_start(s: Seq<ReplacementView>) -> Seq<ReplacementView>
    decreases s.len(),
{
    if s.len() == 0 {
        s
    } else {
        insert_by_start(sort_by_start(s.drop_last()), s.last())
    }
}

/// Two neighbours overlap: one ends after the next starts.
pub open spec fn overlaps(r: Seq<ReplacementView>) -> bool {
    exists|i: int| 0 <= i < r.len() - 1 && #[trigger] r[i].span.end > r[i + 1].span.start
}

/// Some of the first `n` updates of `us` queues a replacement in `file`.
pub open spec fn queues_file(us: Seq<UpdateView>, n: int, file: Seq<char>) -> bool {
    exists|j: int| 0 <= j < n && queued(us[j]) && us[j].file == file
}

/// `names` are the files that `us` queue replacements for, in order, each once.
pub open spec fn files_of(names: Seq<Seq<char>>, us: Seq<UpdateView>) -> bool {
    &&& forall|i: int, j: int| 0 <= i < j < names.len() ==> name_less(#[trigger] names[i], #[trigger] names[j])
    &&& forall|i: int| 0 <= i < names.len() ==> queues_file(us, us.len() as int, #[trigger] names[i])
    &&& forall|j: int| 0 <= j < us.len() && #[trigger] queued(us[j]) ==> names.contains(us[j].file)
}

pub open spec fn plan_files(plans: Seq<FilePlan>) -> Seq<Seq<char>> {
    plans.map_values(|p: FilePlan| p.file@)
}

/// `plans` group the queued replacements of `us` by file, as the rewrite
/// applies them.
pub open spec fn plans_of(plans: Seq<FilePlan>, us: Seq<UpdateView>) -> bool {
    &&& files_of(plan_files(plans), us)
    &&& forall|i: int| 0 <= i < plans.len() ==> {
        &&& replacement_views(#[trigger] plans[i].replacements@) == sort_by_start(queued_for(us, plans[i].file@))
        &&& plans[i].overlapping == overlaps(replacement_views(plans[i].replacements@))
    }
}

fn clone_opt(o: &Option<String>) -> (r: Option<String>)
    ensures
        opt_view(r) == opt_view(*o),
{
    match o {
        Some(s) => Some(s.clone()),
        None => None,
    }
}

fn general(file: &String, line: Option<usize>, code: DiagnosticCode, message: String) -> (d: Diagnostic)
    ensures
        d@ == (DiagnosticView { file: file@, line, message: message@, category: DiagnosticCategory::General, code }),
{
    Diagnostic { file: file.clone(), line, message, category: DiagnosticCategory::General, code }
}

fn skip_diagnostic(u: &UpdateReport) -> (d: Option<Diagnostic>)
    ensures
        match d {
            Some(x) => skip_diag(u@) == Some(x@),
            None => skip_diag(u@) is None,
        },
{
    if u.target.is_none() {
        None
    } else if u.ref_span.is_none() {
        let m = match &u.rewrite_reason {
            Some(r) => r.clone(),
            None => string_of(&chars_of("update skipped because no safe source span was found")),
        };
        Some(general(&u.file, Some(u.line), DiagnosticCode::RewriteSkipped, m))
    } else if !u.rewrite_supported {
        let m = match &u.rewrite_reason {
            Some(r) => r.clone(),
            None => string_of(&chars_of("update skipped because the reference is not rewrite-safe")),
        };
        Some(general(&u.file, Some(u.line), DiagnosticCode::RewriteSkipped, m))
    } else {
        None
    }
}

pub open spec fn update_views_of(us: Seq<UpdateReport>) -> Seq<UpdateView> {
    us.map_values(|u: UpdateReport| u@)
}

/// The diagnostics of the updates that have a target but cannot be
/// rewritten, in order.
pub fn skipped_updates(updates: &[UpdateReport]) -> (d: Vec<Diagnostic>)
    ensures
        diag_views(d@) == skip_diags(update_views_of(updates@)),
{
    let ghost us = update_views_of(updates@);
    let mut out: Vec<Diagnostic> = Vec::new();
    let mut i: usize = 0;
    while i < updates.len()
        invariant
            i <= updates@.len(),
            us == update_views_of(updates@),
            diag_views(out@) == skip_diags(us.take(i as int)),
        decreases updates@.len() - i,
    {
        assert(us.take(i + 1).drop_last() =~= us.take(i as int));
        assert(us.take(i + 1).last() == updates@[i as int]@);
        match skip_diagnostic(&updates[i]) {
            Some(x) => {
                let ghost before = diag_views(out@);
                out.push(x);
                assert(diag_views(out@) =~= before.push(x@));
            },
            None => {},
        }
        i = i + 1;
    }
    assert(us.take(i as int) =~= us);
    out
}

fn is_queued(u: &UpdateReport) -> (r: bool)
    ensures
        r == queued(u@),
{
    u.target.is_some() && u.ref_span.is_some() && u.rewrite_supported
}

/// Some string of `v` is `k`.
pub open spec fn has_name(v: Seq<String>, k: Seq<char>) -> bool {
    string_views_of(v).contains(k)
}

/// Adds `name` to `names`, which is ordered and has no name twice, unless it
/// is there already.
fn add_name(names: &mut Vec<String>, name: &String)
    requires
        forall|i: int, j: int| 0 <= i < j < old(names)@.len() ==> name_less(#[trigger] old(names)@[i]@, #[trigger] old(names)@[j]@),
    ensures
        forall|i: int, j: int| 0 <= i < j < final(names)@.len() ==> name_less(#[trigger] final(names)@[i]@, #[trigger] final(names)@[j]@),
        forall|k: Seq<char>| #[trigger] has_name(final(names)@, k) <==> (k == name@ || has_name(old(names)@, k)),
{
    let ghost old_names = names@;
    let xn = chars_of(name.as_str());
    let mut p: usize = 0;
    while p < names.len()
        invariant
            p <= names@.len(),
            names@ == old_names,
            xn@ == name@,
            forall|j: int| 0 <= j < p ==> name_less(#[trigger] names@[j]@, name@),
        ensures
            p <= names@.len(),
            names@ == old_names,
            forall|j: int| 0 <= j < p ==> name_less(#[trigger] names@[j]@, name@),
            p < names@.len() ==> !name_less(names@[p as int]@, name@),
        decreases names@.len() - p,
    {
        let on = chars_of(names[p].as_str());
        if !name_before(&on, &xn) {
            break;
        }
        p = p + 1;
    }
    if p < names.len() {
        let on = chars_of(names[p].as_str());
        if same(&on, &xn) {
            proof {
                assert forall|k: Seq<char>| #[trigger] has_name(names@, k) <==> (k == name@ || has_name(old_names, k)) by {
                    if k == name@ {
                        assert(string_views_of(names@)[p as int] == k);
                    }
                }
            }
            return;
        }
    }
    proof {
        if p < old_names.len() {
            lemma_name_less_total(old_names[p as int]@, name@);
            assert forall|j: int| p <= j < old_names.len() implies name_less(name@, #[trigger] old_names[j]@) by {
                if j > p {
                    lemma_name_less_transitive(name@, old_names[p as int]@, old_names[j]@);
                }
            }
        }
    }
    names.insert(p, name.clone());
    proof {
        let nv = names@;
        assert(nv =~= old_names.insert(p as int, nv[p as int]));
        assert forall|a: int, c: int| 0 <= a < c < nv.len() implies name_less(#[trigger] nv[a]@, #[trigger] nv[c]@) by {
            if c < p {
                assert(nv[a] == old_names[a] && nv[c] == old_names[c]);
            } else if c == p {
                assert(nv[a] == old_names[a]);
            } else if a < p {
                assert(nv[a] == old_names[a] && nv[c] == old_names[c - 1]);
                lemma_name_less_transitive(old_names[a]@, name@, old_names[c - 1]@);
            } else if a == p {
                assert(nv[c] == old_names[c - 1]);
            } else {
                assert(nv[a] == old_names[a - 1] && nv[c] == old_names[c - 1]);
            }
        }
        let sv = string_views_of(nv);
        let so = string_views_of(old_names);
        assert(sv =~= so.insert(p as int, name@));
        assert forall|k: Seq<char>| #[trigger] has_name(nv, k) <==> (k == name@ || has_name(old_names, k)) by {
            if sv.contains(k) {
                let i = choose|i: int| 0 <= i < sv.len() && sv[i] == k;
                if i < p {
                    assert(so[i] == k);
                } else if i > p {
                    assert(so[i - 1] == k);
                }
            }
            if so.contains(k) {
                let i = choose|i: int| 0 <= i < so.len() && so[i] == k;
                if i < p {
                    assert(sv[i] == k);
                } else {
                    assert(sv[i + 1] == k);
                }
            }
            if k == name@ {
                assert(sv[p as int] == k);
            }
        }
    }
}

proof fn lemma_queues_more(us: Seq<UpdateView>, n: int, m: int, file: Seq<char>)
    requires
        n <= m,
        queues_file(us, n, file),
    ensures
        queues_file(us, m, file),
{
    let j = choose|j: int| 0 <= j < n && queued(us[j]) && us[j].file == file;
    assert(0 <= j < m && queued(us[j]) && us[j].file == file);
}

/// The files that `updates` queue replacements for, ordered by name.
fn queued_files(updates: &[UpdateReport]) -> (names: Vec<String>)
    ensures
        files_of(string_views_of(names@), update_views_of(updates@)),
{
    let ghost us = update_views_of(updates@);
    let mut names: Vec<String> = Vec::new();
    let mut i: usize = 0;
    while i < updates.len()
        invariant
            i <= updates@.len(),
            us == update_views_of(updates@),
            forall|a: int, c: int| 0 <= a < c < names@.len() ==> name_less(#[trigger] names@[a]@, #[trigger] names@[c]@),
            forall|a: int| 0 <= a < names@.len() ==> queues_file(us, i as int, #[trigger] names@[a]@),
            forall|j: int| 0 <= j < i && #[trigger] queued(us[j]) ==> has_name(names@, us[j].file),
        decreases updates@.len() - i,
    {
        let ghost before = names@;
        assert(us[i as int] == updates@[i as int]@);
        if is_queued(&updates[i]) {
            add_name(&mut names, &updates[i].file);
        }
        proof {
            assert forall|a: int| 0 <= a < names@.len() implies queues_file(us, i + 1, #[trigger] names@[a]@) by {
                let k = names@[a]@;
                assert(string_views_of(names@)[a] == k);
                assert(has_name(names@, k));
                if queued(us[i as int]) && k == us[i as int].file {
                    assert(0 <= i < i + 1 && queued(us[i as int]) && us[i as int].file == k);
                } else {
                    assert(has_name(before, k));
                    let b = choose|b: int| 0 <= b < string_views_of(before).len() && string_views_of(before)[b] == k;
                    assert(before[b]@ == k);
                    lemma_queues_more(us, i as int, i + 1, k);
                }
            }
            assert forall|j: int| 0 <= j < i + 1 && #[trigger] queued(us[j]) implies has_name(names@, us[j].file) by {
                if j < i {
                    assert(has_name(before, us[j].file));
                }
            }
        }
        i = i + 1;
    }
    proof {
        let sv = string_views_of(names@);
        assert forall|a: int, c: int| 0 <= a < c < sv.len() implies name_less(#[trigger] sv[a], #[trigger] sv[c]) by {
            assert(sv[a] == names@[a]@ && sv[c] == names@[c]@);
        }
        assert forall|a: int| 0 <= a < sv.len() implies queues_file(us, us.len() as int, #[trigger] sv[a]) by {
            assert(sv[a] == names@[a]@);
        }
        assert forall|j: int| 0 <= j < us.len() && #[trigger] queued(us[j]) implies sv.contains(us[j].file) by {
            assert(has_name(names@, us[j].file));
        }
    }
    names
}

pub open spec fn string_views_of(v: Seq<String>) -> Seq<Seq<char>> {
    v.map_values(|x: String| x@)
}

fn replacement_from(u: &UpdateReport) -> (r: Replacement)
    requires
        queued(u@),
    ensures
        r@ == replacement_of(u@),
{
    let target = match &u.target {
        Some(t) => t.clone(),
        None => string_of(&Vec::new()),
    };
    let span = match u.ref_span {
        Some(s) => s,
        None => ByteSpan { start: 0, end: 0 },
    };
    Replacement { span, current: u.current.clone(), target, line: u.line }
}

/// The replacements that `updates` queue for `file`, in order.
fn collect_for(updates: &[UpdateReport], file: &String) -> (r: Vec<Replacement>)
    ensures
        replacement_views(r@) == queued_for(update_views_of(updates@), file@),
{
    let ghost us = update_views_of(updates@);
    let f = chars_of(file.as_str());
    let mut out: Vec<Replacement> = Vec::new();
    let mut i: usize = 0;
    while i < updates.len()
        invariant
            i <= updates@.len(),
            us == update_views_of(updates@),
            f@ == file@,
            replacement_views(out@) == queued_for(us.take(i as int), file@),
        decreases updates@.len() - i,
    {
        assert(us.take(i + 1).drop_last() =~= us.take(i as int));
        assert(us.take(i + 1).last() == updates@[i as int]@);
        let u = &updates[i];
        if is_queued(u) && same(&chars_of(u.file.as_str()), &f) {
            let x = replacement_from(u);
            let ghost before = replacement_views(out@);
            out.push(x);
            assert(replacement_views(out@) =~= before.push(x@));
        }
        i = i + 1;
    }
    assert(us.take(i as int) =~= us);
    out
}

proof fn lemma_insert_by_start(s: Seq<ReplacementView>, x: ReplacementView, p: int)
    requires
        0 <= p <= s.len(),
        forall|j: int| p <= j < s.len() ==> #[trigger] s[j].span.start > x.span.start,
        p > 0 ==> s[p - 1].span.start <= x.span.start,
    ensures
        insert_by_start(s, x) == s.insert(p, x),
    decreases s.len(),
{
    if p == s.len() {
        assert(s.insert(p, x) =~= s.push(x));
    } else {
        assert(s.last().span.start > x.span.start);
        lemma_insert_by_start(s.drop_last(), x, p);
        assert(s.drop_last().insert(p, x).push(s.last()) =~= s.insert(p, x));
    }
}

/// `raw` stably sorted by start.
fn sort_replacements(raw: Vec<Replacement>) -> (r: Vec<Replacement>)
    ensures
        replacement_views(r@) == sort_by_start(replacement_views(raw@)),
{
    let ghost rv = replacement_views(raw@);
    let mut out: Vec<Replacement> = Vec::new();
    let mut i: usize = 0;
    while i < raw.len()
        invariant
            i <= raw@.len(),
            rv == replacement_views(raw@),
            replacement_views(out@) == sort_by_start(rv.take(i as int)),
        decreases raw@.len() - i,
    {
        assert(rv.take(i + 1).drop_last() =~= rv.take(i as int));
        assert(rv.take(i + 1).last() == raw@[i as int]@);
        let x = raw[i].duplicate();
        let mut p: usize = out.len();
        while p > 0 && out[p - 1].span.start > x.span.start
            invariant
                p <= out@.len(),
                forall|j: int| p <= j < out@.len() ==> #[trigger] out@[j].span.start > x.span.start,
            decreases p,
        {
            p = p - 1;
        }
        let ghost before = replacement_views(out@);
        proof {
            lemma_insert_by_start(before, x@, p as int);
        }
        out.insert(p, x);
        assert(replacement_views(out@) =~= before.insert(p as int, x@));
        i = i + 1;
    }
    assert(rv.take(i as int) =~= rv);
    out
}

/// Whether two neighbouring replacements overlap.
pub fn has_overlaps(replacements: &[Replacement]) -> (r: bool)
    ensures
        r == overlaps(replacement_views(replacements@)),
{
    let ghost rv = replacement_views(replacements@);
    let n = replacements.len();
    let mut i: usize = 0;
    while i + 1 < n
        invariant
            n == replacements@.len(),
            i == 0 || i < n,
            rv == replacement_views(replacements@),
            forall|j: int| 0 <= j < i && j < rv.len() - 1 ==> !(#[trigger] rv[j].span.end > rv[j + 1].span.start),
        decreases replacements@.len() - i,
    {
        if replacements[i].span.end > replacements[i + 1].span.start {
            assert(rv[i as int].span.end > rv[i + 1].span.start);
            return true;
        }
        i = i + 1;
    }
    false
}

/// The rewrite plan of `updates`: for each file they touch, ordered by name,
/// its replacements in the order of their starts, and whether two overlap.
pub fn plan_rewrites(updates: &[UpdateReport]) -> (plans: Vec<FilePlan>)
    ensures
        plans_of(plans@, update_views_of(updates@)),
{
    let names = queued_files(updates);
    let ghost us = update_views_of(updates@);
    let mut plans: Vec<FilePlan> = Vec::new();
    let mut i: usize = 0;
    while i < names.len()
        invariant
            i <= names@.len(),
            us == update_views_of(updates@),
            files_of(string_views_of(names@), us),
            plans@.len() == i,
            forall|a: int| 0 <= a < i ==> (#[trigger] plans@[a]).file@ == names@[a]@,
            forall|a: int| 0 <= a < i ==> {
                &&& replacement_views(#[trigger] plans@[a].replacements@) == sort_by_start(queued_for(us, plans@[a].file@))
                &&& plans@[a].overlapping == overlaps(replacement_views(plans@[a].replacements@))
            },
        decreases names@.len() - i,
    {
        let raw = collect_for(updates, &names[i]);
        let sorted = sort_replacements(raw);
        let overlapping = has_overlaps(&sorted);
        let ghost before = plans@;
        let plan = FilePlan { file: names[i].clone(), replacements: sorted, overlapping };
        assert(replacement_views(plan.replacements@) == sort_by_start(queued_for(us, plan.file@)));
        plans.push(plan);
        proof {
            assert forall|a: int| 0 <= a < i + 1 implies {
                &&& replacement_views(#[trigger] plans@[a].replacements@) == sort_by_start(queued_for(us, plans@[a].file@))
                &&& plans@[a].overlapping == overlaps(replacement_views(plans@[a].replacements@))
            } by {
                if a < i {
                    assert(plans@[a] == before[a]);
                }
            }
        }
        i = i + 1;
    }
    proof {
        assert(plan_files(plans@) =~= string_views_of(names@));
    }
    plans
}


/// The position of the character that starts at byte `b` of the UTF-8
/// encoding of `s` (the length of `s` when `b` is the encoding's length);
/// none when `b` falls inside a character or past the end.
pub open spec fn char_index(s: Seq<char>, b: int) -> Option<int>
    decreases s.len(),
{
    if b == 0 {
        Some(0)
    } else if s.len() == 0 || b < char_width(s[0]) {
        None
    } else {
        match char_index(s.drop_first(), b - char_width(s[0])) {
            Some(k) => Some(k + 1),
            None => None,
        }
    }
}

pub proof fn lemma_char_index_bounds(s: Seq<char>, b: int)
    ensures
        char_index(s, b) is Some ==> 0 <= char_index(s, b)->0 <= s.len(),
    decreases s.len(),
{
    if b != 0 && s.len() > 0 && b >= char_width(s[0]) {
        lemma_char_index_bounds(s.drop_first(), b - char_width(s[0]));
    }
}

pub proof fn lemma_char_index_monotone(s: Seq<char>, b1: int, b2: int)
    requires
        b1 <= b2,
        char_index(s, b1) is Some,
        char_index(s, b2) is Some,
    ensures
        char_index(s, b1)->0 <= char_index(s, b2)->0,
    decreases s.len(),
{
    if b1 != 0 {
        lemma_char_index_monotone(s.drop_first(), b1 - char_width(s[0]), b2 - char_width(s[0]));
    } else {
        lemma_char_index_bounds(s, b2);
    }
}

/// The span of `r` lies on character boundaries of `s` and holds the text
/// the replacement expects.
pub open spec fn span_ok(s: Seq<char>, r: ReplacementView) -> bool {
    &&& char_index(s, r.span.start as int) is Some
    &&& char_index(s, r.span.end as int) is Some
    &&& s.subrange(char_index(s, r.span.start as int)->0, char_index(s, r.span.end as int)->0) == r.current
}

pub open spec fn spans_ok(s: Seq<char>, rs: Seq<ReplacementView>) -> bool {
    forall|i: int| 0 <= i < rs.len() ==> #[trigger] span_ok(s, rs[i])
}

pub open spec fn spans_ordered(rs: Seq<ReplacementView>) -> bool {
    forall|i: int| 0 <= i < rs.len() ==> (#[trigger] rs[i]).span.start <= rs[i].span.end
}

/// The character position of byte offset `b` of `s`.
fn char_index_of(s: &[char], b: usize) -> (r: Option<usize>)
    ensures
        match r {
            Some(k) => char_index(s@, b as int) == Some(k as int),
            None => char_index(s@, b as int) is None,
        },
{
    let n = s.len();
    let mut i: usize = 0;
    let mut acc: usize = 0;
    assert(s@.skip(0) =~= s@);
    while acc < b
        invariant
            n == s@.len(),
            i <= n,
            acc <= b,
            char_index(s@, b as int) == match char_index(s@.skip(i as int), b - acc) {
                Some(k) => Some(k + i),
                None => None,
            },
        decreases b - acc,
    {
        if i == n {
            return None;
        }
        let w: usize = char_width_exec(s[i]);
        if w > b - acc {
            return None;
        }
        assert(s@.skip(i as int).drop_first() =~= s@.skip(i + 1));
        acc = acc + w;
        i = i + 1;
    }
    Some(i)
}

/// Whether every span lies on character boundaries of `content` and still
/// holds the text its replacement expects.
pub fn spans_are_valid(content: &[char], replacements: &[Replacement]) -> (r: bool)
    requires
        spans_ordered(replacement_views(replacements@)),
    ensures
        r == spans_ok(content@, replacement_views(replacements@)),
{
    let ghost rv = replacement_views(replacements@);
    let mut i: usize = 0;
    while i < replacements.len()
        invariant
            i <= replacements@.len(),
            rv == replacement_views(replacements@),
            spans_ordered(rv),
            forall|j: int| 0 <= j < i ==> #[trigger] span_ok(content@, rv[j]),
        decreases replacements@.len() - i,
    {
        let r = &replacements[i];
        assert(rv[i as int] == r@);
        let a = match char_index_of(content, r.span.start) {
            Some(a) => a,
            None => {
                assert(!span_ok(content@, rv[i as int]));
                return false;
            },
        };
        let b = match char_index_of(content, r.span.end) {
            Some(b) => b,
            None => {
                assert(!span_ok(content@, rv[i as int]));
                return false;
            },
        };
        proof {
            assert(rv[i as int].span.start <= rv[i as int].span.end);
            lemma_char_index_monotone(content@, r.span.start as int, r.span.end as int);
            lemma_char_index_bounds(content@, r.span.end as int);
        }
        let found = slice_of(content, a, b);
        if !same(&found, &chars_of(r.current.as_str())) {
            assert(!span_ok(content@, rv[i as int]));
            return false;
        }
        assert(span_ok(content@, rv[i as int]));
        i = i + 1;
    }
    true
}

/// `s` from `from` on, with each span of `rs` replaced by its target and
/// everything between the spans kept.
pub open spec fn rebuild(s: Seq<char>, rs: Seq<ReplacementView>, from: int) -> Seq<char>
    decreases rs.len(),
{
    if rs.len() == 0 {
        s.skip(from)
    } else {
        let a = char_index(s, rs[0].span.start as int)->0;
        let b = char_index(s, rs[0].span.end as int)->0;
        s.subrange(from, a) + rs[0].target + rebuild(s, rs.drop_first(), b)
    }
}

/// `s` with each span of `rs` replaced by its target.
pub open spec fn rewritten(s: Seq<char>, rs: Seq<ReplacementView>) -> Seq<char> {
    rebuild(s, rs, 0)
}

/// `content` with each replacement's span replaced by its target.
fn apply_replacements(content: &[char], replacements: &[Replacement]) -> (out: Vec<char>)
    requires
        spans_ordered(replacement_views(replacements@)),
        spans_ok(content@, replacement_views(replacements@)),
        !overlaps(replacement_views(replacements@)),
    ensures
        out@ == rewritten(content@, replacement_views(replacements@)),
{
    let ghost rv = replacement_views(replacements@);
    let ghost s = content@;
    let mut out: Vec<char> = Vec::new();
    let mut cursor: usize = 0;
    let mut i: usize = 0;
    assert(rv.skip(0) =~= rv);
    while i < replacements.len()
        invariant
            i <= rv.len(),
            rv == replacement_views(replacements@),
            s == content@,
            spans_ordered(rv),
            spans_ok(s, rv),
            !overlaps(rv),
            cursor <= s.len(),
            i == 0 ==> cursor == 0,
            i > 0 ==> cursor == char_index(s, rv[i - 1].span.end as int)->0,
            rebuild(s, rv, 0) == out@ + rebuild(s, rv.skip(i as int), cursor as int),
        decreases rv.len() - i,
    {
        let r = &replacements[i];
        assert(rv[i as int] == r@);
        assert(span_ok(s, rv[i as int]));
        let a = match char_index_of(content, r.span.start) {
            Some(a) => a,
            None => { proof { assert(false); } return out; },
        };
        let b = match char_index_of(content, r.span.end) {
            Some(b) => b,
            None => { proof { assert(false); } return out; },
        };
        proof {
            lemma_char_index_bounds(s, r.span.end as int);
            lemma_char_index_monotone(s, r.span.start as int, r.span.end as int);
            if i > 0 {
                assert(!(rv[i - 1].span.end > rv[i as int].span.start));
                assert(span_ok(s, rv[i - 1]));
                lemma_char_index_monotone(s, rv[i - 1].span.end as int, r.span.start as int);
            }
            let rest = rv.skip(i as int);
            assert(rest[0] == rv[i as int]);
            assert(rest.drop_first() =~= rv.skip(i + 1));
        }
        let ghost before = out@;
        push_all(&mut out, &slice_of(content, cursor, a));
        push_all(&mut out, &chars_of(r.target.as_str()));
        assert(out@ =~= before + s.subrange(cursor as int, a as int) + r.target@);
        cursor = b;
        i = i + 1;
    }
    assert(rv.skip(i as int) =~= Seq::<ReplacementView>::empty());
    let ghost before = out@;
    push_all(&mut out, &slice_of(content, cursor, content.len()));
    assert(s.subrange(cursor as int, s.len() as int) =~= s.skip(cursor as int));
    out
}

/// The number of leading lines `a` and `b` share.
pub open spec fn common_prefix(a: Seq<Seq<char>>, b: Seq<Seq<char>>) -> nat
    decreases a.len(),
{
    if a.len() == 0 || b.len() == 0 || a[0] != b[0] {
        0
    } else {
        1 + common_prefix(a.drop_first(), b.drop_first())
    }
}

/// The number of trailing lines `a` and `b` share.
pub open spec fn common_suffix(a: Seq<Seq<char>>, b: Seq<Seq<char>>) -> nat
    decreases a.len(),
{
    if a.len() == 0 || b.len() == 0 || a.last() != b.last() {
        0
    } else {
        1 + common_suffix(a.drop_last(), b.drop_last())
    }
}

/// Each line of `ls` after `marker` and followed by a newline.
pub open spec fn marked(marker: char, ls: Seq<Seq<char>>) -> Seq<char>
    decreases ls.len(),
{
    if ls.len() == 0 {
        Seq::empty()
    } else {
        marked(marker, ls.drop_last()) + seq![marker] + ls.last() + seq!['\n']
    }
}

/// `file` without leading slashes, as it appears after `a/` and `b/`.
pub open spec fn diff_path_spec(file: Seq<char>) -> Seq<char>
    decreases file.len(),
{
    if file.len() > 0 && file[0] == '/' {
        diff_path_spec(file.drop_first())
    } else {
        file
    }
}

pub open spec fn min_of(x: int, y: int) -> int {
    if x < y { x } else { y }
}

/// The one hunk of the diff: up to three lines of context on each side of
/// the changed lines.
pub open spec fn hunk_spec(a: Seq<Seq<char>>, b: Seq<Seq<char>>) -> Seq<char> {
    let p = common_prefix(a, b) as int;
    let sfx = common_suffix(a.skip(p), b.skip(p)) as int;
    let oce = a.len() - sfx;
    let rce = b.len() - sfx;
    let hs = if p >= 3 { p - 3 } else { 0 };
    let ohe = min_of(oce + 3, a.len() as int);
    let rhe = min_of(rce + 3, b.len() as int);
    marked(' ', a.subrange(hs, p)) + marked('-', a.subrange(p, oce)) + marked('+', b.subrange(p, rce))
        + marked(' ', a.subrange(oce, ohe).take(min_of(ohe - oce, rhe - rce)))
}

/// The count of a hunk side in its header: at least one.
pub open spec fn hunk_count(end: int, start: int) -> int {
    if end - start > 1 { end - start } else { 1 }
}

/// The unified diff of `original` against `rewritten` for `file`: a git
/// header and one hunk around the changed lines.
pub open spec fn unified_diff(file: Seq<char>, original: Seq<char>, rewritten: Seq<char>) -> Seq<char> {
    let a = lines(original);
    let b = lines(rewritten);
    let p = common_prefix(a, b) as int;
    let sfx = common_suffix(a.skip(p), b.skip(p)) as int;
    let hs = if p >= 3 { p - 3 } else { 0 };
    let ohe = min_of(a.len() - sfx + 3, a.len() as int);
    let rhe = min_of(b.len() - sfx + 3, b.len() as int);
    let dp = diff_path_spec(file);
    "diff --git a/"@ + dp + " b/"@ + dp + "\n--- a/"@ + dp + "\n+++ b/"@ + dp + "\n@@ -"@
        + decimal((hs + 1) as nat) + ","@ + decimal(hunk_count(ohe, hs) as nat) + " +"@
        + decimal((hs + 1) as nat) + ","@ + decimal(hunk_count(rhe, hs) as nat) + " @@\n"@ + hunk_spec(a, b)
}

pub proof fn lemma_common_prefix_bounds(a: Seq<Seq<char>>, b: Seq<Seq<char>>)
    ensures
        common_prefix(a, b) <= a.len(),
        common_prefix(a, b) <= b.len(),
    decreases a.len(),
{
    if a.len() > 0 && b.len() > 0 && a[0] == b[0] {
        lemma_common_prefix_bounds(a.drop_first(), b.drop_first());
    }
}

pub proof fn lemma_common_suffix_bounds(a: Seq<Seq<char>>, b: Seq<Seq<char>>)
    ensures
        common_suffix(a, b) <= a.len(),
        common_suffix(a, b) <= b.len(),
    decreases a.len(),
{
    if a.len() > 0 && b.len() > 0 && a.last() == b.last() {
        lemma_common_suffix_bounds(a.drop_last(), b.drop_last());
    }
}

/// `file` without leading slashes.
pub fn diff_path(file: &str) -> (r: String)
    ensures
        r@ == diff_path_spec(file@),
{
    let f = chars_of(file);
    let mut i: usize = 0;
    assert(f@.skip(0) =~= f@);
    while i < f.len() && f[i] == '/'
        invariant
            i <= f@.len(),
            diff_path_spec(file@) == diff_path_spec(f@.skip(i as int)),
            f@ == file@,
        decreases f@.len() - i,
    {
        assert(f@.skip(i as int).drop_first() =~= f@.skip(i + 1));
        i = i + 1;
    }
    string_of(&slice_of(&f, i, f.len()))
}

fn push_marked(out: &mut Vec<char>, marker: char, ls: &Vec<Vec<char>>, from: usize, to: usize)
    requires
        from <= to <= ls@.len(),
    ensures
        final(out)@ == old(out)@ + marked(marker, views(ls@).subrange(from as int, to as int)),
{
    let ghost start = out@;
    let mut i: usize = from;
    assert(views(ls@).subrange(from as int, from as int) =~= Seq::<Seq<char>>::empty());
    while i < to
        invariant
            from <= i <= to,
            to <= ls@.len(),
            out@ == start + marked(marker, views(ls@).subrange(from as int, i as int)),
        decreases to - i,
    {
        let ghost before = out@;
        out.push(marker);
        push_all(out, &ls[i]);
        out.push('\n');
        let ghost part = views(ls@).subrange(from as int, i + 1);
        assert(part.drop_last() =~= views(ls@).subrange(from as int, i as int));
        assert(part.last() == ls@[i as int]@);
        assert(out@ =~= start + marked(marker, part));
        i = i + 1;
    }
}

/// The body of the one hunk of a diff between the lines `a` and `b`.
pub fn render_diff_hunk(a: &Vec<Vec<char>>, b: &Vec<Vec<char>>) -> (r: Vec<char>)
    ensures
        r@ == hunk_spec(views(a@), views(b@)),
{
    let ghost av = views(a@);
    let ghost bv = views(b@);
    let p = shared_prefix(a, b);
    let sfx = shared_suffix(a, b, p);
    let oce = a.len() - sfx;
    let rce = b.len() - sfx;
    let hs = if p >= 3 { p - 3 } else { 0 };
    let ohe = if sfx >= 3 { oce + 3 } else { a.len() };
    let rhe = if sfx >= 3 { rce + 3 } else { b.len() };
    let tail = if ohe - oce < rhe - rce { ohe - oce } else { rhe - rce };
    let mut out: Vec<char> = Vec::new();
    push_marked(&mut out, ' ', a, hs, p);
    push_marked(&mut out, '-', a, p, oce);
    push_marked(&mut out, '+', b, p, rce);
    push_marked(&mut out, ' ', a, oce, oce + tail);
    assert(av.subrange(oce as int, ohe as int).take(tail as int) =~= av.subrange(oce as int, oce + tail));
    assert(out@ =~= hunk_spec(av, bv));
    out
}

/// The number of leading lines `a` and `b` share.
fn shared_prefix(a: &Vec<Vec<char>>, b: &Vec<Vec<char>>) -> (p: usize)
    ensures
        p == common_prefix(views(a@), views(b@)),
        p <= a@.len(),
        p <= b@.len(),
{
    let ghost av = views(a@);
    let ghost bv = views(b@);
    let mut p: usize = 0;
    assert(av.skip(0) =~= av);
    assert(bv.skip(0) =~= bv);
    while p < a.len() && p < b.len() && same(&a[p], &b[p])
        invariant
            p <= a@.len(),
            p <= b@.len(),
            av == views(a@),
            bv == views(b@),
            common_prefix(av, bv) == p + common_prefix(av.skip(p as int), bv.skip(p as int)),
        decreases a@.len() - p,
    {
        assert(av.skip(p as int).drop_first() =~= av.skip(p + 1));
        assert(bv.skip(p as int).drop_first() =~= bv.skip(p + 1));
        p = p + 1;
    }
    p
}

/// The number of trailing lines `a` and `b` share after their first `p`.
fn shared_suffix(a: &Vec<Vec<char>>, b: &Vec<Vec<char>>, p: usize) -> (k: usize)
    requires
        p <= a@.len(),
        p <= b@.len(),
    ensures
        k == common_suffix(views(a@).skip(p as int), views(b@).skip(p as int)),
        k <= a@.len() - p,
        k <= b@.len() - p,
{
    let ghost av = views(a@).skip(p as int);
    let ghost bv = views(b@).skip(p as int);
    let n = a.len();
    let m = b.len();
    let mut k: usize = 0;
    assert(av.take(av.len() as int) =~= av);
    assert(bv.take(bv.len() as int) =~= bv);
    while k < n - p && k < m - p && same(&a[n - 1 - k], &b[m - 1 - k])
        invariant
            n == a@.len(),
            m == b@.len(),
            p <= n,
            p <= m,
            k <= n - p,
            k <= m - p,
            av == views(a@).skip(p as int),
            bv == views(b@).skip(p as int),
            common_suffix(av, bv) == k + common_suffix(av.take(av.len() - k), bv.take(bv.len() - k)),
        decreases n - p - k,
    {
        let ghost at = av.take(av.len() - k);
        let ghost bt = bv.take(bv.len() - k);
        assert(at.last() == a@[n - 1 - k]@);
        assert(bt.last() == b@[m - 1 - k]@);
        assert(at.drop_last() =~= av.take(av.len() - (k + 1)));
        assert(bt.drop_last() =~= bv.take(bv.len() - (k + 1)));
        k = k + 1;
    }
    proof {
        let at = av.take(av.len() - k);
        let bt = bv.take(bv.len() - k);
        if k < n - p && k < m - p {
            assert(at.last() == a@[n - 1 - k]@);
            assert(bt.last() == b@[m - 1 - k]@);
        }
    }
    k
}

/// The unified diff of `original` against `rewritten` for `file`.
pub fn render_unified_diff(file: &str, original: &str, rewritten: &str) -> (r: String)
    ensures
        r@ == unified_diff(file@, original@, rewritten@),
{
    let a = lines_of(&chars_of(original));
    let b = lines_of(&chars_of(rewritten));
    let p = shared_prefix(&a, &b);
    let sfx = shared_suffix(&a, &b, p);
    let hs = if p >= 3 { p - 3 } else { 0 };
    let ohe = if sfx >= 3 { a.len() - sfx + 3 } else { a.len() };
    let rhe = if sfx >= 3 { b.len() - sfx + 3 } else { b.len() };
    let oc = if ohe - hs > 1 { ohe - hs } else { 1 };
    let rc = if rhe - hs > 1 { rhe - hs } else { 1 };
    let dp = chars_of(diff_path(file).as_str());
    let mut out = chars_of("diff --git a/");
    push_all(&mut out, &dp);
    push_all(&mut out, &chars_of(" b/"));
    push_all(&mut out, &dp);
    push_all(&mut out, &chars_of("\n--- a/"));
    push_all(&mut out, &dp);
    push_all(&mut out, &chars_of("\n+++ b/"));
    push_all(&mut out, &dp);
    push_all(&mut out, &chars_of("\n@@ -"));
    push_all(&mut out, &decimal_usize(hs + 1));
    push_all(&mut out, &chars_of(","));
    push_all(&mut out, &decimal_usize(oc));
    push_all(&mut out, &chars_of(" +"));
    push_all(&mut out, &decimal_usize(hs + 1));
    push_all(&mut out, &chars_of(","));
    push_all(&mut out, &decimal_usize(rc));
    push_all(&mut out, &chars_of(" @@\n"));
    push_all(&mut out, &render_diff_hunk(&a, &b));
    proof {
        lemma_common_prefix_bounds(views(a@), views(b@));
    }
    string_of(&out)
}

pub open spec fn overlap_message() -> Seq<char> {
    "updates skipped because rewrite spans overlap"@
}

pub open spec fn span_mismatch_message() -> Seq<char> {
    "update skipped because the source span no longer matches the file"@
}

/// One diagnostic per replacement whose file no longer matches.
pub open spec fn mismatch_diags(file: Seq<char>, rs: Seq<ReplacementView>) -> Seq<DiagnosticView> {
    rs.map_values(|r: ReplacementView| DiagnosticView {
        file,
        line: Some(r.line),
        message: span_mismatch_message(),
        category: DiagnosticCategory::General,
        code: DiagnosticCode::RewriteSpanMismatch,
    })
}

/// What rewriting `file` reports: one diagnostic when spans overlap, one per
/// replacement when the file no longer matches them, else nothing.
pub open spec fn file_diags(file: Seq<char>, rs: Seq<ReplacementView>, overlapping: bool, content: Seq<char>) -> Seq<DiagnosticView> {
    if overlapping {
        seq![DiagnosticView {
            file,
            line: None,
            message: overlap_message(),
            category: DiagnosticCategory::General,
            code: DiagnosticCode::RewriteSpansOverlap,
        }]
    } else if !spans_ok(content, rs) {
        mismatch_diags(file, rs)
    } else {
        Seq::empty()
    }
}

/// The replacements apply to the file and change it.
pub open spec fn file_changes(rs: Seq<ReplacementView>, overlapping: bool, content: Seq<char>) -> bool {
    !overlapping && spans_ok(content, rs) && rewritten(content, rs) != content
}

/// The text written back to the file: its rewrite, when the replacements
/// change it and the run is not a dry run.
pub open spec fn file_write(dry_run: bool, rs: Seq<ReplacementView>, overlapping: bool, content: Seq<char>) -> Option<Seq<char>> {
    if file_changes(rs, overlapping, content) && !dry_run {
        Some(rewritten(content, rs))
    } else {
        None
    }
}

pub open spec fn content_of(content: Option<&str>) -> Seq<char> {
    match content {
        Some(c) => c@,
        None => Seq::empty(),
    }
}

impl FilePlan {
    /// Whether rewriting the file needs its content: not when spans overlap.
    pub fn wants_content(&self) -> (r: bool)
        ensures
            r == !self.overlapping,
    {
        !self.overlapping
    }
}

/// Rewrites one file of the plan with `content` read from it (none when its
/// spans overlap): records diagnostics, whether it would change, and its
/// diff, and gives the new text when it is to be written.
pub fn rewrite_file(settings: &Settings, plan: &FilePlan, content: Option<&str>, result: &mut RewriteResult) -> (write: Option<String>)
    requires
        spans_ordered(replacement_views(plan.replacements@)),
        plan.overlapping == overlaps(replacement_views(plan.replacements@)),
        !plan.overlapping ==> content is Some,
    ensures
        ({
            let rs = replacement_views(plan.replacements@);
            let c = content_of(content);
            let changes = file_changes(rs, plan.overlapping, c);
            &&& diag_views(final(result).diagnostics@) == diag_views(old(result).diagnostics@) + file_diags(plan.file@, rs, plan.overlapping, c)
            &&& final(result).would_change == (old(result).would_change || changes)
            &&& final(result).changed == old(result).changed
            &&& string_views_of(final(result).diffs@) == string_views_of(old(result).diffs@) + (if changes && settings.diff {
                seq![unified_diff(plan.file@, c, rewritten(c, rs))]
            } else {
                Seq::empty()
            })
            &&& opt_view(write) == file_write(settings.dry_run, rs, plan.overlapping, c)
        }),
{
    let ghost rs = replacement_views(plan.replacements@);
    let ghost d0 = diag_views(result.diagnostics@);
    let ghost f0 = string_views_of(result.diffs@);
    if plan.overlapping {
        let d = general(&plan.file, None, DiagnosticCode::RewriteSpansOverlap, string_of(&chars_of("updates skipped because rewrite spans overlap")));
        result.diagnostics.push(d);
        assert(diag_views(result.diagnostics@) =~= d0.push(d@));
        assert(string_views_of(result.diffs@) =~= f0 + Seq::<Seq<char>>::empty());
        return None;
    }
    let text = match content {
        Some(t) => t,
        None => {
            proof { assert(false); }
            return None;
        },
    };
    let original = chars_of(text);
    if !spans_are_valid(&original, &plan.replacements) {
        let mut i: usize = 0;
        while i < plan.replacements.len()
            invariant
                i <= rs.len(),
                rs == replacement_views(plan.replacements@),
                diag_views(result.diagnostics@) == d0 + mismatch_diags(plan.file@, rs).take(i as int),
                string_views_of(result.diffs@) == f0,
                result.would_change == old(result).would_change,
                result.changed == old(result).changed,
            decreases rs.len() - i,
        {
            let d = general(&plan.file, Some(plan.replacements[i].line), DiagnosticCode::RewriteSpanMismatch,
                string_of(&chars_of("update skipped because the source span no longer matches the file")));
            let ghost before = diag_views(result.diagnostics@);
            result.diagnostics.push(d);
            assert(diag_views(result.diagnostics@) =~= before.push(d@));
            assert(mismatch_diags(plan.file@, rs).take(i + 1) =~= mismatch_diags(plan.file@, rs).take(i as int).push(d@));
            i = i + 1;
        }
        assert(mismatch_diags(plan.file@, rs).take(i as int) =~= mismatch_diags(plan.file@, rs));
        assert(string_views_of(result.diffs@) =~= f0 + Seq::<Seq<char>>::empty());
        return None;
    }
    let new_text = apply_replacements(&original, &plan.replacements);
    assert(diag_views(result.diagnostics@) =~= d0 + Seq::<DiagnosticView>::empty());
    if same(&new_text, &original) {
        assert(string_views_of(result.diffs@) =~= f0 + Seq::<Seq<char>>::empty());
        return None;
    }
    result.would_change = true;
    let rewritten_text = string_of(&new_text);
    if settings.diff {
        let diff = render_unified_diff(plan.file.as_str(), text, rewritten_text.as_str());
        result.diffs.push(diff);
        assert(string_views_of(result.diffs@) =~= f0.push(diff@));
    } else {
        assert(string_views_of(result.diffs@) =~= f0 + Seq::<Seq<char>>::empty());
    }
    if !settings.dry_run {
        Some(rewritten_text)
    } else {
        None
    }
}

proof fn lemma_rebuild_identity(s: Seq<char>, rs: Seq<ReplacementView>, from: int)
    requires
        spans_ordered(rs),
        spans_ok(s, rs),
        !overlaps(rs),
        forall|i: int| 0 <= i < rs.len() ==> (#[trigger] rs[i]).target == rs[i].current,
        0 <= from <= s.len(),
        rs.len() > 0 ==> from <= char_index(s, rs[0].span.start as int)->0,
    ensures
        rebuild(s, rs, from) == s.skip(from),
    decreases rs.len(),
{
    if rs.len() > 0 {
        let r = rs[0];
        assert(span_ok(s, rs[0]));
        let a = char_index(s, r.span.start as int)->0;
        let b = char_index(s, r.span.end as int)->0;
        lemma_char_index_monotone(s, r.span.start as int, r.span.end as int);
        lemma_char_index_bounds(s, r.span.end as int);
        let rest = rs.drop_first();
        assert forall|i: int| 0 <= i < rest.len() implies #[trigger] span_ok(s, rest[i]) by {
            assert(rest[i] == rs[i + 1]);
            assert(span_ok(s, rs[i + 1]));
        }
        assert forall|i: int| 0 <= i < rest.len() implies (#[trigger] rest[i]).span.start <= rest[i].span.end by {
            assert(rest[i] == rs[i + 1]);
        }
        assert forall|i: int| 0 <= i < rest.len() implies (#[trigger] rest[i]).target == rest[i].current by {
            assert(rest[i] == rs[i + 1]);
        }
        if overlaps(rest) {
            let i = choose|i: int| 0 <= i < rest.len() - 1 && #[trigger] rest[i].span.end > rest[i + 1].span.start;
            assert(rs[i + 1].span.end > rs[i + 2].span.start);
        }
        if rest.len() > 0 {
            assert(rest[0] == rs[1]);
            assert(!(rs[0].span.end > rs[1].span.start));
            assert(span_ok(s, rs[1]));
            lemma_char_index_monotone(s, r.span.end as int, rs[1].span.start as int);
        }
        lemma_rebuild_identity(s, rest, b);
        assert(s.subrange(from, a) + s.subrange(a, b) + s.skip(b) =~= s.skip(from));
    }
}

/// A rewrite whose every target is the text already in its span leaves the
/// file as it was.
pub proof fn law_unchanged_refs_leave_file(s: Seq<char>, rs: Seq<ReplacementView>)
    requires
        spans_ordered(rs),
        spans_ok(s, rs),
        !overlaps(rs),
        forall|i: int| 0 <= i < rs.len() ==> (#[trigger] rs[i]).target == rs[i].current,
    ensures
        rewritten(s, rs) == s,
{
    if rs.len() > 0 {
        assert(span_ok(s, rs[0]));
        lemma_char_index_bounds(s, rs[0].span.start as int);
    }
    lemma_rebuild_identity(s, rs, 0);
    assert(s.skip(0) =~= s);
}

/// Rewriting keeps everything before the first span and after the last one.
pub proof fn law_rewrite_keeps_outside(s: Seq<char>, rs: Seq<ReplacementView>)
    requires
        rs.len() > 0,
        spans_ordered(rs),
        spans_ok(s, rs),
    ensures
        rewritten(s, rs).take(char_index(s, rs[0].span.start as int)->0) == s.take(char_index(s, rs[0].span.start as int)->0),
{
    assert(span_ok(s, rs[0]));
    let a = char_index(s, rs[0].span.start as int)->0;
    lemma_char_index_bounds(s, rs[0].span.start as int);
    assert(s.subrange(0, a) =~= s.take(a));
    assert((s.subrange(0, a) + rs[0].target + rebuild(s, rs.drop_first(), char_index(s, rs[0].span.end as int)->0)).take(a) =~= s.take(a));
}

} // verus!
