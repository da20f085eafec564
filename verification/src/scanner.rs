//! Finding `uses:` references in workflow and action metadata files.
use vstd::prelude::*;

use crate::action_ref::{opt_view, parse_uses, parse_uses_spec, ParsedRef, ParsedRefView, ReferenceKind};
use crate::config::{eq_ignore_ascii_case, eq_ignore_ascii_case_exec, Settings};
use crate::text::{
    char_width, chars_of, contains, has_text, index_of, last_index_of, lemma_index_of_bounds, lemma_last_index_of_bounds, lines, lines_of, occurs_at, occurs_at_exec, push_str, rfind_char, same, slice_of, split, split_on, string_of, string_views, trim, trim_chars, views,
};
use vstd::string::StringSliceAdditionalSpecFns;
use crate::yaml::YamlNode;

verus! {

/// One scanned file.
#[derive(Debug, Clone)]
pub struct FileReport {
    pub path: String,
    pub kind: FileKind,
    pub references: usize,
}

pub struct FileView {
    pub path: Seq<char>,
    pub kind: FileKind,
    pub references: usize,
}

impl View for FileReport {
    type V = FileView;

    open spec fn view(&self) -> FileView {
        FileView { path: self.path@, kind: self.kind, references: self.references }
    }
}

pub open spec fn file_views(f: Seq<FileReport>) -> Seq<FileView> {
    f.map_values(|x: FileReport| x@)
}

pub open spec fn reference_views(r: Seq<ReferenceReport>) -> Seq<ReferenceView> {
    r.map_values(|x: ReferenceReport| x@)
}

#[derive(Debug, Clone, Copy, PartialEq, Eq, Structural)]
pub enum FileKind {
    Workflow,
    ActionMetadata,
}

/// A half-open byte range `start..end` of a file.
#[derive(Debug, Clone, Copy, PartialEq, Eq, Structural)]
pub struct ByteSpan {
    pub start: usize,
    pub end: usize,
}

/// One `uses:` reference found in a file.
#[derive(Debug, Clone)]
pub struct ReferenceReport {
    pub file: String,
    pub line: usize,
    pub column: usize,
    pub raw: String,
    pub parsed: ParsedRef,
    pub ref_span: Option<ByteSpan>,
    pub rewrite_supported: bool,
    pub rewrite_reason: Option<String>,
    pub update_ignored: bool,
}

pub struct ReferenceView {
    pub file: Seq<char>,
    pub line: usize,
    pub column: usize,
    pub raw: Seq<char>,
    pub parsed: ParsedRefView,
    pub ref_span: Option<ByteSpan>,
    pub rewrite_supported: bool,
    pub rewrite_reason: Option<Seq<char>>,
    pub update_ignored: bool,
}

impl View for ReferenceReport {
    type V = ReferenceView;

    open spec fn view(&self) -> ReferenceView {
        ReferenceView {
            file: self.file@,
            line: self.line,
            column: self.column,
            raw: self.raw@,
            parsed: self.parsed@,
            ref_span: self.ref_span,
            rewrite_supported: self.rewrite_supported,
            rewrite_reason: opt_view(self.rewrite_reason),
            update_ignored: self.update_ignored,
        }
    }
}

/// What a diagnostic is about.
#[derive(Debug, Clone, Copy, PartialEq, Eq, Structural)]
pub enum DiagnosticCategory {
    General,
    Validation,
    Metadata,
    Schema,
}

/// Which finding a diagnostic reports; its name is stable across releases.
#[derive(Debug, Clone, Copy, PartialEq, Eq, Structural)]
pub enum DiagnosticCode {
    MalformedReference,
    EmptyFile,
    MissingRuns,
    StrictSchemaUnsupported,
    LocalReferenceMissing,
    RemoteRefMissing,
    MetadataLookupFailed,
    StaleMetadata,
    ShaUpdateAvailable,
    TargetUnavailable,
    RewriteSkipped,
    RewriteSpansOverlap,
    RewriteSpanMismatch,
}

/// The name a report gives a diagnostic code.
pub open spec fn code_name(c: DiagnosticCode) -> Seq<char> {
    match c {
        DiagnosticCode::MalformedReference => "malformed_reference"@,
        DiagnosticCode::EmptyFile => "empty_file"@,
        DiagnosticCode::MissingRuns => "missing_runs"@,
        DiagnosticCode::StrictSchemaUnsupported => "strict_schema_unsupported"@,
        DiagnosticCode::LocalReferenceMissing => "local_reference_missing"@,
        DiagnosticCode::RemoteRefMissing => "remote_ref_missing"@,
        DiagnosticCode::MetadataLookupFailed => "metadata_lookup_failed"@,
        DiagnosticCode::StaleMetadata => "stale_metadata"@,
        DiagnosticCode::ShaUpdateAvailable => "sha_update_available"@,
        DiagnosticCode::TargetUnavailable => "target_unavailable"@,
        DiagnosticCode::RewriteSkipped => "rewrite_skipped"@,
        DiagnosticCode::RewriteSpansOverlap => "rewrite_spans_overlap"@,
        DiagnosticCode::RewriteSpanMismatch => "rewrite_span_mismatch"@,
    }
}

impl DiagnosticCode {
    /// The code's name in reports.
    pub fn name(&self) -> (s: &'static str)
        ensures
            s@ == code_name(*self),
    {
        match self {
            DiagnosticCode::MalformedReference => {
                proof { reveal_strlit("malformed_reference"); }
                "malformed_reference"
            },
            DiagnosticCode::EmptyFile => {
                proof { reveal_strlit("empty_file"); }
                "empty_file"
            },
            DiagnosticCode::MissingRuns => {
                proof { reveal_strlit("missing_runs"); }
                "missing_runs"
            },
            DiagnosticCode::StrictSchemaUnsupported => {
                proof { reveal_strlit("strict_schema_unsupported"); }
                "strict_schema_unsupported"
            },
            DiagnosticCode::LocalReferenceMissing => {
                proof { reveal_strlit("local_reference_missing"); }
                "local_reference_missing"
            },
            DiagnosticCode::RemoteRefMissing => {
                proof { reveal_strlit("remote_ref_missing"); }
                "remote_ref_missing"
            },
            DiagnosticCode::MetadataLookupFailed => {
                proof { reveal_strlit("metadata_lookup_failed"); }
                "metadata_lookup_failed"
            },
            DiagnosticCode::StaleMetadata => {
                proof { reveal_strlit("stale_metadata"); }
                "stale_metadata"
            },
            DiagnosticCode::ShaUpdateAvailable => {
                proof { reveal_strlit("sha_update_available"); }
                "sha_update_available"
            },
            DiagnosticCode::TargetUnavailable => {
                proof { reveal_strlit("target_unavailable"); }
                "target_unavailable"
            },
            DiagnosticCode::RewriteSkipped => {
                proof { reveal_strlit("rewrite_skipped"); }
                "rewrite_skipped"
            },
            DiagnosticCode::RewriteSpansOverlap => {
                proof { reveal_strlit("rewrite_spans_overlap"); }
                "rewrite_spans_overlap"
            },
            DiagnosticCode::RewriteSpanMismatch => {
                proof { reveal_strlit("rewrite_span_mismatch"); }
                "rewrite_span_mismatch"
            },
        }
    }
}

/// A message about a file, and optionally a line of it.
#[derive(Debug, Clone)]
pub struct Diagnostic {
    pub file: String,
    pub line: Option<usize>,
    pub message: String,
    pub category: DiagnosticCategory,
    pub code: DiagnosticCode,
}

pub struct DiagnosticView {
    pub file: Seq<char>,
    pub line: Option<usize>,
    pub message: Seq<char>,
    pub category: DiagnosticCategory,
    pub code: DiagnosticCode,
}

impl View for Diagnostic {
    type V = DiagnosticView;

    open spec fn view(&self) -> DiagnosticView {
        DiagnosticView {
            file: self.file@,
            line: self.line,
            message: self.message@,
            category: self.category,
            code: self.code,
        }
    }
}

/// Everything a scan found.
#[derive(Debug, Default)]
pub struct ScanOutput {
    pub files: Vec<FileReport>,
    pub references: Vec<ReferenceReport>,
    pub diagnostics: Vec<Diagnostic>,
}

/// The last component of `path`, as `Path::file_name` gives it: trailing
/// separators and `.` components do not count, and `..` or nothing is none.
pub open spec fn file_name(path: Seq<char>) -> Option<Seq<char>>
    decreases path.len(),
{
    if path.len() > 0 && path.last() == '/' {
        file_name(path.drop_last())
    } else if path.len() >= 2 && path.last() == '.' && path[path.len() - 2] == '/' {
        file_name(path.drop_last())
    } else {
        let seg = match crate::text::last_index_of(path, '/') {
            Some(i) => path.skip(i + 1),
            None => path,
        };
        if seg.len() == 0 || seg == seq!['.'] || seg == seq!['.', '.'] {
            None
        } else {
            Some(seg)
        }
    }
}

/// Action metadata files are named `action.yml` or `action.yaml`; anything
/// else is a workflow.
pub open spec fn classify_spec(path: Seq<char>) -> FileKind {
    match file_name(path) {
        Some(n) => if n == "action.yml"@ || n == "action.yaml"@ {
            FileKind::ActionMetadata
        } else {
            FileKind::Workflow
        },
        None => FileKind::Workflow,
    }
}

pub fn file_name_of(path: &[char]) -> (r: Option<Vec<char>>)
    ensures
        match r {
            Some(n) => file_name(path@) == Some(n@),
            None => file_name(path@) is None,
        },
{
    let mut end: usize = path.len();
    assert(path@.take(end as int) =~= path@);
    loop
        invariant
            end <= path@.len(),
            file_name(path@) == file_name(path@.take(end as int)),
        ensures
            end <= path@.len(),
            file_name(path@) == file_name(path@.take(end as int)),
            !(end > 0 && path@[end - 1] == '/'),
            !(end >= 2 && path@[end - 1] == '.' && path@[end - 2] == '/'),
        decreases end,
    {
        let ghost cur = path@.take(end as int);
        if end > 0 && path[end - 1] == '/' {
            assert(cur.drop_last() =~= path@.take(end - 1));
            end = end - 1;
        } else if end >= 2 && path[end - 1] == '.' && path[end - 2] == '/' {
            assert(cur.drop_last() =~= path@.take(end - 1));
            end = end - 1;
        } else {
            break;
        }
    }
    let cur = crate::text::slice_of(path, 0, end);
    proof {
        assert(cur@ =~= path@.take(end as int));
        if cur@.len() > 0 {
            assert(cur@.last() == path@[end - 1]);
        }
        if cur@.len() >= 2 {
            assert(cur@[cur@.len() - 2] == path@[end - 2]);
        }
    }
    let seg = match crate::text::rfind_char(&cur, '/') {
        Some(i) => {
            proof { crate::text::lemma_last_index_of_bounds(cur@, '/'); }
            crate::text::slice_of(&cur, i + 1, cur.len())
        },
        None => cur,
    };
    if seg.len() == 0 || (seg.len() == 1 && seg[0] == '.') || (seg.len() == 2 && seg[0] == '.' && seg[1] == '.') {
        proof {
            if seg.len() == 1 {
                assert(seg@ =~= seq!['.']);
            }
            if seg.len() == 2 {
                assert(seg@ =~= seq!['.', '.']);
            }
        }
        None
    } else {
        proof {
            if seg@ == seq!['.'] {
                assert(seg@.len() == 1);
            }
            if seg@ == seq!['.', '.'] {
                assert(seg@.len() == 2);
            }
        }
        Some(seg)
    }
}

/// Whether `path` names action metadata or a workflow.
pub fn classify_file(path: &str) -> (k: FileKind)
    ensures
        k == classify_spec(path@),
{
    match file_name_of(&chars_of(path)) {
        Some(n) => if same(&n, &chars_of("action.yml")) || same(&n, &chars_of("action.yaml")) {
            FileKind::ActionMetadata
        } else {
            FileKind::Workflow
        },
        None => FileKind::Workflow,
    }
}

/// The value of the first entry of `entries` whose key is the string `key`.
pub open spec fn entry_of(entries: Seq<(YamlNode, YamlNode)>, key: Seq<char>) -> Option<YamlNode>
    decreases entries.len(),
{
    if entries.len() == 0 {
        None
    } else {
        match entries[0].0 {
            YamlNode::Str(k) => if k@ == key {
                Some(entries[0].1)
            } else {
                entry_of(entries.drop_first(), key)
            },
            _ => entry_of(entries.drop_first(), key),
        }
    }
}

/// The value under `key` when `node` is a mapping.
pub open spec fn mapping_get_spec(node: YamlNode, key: Seq<char>) -> Option<YamlNode> {
    match node {
        YamlNode::Mapping(m) => entry_of(m@, key),
        _ => None,
    }
}

/// A `uses` field as text: its string, or nothing for any other value.
pub open spec fn field_text(entries: Seq<(YamlNode, YamlNode)>, key: Seq<char>) -> Option<Seq<char>> {
    match entry_of(entries, key) {
        None => None,
        Some(YamlNode::Str(s)) => Some(s@),
        Some(_) => Some(Seq::empty()),
    }
}

pub open spec fn opt_seq(o: Option<Seq<char>>) -> Seq<Seq<char>> {
    match o {
        Some(x) => seq![x],
        None => Seq::empty(),
    }
}

/// The `uses` values of the steps that are mappings, in order.
pub open spec fn step_uses(steps: Seq<YamlNode>) -> Seq<Seq<char>>
    decreases steps.len(),
{
    if steps.len() == 0 {
        Seq::empty()
    } else {
        let here = match steps.last() {
            YamlNode::Mapping(m) => opt_seq(field_text(m@, "uses"@)),
            _ => Seq::empty(),
        };
        step_uses(steps.drop_last()) + here
    }
}

/// A job's `uses` (a reusable workflow call), then its steps' `uses`.
pub open spec fn job_uses(job: YamlNode) -> Seq<Seq<char>> {
    match job {
        YamlNode::Mapping(m) => opt_seq(field_text(m@, "uses"@)) + match entry_of(m@, "steps"@) {
            Some(YamlNode::Sequence(steps)) => step_uses(steps@),
            _ => Seq::empty(),
        },
        _ => Seq::empty(),
    }
}

pub open spec fn jobs_uses(jobs: Seq<(YamlNode, YamlNode)>) -> Seq<Seq<char>>
    decreases jobs.len(),
{
    if jobs.len() == 0 {
        Seq::empty()
    } else {
        jobs_uses(jobs.drop_last()) + job_uses(jobs.last().1)
    }
}

/// The `uses` values of a workflow: `jobs.<id>.uses` and `jobs.<id>.steps[*].uses`.
pub open spec fn workflow_uses(doc: YamlNode) -> Seq<Seq<char>> {
    match mapping_get_spec(doc, "jobs"@) {
        Some(YamlNode::Mapping(jobs)) => jobs_uses(jobs@),
        _ => Seq::empty(),
    }
}

/// The `uses` values of action metadata: `runs.steps[*].uses` of a composite action.
pub open spec fn action_uses(doc: YamlNode) -> Seq<Seq<char>> {
    match mapping_get_spec(doc, "runs"@) {
        Some(YamlNode::Mapping(runs)) => match entry_of(runs@, "using"@) {
            Some(YamlNode::Str(using)) => if eq_ignore_ascii_case(using@, "composite"@) {
                match entry_of(runs@, "steps"@) {
                    Some(YamlNode::Sequence(steps)) => step_uses(steps@),
                    _ => Seq::empty(),
                }
            } else {
                Seq::empty()
            },
            _ => Seq::empty(),
        },
        _ => Seq::empty(),
    }
}

pub open spec fn uses_of(kind: FileKind, doc: YamlNode) -> Seq<Seq<char>> {
    match kind {
        FileKind::Workflow => workflow_uses(doc),
        FileKind::ActionMetadata => action_uses(doc),
    }
}

/// The value under `key` in `entries`.
fn mapping_get_value<'a>(entries: &'a Vec<(YamlNode, YamlNode)>, key: &str) -> (r: Option<&'a YamlNode>)
    ensures
        match r {
            Some(v) => entry_of(entries@, key@) == Some(*v),
            None => entry_of(entries@, key@) is None,
        },
{
    let k = chars_of(key);
    let mut i: usize = 0;
    assert(entries@.skip(0) =~= entries@);
    while i < entries.len()
        invariant
            i <= entries@.len(),
            k@ == key@,
            entry_of(entries@, key@) == entry_of(entries@.skip(i as int), key@),
        decreases entries@.len() - i,
    {
        assert(entries@.skip(i as int).drop_first() =~= entries@.skip(i + 1));
        assert(entries@.skip(i as int)[0] == entries@[i as int]);
        match &entries[i].0 {
            YamlNode::Str(s) => {
                if same(&chars_of(s.as_str()), &k) {
                    return Some(&entries[i].1);
                }
            },
            _ => {},
        }
        i = i + 1;
    }
    None
}

/// The value under `key` when `node` is a mapping.
fn mapping_get<'a>(node: &'a YamlNode, key: &str) -> (r: Option<&'a YamlNode>)
    ensures
        match r {
            Some(v) => mapping_get_spec(*node, key@) == Some(*v),
            None => mapping_get_spec(*node, key@) is None,
        },
{
    match node {
        YamlNode::Mapping(m) => mapping_get_value(m, key),
        _ => None,
    }
}

/// Appends the text of `key`'s field to `values` when the field is there.
fn collect_string_field(entries: &Vec<(YamlNode, YamlNode)>, key: &str, values: &mut Vec<String>)
    ensures
        crate::text::string_views(final(values)@) == crate::text::string_views(old(values)@) + opt_seq(field_text(entries@, key@)),
{
    let ghost before = crate::text::string_views(values@);
    match mapping_get_value(entries, key) {
        Some(v) => {
            let text = match v {
                YamlNode::Str(s) => s.clone(),
                _ => string_of(&Vec::new()),
            };
            values.push(text);
            assert(crate::text::string_views(values@) =~= before.push(text@));
        },
        None => {
            assert(crate::text::string_views(values@) =~= before + Seq::<Seq<char>>::empty());
        },
    }
}

fn collect_step_uses(steps: &Vec<YamlNode>, values: &mut Vec<String>)
    ensures
        crate::text::string_views(final(values)@) == crate::text::string_views(old(values)@) + step_uses(steps@),
{
    let ghost start = crate::text::string_views(values@);
    let mut i: usize = 0;
    assert(steps@.take(0) =~= Seq::<YamlNode>::empty());
    assert(start + Seq::<Seq<char>>::empty() =~= start);
    while i < steps.len()
        invariant
            i <= steps@.len(),
            crate::text::string_views(values@) == start + step_uses(steps@.take(i as int)),
        decreases steps@.len() - i,
    {
        assert(steps@.take(i + 1).drop_last() =~= steps@.take(i as int));
        assert(steps@.take(i + 1).last() == steps@[i as int]);
        let ghost mid = crate::text::string_views(values@);
        match &steps[i] {
            YamlNode::Mapping(m) => collect_string_field(m, "uses", values),
            _ => {
                assert(crate::text::string_views(values@) =~= mid + Seq::<Seq<char>>::empty());
            },
        }
        i = i + 1;
    }
    assert(steps@.take(i as int) =~= steps@);
}

fn collect_workflow_uses(doc: &YamlNode, values: &mut Vec<String>)
    ensures
        crate::text::string_views(final(values)@) == crate::text::string_views(old(values)@) + workflow_uses(*doc),
{
    let ghost start = crate::text::string_views(values@);
    let jobs = match mapping_get(doc, "jobs") {
        Some(YamlNode::Mapping(j)) => j,
        _ => {
            assert(start + Seq::<Seq<char>>::empty() =~= start);
            return;
        },
    };
    let mut i: usize = 0;
    assert(jobs@.take(0) =~= Seq::<(YamlNode, YamlNode)>::empty());
    assert(start + Seq::<Seq<char>>::empty() =~= start);
    while i < jobs.len()
        invariant
            i <= jobs@.len(),
            crate::text::string_views(values@) == start + jobs_uses(jobs@.take(i as int)),
        decreases jobs@.len() - i,
    {
        assert(jobs@.take(i + 1).drop_last() =~= jobs@.take(i as int));
        assert(jobs@.take(i + 1).last() == jobs@[i as int]);
        let ghost mid = crate::text::string_views(values@);
        match &jobs[i].1 {
            YamlNode::Mapping(job) => {
                collect_string_field(job, "uses", values);
                let ghost after_uses = crate::text::string_views(values@);
                match mapping_get_value(job, "steps") {
                    Some(YamlNode::Sequence(steps)) => collect_step_uses(steps, values),
                    _ => {
                        assert(crate::text::string_views(values@) =~= after_uses + Seq::<Seq<char>>::empty());
                    },
                }
            },
            _ => {
                assert(crate::text::string_views(values@) =~= mid + Seq::<Seq<char>>::empty());
            },
        }
        i = i + 1;
    }
    assert(jobs@.take(i as int) =~= jobs@);
}

fn collect_action_metadata_uses(doc: &YamlNode, values: &mut Vec<String>)
    ensures
        crate::text::string_views(final(values)@) == crate::text::string_views(old(values)@) + action_uses(*doc),
{
    let ghost start = crate::text::string_views(values@);
    assert(start + Seq::<Seq<char>>::empty() =~= start);
    let runs = match mapping_get(doc, "runs") {
        Some(YamlNode::Mapping(r)) => r,
        _ => return,
    };
    let using = match mapping_get_value(runs, "using") {
        Some(YamlNode::Str(u)) => u,
        _ => return,
    };
    if !eq_ignore_ascii_case_exec(&chars_of(using.as_str()), &chars_of("composite")) {
        return;
    }
    match mapping_get_value(runs, "steps") {
        Some(YamlNode::Sequence(steps)) => collect_step_uses(steps, values),
        _ => {},
    }
}

pub open spec fn empty_file_message() -> Seq<char> {
    "empty GitHub Actions YAML file"@
}

pub open spec fn missing_runs_message() -> Seq<char> {
    "action metadata is missing a runs section"@
}

pub open spec fn strict_schema_message() -> Seq<char> {
    "strict schema validation is not implemented in this scanner iteration"@
}

pub open spec fn schema_diag(file: Seq<char>, code: DiagnosticCode, message: Seq<char>) -> DiagnosticView {
    DiagnosticView { file, line: None, message, category: DiagnosticCategory::Schema, code }
}

/// The schema findings of a file: an empty file, action metadata without a
/// `runs` section, and the notice that strict validation is not available.
pub open spec fn schema_spec(path: Seq<char>, kind: FileKind, content: Seq<char>, strict: bool) -> Seq<DiagnosticView> {
    if trim(content).len() == 0 {
        seq![schema_diag(path, DiagnosticCode::EmptyFile, empty_file_message())]
    } else {
        let runs = if kind == FileKind::ActionMetadata && !contains(content, "runs:"@) {
            seq![schema_diag(path, DiagnosticCode::MissingRuns, missing_runs_message())]
        } else {
            Seq::empty()
        };
        let strict_note = if strict { seq![schema_diag(path, DiagnosticCode::StrictSchemaUnsupported, strict_schema_message())] } else { Seq::empty() };
        runs + strict_note
    }
}

fn schema(path: &str, code: DiagnosticCode, message: &str) -> (d: Diagnostic)
    ensures
        d@ == schema_diag(path@, code, message@),
{
    Diagnostic {
        file: string_of(&chars_of(path)),
        line: None,
        message: string_of(&chars_of(message)),
        category: DiagnosticCategory::Schema,
        code,
    }
}

/// The schema findings of the file at `path`.
pub fn schema_diagnostics(path: &str, kind: FileKind, content: &str, settings: &Settings) -> (d: Vec<Diagnostic>)
    ensures
        crate::metadata::diag_views(d@) == schema_spec(path@, kind, content@, settings.strict_schema),
{
    let text = chars_of(content);
    if trim_chars(&text).len() == 0 {
        let mut d: Vec<Diagnostic> = Vec::new();
        let x = schema(path, DiagnosticCode::EmptyFile, "empty GitHub Actions YAML file");
        d.push(x);
        assert(crate::metadata::diag_views(d@) =~= seq![x@]);
        return d;
    }
    let mut d: Vec<Diagnostic> = Vec::new();
    let ghost runs: Seq<DiagnosticView> = Seq::empty();
    if kind == FileKind::ActionMetadata && !has_text(&text, &chars_of("runs:")) {
        let x = schema(path, DiagnosticCode::MissingRuns, "action metadata is missing a runs section");
        d.push(x);
        proof { runs = seq![x@]; }
    }
    assert(crate::metadata::diag_views(d@) =~= runs);
    if settings.strict_schema {
        let x = schema(path, DiagnosticCode::StrictSchemaUnsupported, "strict schema validation is not implemented in this scanner iteration");
        d.push(x);
        assert(crate::metadata::diag_views(d@) =~= runs + seq![x@]);
    } else {
        assert(crate::metadata::diag_views(d@) =~= runs + Seq::<DiagnosticView>::empty());
    }
    d
}

/// `needle` occurs in `haystack` at `i`.
pub open spec fn bytes_at(haystack: Seq<u8>, needle: Seq<u8>, i: int) -> bool {
    0 <= i && i + needle.len() <= haystack.len() && haystack.subrange(i, i + needle.len()) == needle
}

/// `memchr::memmem::find`: the first position at which `needle` occurs in
/// `haystack`, if it occurs.
#[verifier::external_body]
fn memmem_find(haystack: &[u8], needle: &[u8]) -> (r: Option<usize>)
    ensures
        match r {
            Some(i) => bytes_at(haystack@, needle@, i as int) && forall|j: int| 0 <= j < i ==> !bytes_at(haystack@, needle@, j),
            None => forall|j: int| !bytes_at(haystack@, needle@, j),
        },
{
    memchr::memmem::find(haystack, needle)
}

/// The UTF-8 bytes of `uses:`.
pub open spec fn uses_bytes() -> Seq<u8> {
    seq![117u8, 115u8, 101u8, 115u8, 58u8]
}

/// The bytes of `content` contain `uses:` somewhere.
pub open spec fn mentions_uses(content: &str) -> bool {
    exists|i: int| bytes_at(content.spec_bytes(), uses_bytes(), i)
}

fn has_uses_bytes(content: &str) -> (r: bool)
    ensures
        r == mentions_uses(content),
{
    let mut needle: Vec<u8> = Vec::new();
    needle.push(117u8);
    needle.push(115u8);
    needle.push(101u8);
    needle.push(115u8);
    needle.push(58u8);
    assert(needle@ =~= uses_bytes());
    let found = memmem_find(content.as_bytes(), needle.as_slice());
    match found {
        Some(i) => {
            assert(bytes_at(content.spec_bytes(), uses_bytes(), i as int));
            true
        },
        None => false,
    }
}

/// The number of bytes of the UTF-8 encoding of `s`.
pub open spec fn byte_len(s: Seq<char>) -> nat
    decreases s.len(),
{
    if s.len() == 0 {
        0
    } else {
        byte_len(s.drop_last()) + char_width(s.last())
    }
}

/// The first position at or after `from` where `p` occurs in `s`.
pub open spec fn first_text(s: Seq<char>, p: Seq<char>, from: int) -> Option<int>
    decreases s.len() - from,
{
    if from < 0 || from + p.len() > s.len() {
        None
    } else if p.len() == 0 || occurs_at(s, p, from) {
        Some(from)
    } else {
        first_text(s, p, from + 1)
    }
}

/// The first position where `p` occurs in `s` (`str::find`, counted in characters).
pub open spec fn text_index(s: Seq<char>, p: Seq<char>) -> Option<int> {
    first_text(s, p, 0)
}

pub proof fn lemma_first_text_bounds(s: Seq<char>, p: Seq<char>, from: int)
    ensures
        first_text(s, p, from) is Some ==> {
            let k = first_text(s, p, from)->0;
            from <= k && k + p.len() <= s.len() && (p.len() == 0 || occurs_at(s, p, k))
        },
    decreases s.len() - from,
{
    if !(from < 0 || from + p.len() > s.len()) && !(p.len() == 0 || occurs_at(s, p, from)) {
        lemma_first_text_bounds(s, p, from + 1);
    }
}

pub fn text_index_of(s: &[char], p: &[char]) -> (r: Option<usize>)
    ensures
        match r {
            Some(k) => text_index(s@, p@) == Some(k as int),
            None => text_index(s@, p@) is None,
        },
{
    let n = s.len();
    let m = p.len();
    let mut i: usize = 0;
    while i <= n && m <= n - i
        invariant
            n == s@.len(),
            m == p@.len(),
            text_index(s@, p@) == first_text(s@, p@, i as int),
        decreases n - i,
    {
        if m == 0 || occurs_at_exec(s, p, i) {
            return Some(i);
        }
        i = i + 1;
    }
    None
}

/// The line holds `uses:` and, unless `raw` is empty, `raw`.
pub open spec fn is_uses_line(line: Seq<char>, raw: Seq<char>) -> bool {
    contains(line, "uses:"@) && (raw.len() == 0 || contains(line, raw))
}

/// The first line at or after `from` that holds `raw` after `uses:`.
pub open spec fn first_uses_line(ls: Seq<Seq<char>>, raw: Seq<char>, from: int) -> Option<int>
    decreases ls.len() - from,
{
    if from < 0 || from >= ls.len() {
        None
    } else if is_uses_line(ls[from], raw) {
        Some(from)
    } else {
        first_uses_line(ls, raw, from + 1)
    }
}

/// The line of `raw`: the first matching line from `cursor` on, else the
/// first matching line of the file.
pub open spec fn uses_line_index(ls: Seq<Seq<char>>, raw: Seq<char>, cursor: int) -> Option<int> {
    match first_uses_line(ls, raw, cursor) {
        Some(i) => Some(i),
        None => first_uses_line(ls, raw, 0),
    }
}

pub proof fn lemma_first_uses_line_bounds(ls: Seq<Seq<char>>, raw: Seq<char>, from: int)
    ensures
        first_uses_line(ls, raw, from) is Some ==> {
            let i = first_uses_line(ls, raw, from)->0;
            0 <= from <= i < ls.len() && is_uses_line(ls[i], raw)
        },
    decreases ls.len() - from,
{
    if !(from < 0 || from >= ls.len()) && !is_uses_line(ls[from], raw) {
        lemma_first_uses_line_bounds(ls, raw, from + 1);
    }
}

/// The 1-based byte column of `uses` in a line.
pub open spec fn column_spec(line: Seq<char>) -> usize {
    let k = match text_index(line, "uses"@) {
        Some(k) => k,
        None => 0,
    };
    let b = byte_len(line.take(k));
    if b < usize::MAX { (b + 1) as usize } else { 0 }
}

/// Where line `i` of `s` starts, given its pieces between newlines.
pub open spec fn line_start(pieces: Seq<Seq<char>>, i: int) -> int
    decreases i,
{
    if i <= 0 {
        0
    } else {
        line_start(pieces, i - 1) + pieces[i - 1].len() + 1
    }
}

/// The byte span of the ref of `raw` where it stands on line `line`: from
/// after its last `@` to its end.
pub open spec fn ref_span_spec(content: Seq<char>, line: Option<int>, raw: Seq<char>, has_ref: bool) -> Option<ByteSpan> {
    match line {
        None => None,
        Some(i) => if !has_ref {
            None
        } else {
            match (text_index(lines(content)[i], raw), last_index_of(raw, '@')) {
                (Some(k), Some(a)) => {
                    let base = line_start(split(content, '\n'), i);
                    let bs = byte_len(content.take(base + k + a + 1));
                    let be = byte_len(content.take(base + k + raw.len()));
                    if bs <= usize::MAX && be <= usize::MAX {
                        Some(ByteSpan { start: bs as usize, end: be as usize })
                    } else {
                        None
                    }
                },
                _ => None,
            }
        },
    }
}

/// The reference that `raw`, found on line `line` (none when not found),
/// makes: its location, its parse, the span of its ref, whether that span
/// may be rewritten (not for expressions or local and Docker references),
/// and whether the line asks to leave it alone.
pub open spec fn reference_spec(path: Seq<char>, content: Seq<char>, raw: Seq<char>, line: Option<int>) -> ReferenceView {
    let parsed = parse_uses_spec(raw);
    let span = ref_span_spec(content, line, raw, parsed.ref_name is Some);
    ReferenceView {
        file: path,
        line: match line {
            Some(i) => (i + 1) as usize,
            None => 0,
        },
        column: match line {
            Some(i) => column_spec(lines(content)[i]),
            None => 0,
        },
        raw,
        parsed,
        ref_span: span,
        rewrite_supported: span is Some && !contains(raw, "${{"@)
            && (parsed.kind == ReferenceKind::RemoteAction || parsed.kind == ReferenceKind::ReusableWorkflow),
        rewrite_reason: None,
        update_ignored: line is Some && contains(lines(content)[line->0], "# gau: ignore"@),
    }
}

/// The references of the first `n` values, each located from where the
/// previous one was found, and the cursor after them.
pub open spec fn scan_refs(path: Seq<char>, content: Seq<char>, values: Seq<Seq<char>>, n: int) -> (Seq<ReferenceView>, int)
    decreases n,
{
    if n <= 0 {
        (Seq::empty(), 0)
    } else {
        let prev = scan_refs(path, content, values, n - 1);
        let raw = values[n - 1];
        let line = uses_line_index(lines(content), raw, prev.1);
        let next = match line {
            Some(i) => i + 1,
            None => prev.1,
        };
        (prev.0.push(reference_spec(path, content, raw, line)), next)
    }
}

proof fn lemma_first_uses_line_first(ls: Seq<Seq<char>>, raw: Seq<char>, from: int)
    requires
        0 <= from,
    ensures
        first_uses_line(ls, raw, from) matches Some(k) ==> forall|i: int| from <= i < k ==> !is_uses_line(#[trigger] ls[i], raw),
        first_uses_line(ls, raw, from) is None ==> forall|i: int| from <= i < ls.len() ==> !is_uses_line(#[trigger] ls[i], raw),
    decreases ls.len() - from,
{
    if from < ls.len() && !is_uses_line(ls[from], raw) {
        lemma_first_uses_line_first(ls, raw, from + 1);
    }
}

/// The references of the first `n` values are `n`, each one fixed once made,
/// and after a located reference the search goes on from the line after it.
proof fn lemma_scan_refs_shape(path: Seq<char>, content: Seq<char>, values: Seq<Seq<char>>, n: int)
    requires
        0 <= n <= values.len(),
        lines(content).len() < usize::MAX,
    ensures
        scan_refs(path, content, values, n).0.len() == n,
        0 <= scan_refs(path, content, values, n).1 <= lines(content).len(),
        n > 0 && scan_refs(path, content, values, n).0.last().line > 0 ==> scan_refs(path, content, values, n).1
            == scan_refs(path, content, values, n).0.last().line,
        forall|k: int| 0 <= k < n ==> #[trigger] scan_refs(path, content, values, n).0[k] == scan_refs(path, content, values, k + 1).0[k],
    decreases n,
{
    if n > 0 {
        lemma_scan_refs_shape(path, content, values, n - 1);
        let prev = scan_refs(path, content, values, n - 1);
        let ls = lines(content);
        lemma_first_uses_line_bounds(ls, values[n - 1], prev.1);
        lemma_first_uses_line_bounds(ls, values[n - 1], 0);
        assert forall|k: int| 0 <= k < n implies #[trigger] scan_refs(path, content, values, n).0[k] == scan_refs(path, content, values, k + 1).0[k] by {
            if k < n - 1 {
                assert(scan_refs(path, content, values, n).0[k] == prev.0[k]);
            }
        }
    }
}

/// The `uses:` values of a file are located in order. When the reference
/// before a value was located, the value is found at the first matching line
/// after that reference's line; only when no line after it matches is it
/// found at the first matching line of the file (or not at all). So equal
/// values on different lines get different, increasing lines.
pub proof fn law_uses_located_in_order(path: Seq<char>, content: Seq<char>, values: Seq<Seq<char>>, n: int, j: int)
    requires
        1 <= j < n <= values.len(),
        lines(content).len() < usize::MAX,
        scan_refs(path, content, values, n).0[j - 1].line > 0,
    ensures
        ({
            let rs = scan_refs(path, content, values, n).0;
            let ls = lines(content);
            let after = rs[j - 1].line as int;
            &&& rs[j].raw == values[j]
            &&& (exists|i: int| after <= i < ls.len() && #[trigger] is_uses_line(ls[i], values[j])) ==> {
                &&& rs[j].line > rs[j - 1].line
                &&& is_uses_line(ls[rs[j].line - 1], values[j])
                &&& forall|i: int| after <= i < rs[j].line - 1 ==> !#[trigger] is_uses_line(ls[i], values[j])
            }
            &&& !(exists|i: int| after <= i < ls.len() && #[trigger] is_uses_line(ls[i], values[j])) ==> (rs[j].line == 0 || (
                is_uses_line(ls[rs[j].line - 1], values[j]) && forall|i: int| 0 <= i < rs[j].line - 1 ==> !#[trigger] is_uses_line(
                ls[i],
                values[j],
            )))
        }),
{
    let ls = lines(content);
    lemma_scan_refs_shape(path, content, values, n);
    lemma_scan_refs_shape(path, content, values, j);
    lemma_scan_refs_shape(path, content, values, j + 1);
    let rs = scan_refs(path, content, values, n).0;
    assert(rs[j - 1] == scan_refs(path, content, values, j).0[j - 1]);
    assert(rs[j] == scan_refs(path, content, values, j + 1).0[j]);
    let prev = scan_refs(path, content, values, j);
    assert(prev.0.last() == rs[j - 1]);
    let cursor = prev.1;
    assert(cursor == rs[j - 1].line);
    let raw = values[j];
    lemma_first_uses_line_bounds(ls, raw, cursor);
    lemma_first_uses_line_bounds(ls, raw, 0);
    lemma_first_uses_line_first(ls, raw, cursor);
    lemma_first_uses_line_first(ls, raw, 0);
    assert(scan_refs(path, content, values, j + 1).0 == prev.0.push(reference_spec(path, content, raw, uses_line_index(ls, raw, cursor))));
}

/// The references a file's scan yields are located in order, as
/// [`law_uses_located_in_order`] states of its `uses:` values: after a
/// located reference, the next one stands at the first line after it that
/// holds its value, whenever there is one.
pub proof fn law_scan_locates_references_in_order(path: Seq<char>, kind: FileKind, content: &str, rs: Seq<ReferenceView>, j: int)
    requires
        scan_content_spec(path, kind, content) == Ok::<Seq<ReferenceView>, Seq<char>>(rs),
        1 <= j < rs.len(),
        lines(content@).len() < usize::MAX,
        rs[j - 1].line > 0,
    ensures
        (exists|i: int| rs[j - 1].line <= i < lines(content@).len() && #[trigger] is_uses_line(lines(content@)[i], rs[j].raw)) ==> {
            &&& rs[j].line > rs[j - 1].line
            &&& is_uses_line(lines(content@)[rs[j].line - 1], rs[j].raw)
            &&& forall|i: int| rs[j - 1].line <= i < rs[j].line - 1 ==> !#[trigger] is_uses_line(lines(content@)[i], rs[j].raw)
        },
{
    match crate::yaml::yaml_first_document(content@) {
        Ok(Some(doc)) => {
            let values = uses_of(kind, doc);
            lemma_scan_refs_shape(path, content@, values, values.len() as int);
            law_uses_located_in_order(path, content@, values, values.len() as int, j);
        },
        _ => {},
    }
}

pub open spec fn parse_error_message(path: Seq<char>) -> Seq<char> {
    "failed to parse YAML in "@ + path
}

/// The references of a file: none unless its bytes mention `uses:`, none for
/// an empty YAML stream, and otherwise one per supported `uses:` value.
pub open spec fn scan_content_spec(path: Seq<char>, kind: FileKind, content: &str) -> Result<Seq<ReferenceView>, Seq<char>> {
    if !mentions_uses(content) {
        Ok(Seq::empty())
    } else {
        match crate::yaml::yaml_first_document(content@) {
            Err(_) => Err(parse_error_message(path)),
            Ok(None) => Ok(Seq::empty()),
            Ok(Some(doc)) => {
                let values = uses_of(kind, doc);
                Ok(scan_refs(path, content@, values, values.len() as int).0)
            },
        }
    }
}

proof fn lemma_line_start_cons(a: Seq<char>, rest: Seq<Seq<char>>, i: int)
    requires
        1 <= i <= rest.len() + 1,
    ensures
        line_start(seq![a] + rest, i) == a.len() + 1 + line_start(rest, i - 1),
    decreases i,
{
    assert((seq![a] + rest)[0] == a);
    assert(line_start(seq![a] + rest, 0) == 0);
    assert(line_start(rest, 0) == 0);
    if i > 1 {
        lemma_line_start_cons(a, rest, i - 1);
        assert((seq![a] + rest)[i - 1] == rest[i - 2]);
    }
}

/// Piece `i` of `s` split at `sep` stands at its line start.
pub proof fn lemma_piece_position(s: Seq<char>, sep: char, i: int)
    requires
        0 <= i < split(s, sep).len(),
    ensures
        line_start(split(s, sep), i) + split(s, sep)[i].len() <= s.len(),
        s.subrange(line_start(split(s, sep), i), line_start(split(s, sep), i) + split(s, sep)[i].len()) == split(s, sep)[i],
    decreases s.len(),
{
    lemma_index_of_bounds(s, sep);
    match index_of(s, sep) {
        None => {
            assert(s.subrange(0, s.len() as int) =~= s);
        },
        Some(j) => {
            let rest = s.skip(j + 1);
            assert(split(s, sep) == seq![s.take(j)] + split(rest, sep));
            if i == 0 {
                assert(s.subrange(0, j) =~= s.take(j));
            } else {
                crate::text::lemma_split_nonempty(rest, sep);
                lemma_piece_position(rest, sep, i - 1);
                lemma_line_start_cons(s.take(j), split(rest, sep), i);
                let b = line_start(split(rest, sep), i - 1);
                let len = split(rest, sep)[i - 1].len();
                lemma_line_start_grows(split(rest, sep), 0, i - 1);
                assert(s.subrange(j + 1 + b, j + 1 + b + len) =~= rest.subrange(b, b + len));
            }
        },
    }
}

/// Line `i` of `s` is its piece `i`, without the `\r` that `lines` drops.
pub proof fn lemma_line_in_piece(s: Seq<char>, i: int)
    requires
        0 <= i < lines(s).len(),
    ensures
        i < split(s, '\n').len(),
        lines(s)[i].len() <= split(s, '\n')[i].len(),
        split(s, '\n')[i].take(lines(s)[i].len() as int) == lines(s)[i],
{
    crate::text::lemma_split_nonempty(s, '\n');
    let p = split(s, '\n');
    if i < p.len() - 1 {
        let l = crate::text::strip_cr(p[i]);
        assert(lines(s)[i] == l);
        if p[i].len() > 0 && p[i].last() == '\r' {
            assert(p[i].take(l.len() as int) =~= l);
        } else {
            assert(p[i].take(l.len() as int) =~= l);
        }
    } else {
        assert(lines(s)[i] == p.last());
        assert(p.last().take(p.last().len() as int) =~= p.last());
    }
}

/// The byte length of `s`, when it fits.
fn byte_len_of(s: &[char]) -> (r: Option<usize>)
    ensures
        match r {
            Some(n) => n == byte_len(s@),
            None => byte_len(s@) > usize::MAX,
        },
{
    let mut total: usize = 0;
    let mut i: usize = 0;
    while i < s.len()
        invariant
            i <= s@.len(),
            total == byte_len(s@.take(i as int)),
        decreases s@.len() - i,
    {
        assert(s@.take(i + 1).drop_last() =~= s@.take(i as int));
        let w: usize = crate::text::char_width_exec(s[i]);
        if total > usize::MAX - w {
            proof { lemma_byte_len_prefix(s@, i + 1); }
            return None;
        }
        total = total + w;
        i = i + 1;
    }
    assert(s@.take(i as int) =~= s@);
    Some(total)
}

/// A longer text takes at least as many bytes as its prefix.
pub proof fn lemma_byte_len_prefix(s: Seq<char>, k: int)
    requires
        0 <= k <= s.len(),
    ensures
        byte_len(s) >= byte_len(s.take(k)),
    decreases s.len() - k,
{
    if k < s.len() {
        lemma_byte_len_prefix(s, k + 1);
        assert(s.take(k + 1).drop_last() =~= s.take(k));
    } else {
        assert(s.take(k) =~= s);
    }
}

/// Finds the line of `raw` from `cursor` on, then from the start, and moves
/// the cursor past it.
pub fn find_uses_location(ls: &Vec<Vec<char>>, raw: &[char], cursor: &mut usize) -> (r: Option<usize>)
    ensures
        match r {
            Some(i) => uses_line_index(views(ls@), raw@, *old(cursor) as int) == Some(i as int) && *final(cursor) == i + 1,
            None => uses_line_index(views(ls@), raw@, *old(cursor) as int) is None && *final(cursor) == *old(cursor),
        },
{
    let ghost lv = views(ls@);
    let uses = chars_of("uses:");
    let start = *cursor;
    let mut i: usize = start;
    while i < ls.len()
        invariant
            lv == views(ls@),
            uses@ == "uses:"@,
            start <= i,
            *cursor == start,
            start == *old(cursor),
            first_uses_line(lv, raw@, start as int) == first_uses_line(lv, raw@, i as int),
        decreases ls@.len() - i,
    {
        let line = &ls[i];
        assert(line@ == lv[i as int]);
        if has_text(line, &uses) && (raw.len() == 0 || has_text(line, raw)) {
            assert(is_uses_line(lv[i as int], raw@));
            assert(first_uses_line(lv, raw@, i as int) == Some(i as int));
            *cursor = i + 1;
            return Some(i);
        }
        i = i + 1;
    }
    assert(first_uses_line(lv, raw@, start as int) is None);
    let mut i: usize = 0;
    while i < ls.len()
        invariant
            lv == views(ls@),
            uses@ == "uses:"@,
            *cursor == start,
            start == *old(cursor),
            first_uses_line(lv, raw@, start as int) is None,
            first_uses_line(lv, raw@, 0) == first_uses_line(lv, raw@, i as int),
        decreases ls@.len() - i,
    {
        let line = &ls[i];
        assert(line@ == lv[i as int]);
        if has_text(line, &uses) && (raw.len() == 0 || has_text(line, raw)) {
            assert(is_uses_line(lv[i as int], raw@));
            assert(first_uses_line(lv, raw@, i as int) == Some(i as int));
            *cursor = i + 1;
            return Some(i);
        }
        i = i + 1;
    }
    None
}

fn reference_at(path: &str, content: &Vec<char>, ls: &Vec<Vec<char>>, pieces: &Vec<Vec<char>>, raw: &String, line: Option<usize>) -> (r: ReferenceReport)
    requires
        views(ls@) == lines(content@),
        views(pieces@) == split(content@, '\n'),
        line matches Some(i) ==> i < ls@.len(),
    ensures
        r@ == reference_spec(path@, content@, raw@, match line {
            Some(i) => Some(i as int),
            None => None,
        }),
{
    let raw_chars = chars_of(raw.as_str());
    let parsed = parse_uses(raw.as_str());
    let total = ls.len();
    let clen = content.len();
    let ghost line_int: Option<int> = match line {
        Some(i) => Some(i as int),
        None => None,
    };
    let (line_no, column, ignored) = match line {
        Some(i) => {
            let text = &ls[i];
            assert(text@ == lines(content@)[i as int]);
            let column = match text_index_of(text, &chars_of("uses")) {
                Some(k) => {
                    proof { lemma_first_text_bounds(text@, "uses"@, 0); }
                    match byte_len_of(&slice_of(text, 0, k)) {
                        Some(b) => if b < usize::MAX { b + 1 } else { 0 },
                        None => 0,
                    }
                },
                None => {
                    assert(text@.take(0) =~= Seq::<char>::empty());
                    assert(byte_len(text@.take(0)) == 0);
                    1
                },
            };
            (i + 1, column, has_text(text, &chars_of("# gau: ignore")))
        },
        None => (0, 0, false),
    };
    let span = match line {
        None => None,
        Some(i) => if parsed.ref_name.is_none() {
            None
        } else {
            let text = &ls[i];
            match (text_index_of(text, &raw_chars), rfind_char(&raw_chars, '@')) {
                (Some(k), Some(a)) => {
                    proof {
                        lemma_first_text_bounds(text@, raw@, 0);
                        lemma_last_index_of_bounds(raw@, '@');
                        lemma_line_in_piece(content@, i as int);
                        lemma_piece_position(content@, '\n', i as int);
                    }
                    let mut base: usize = 0;
                    let mut j: usize = 0;
                    while j < i
                        invariant
                            j <= i,
                            clen == content@.len(),
                            i < split(content@, '\n').len(),
                            views(pieces@) == split(content@, '\n'),
                            base == line_start(split(content@, '\n'), j as int),
                            line_start(split(content@, '\n'), i as int) + split(content@, '\n')[i as int].len() <= content@.len(),
                        decreases i - j,
                    {
                        proof {
                            lemma_line_start_grows(split(content@, '\n'), j as int + 1, i as int);
                            assert(views(pieces@)[j as int] == pieces@[j as int]@);
                        }
                        base = base + pieces[j].len() + 1;
                        j = j + 1;
                    }
                    assert(text@.len() <= split(content@, '\n')[i as int].len());
                    let start_chars = slice_of(content, 0, base + k + a + 1);
                    let end_chars = slice_of(content, 0, base + k + raw_chars.len());
                    match (byte_len_of(&start_chars), byte_len_of(&end_chars)) {
                        (Some(bs), Some(be)) => Some(ByteSpan { start: bs, end: be }),
                        _ => None,
                    }
                },
                _ => None,
            }
        },
    };
    let supported = span.is_some() && !has_text(&raw_chars, &chars_of("${{")) && match parsed.kind {
        ReferenceKind::RemoteAction | ReferenceKind::ReusableWorkflow => true,
        _ => false,
    };
    ReferenceReport {
        file: string_of(&chars_of(path)),
        line: line_no,
        column,
        raw: raw.clone(),
        parsed,
        ref_span: span,
        rewrite_supported: supported,
        rewrite_reason: None,
        update_ignored: ignored,
    }
}

proof fn lemma_line_start_grows(pieces: Seq<Seq<char>>, j: int, i: int)
    requires
        0 <= j <= i,
    ensures
        line_start(pieces, j) <= line_start(pieces, i),
    decreases i - j,
{
    if j < i {
        lemma_line_start_grows(pieces, j, i - 1);
    }
}

/// The references that `content`, the text of the file at `path`, makes.
pub fn scan_content(path: &str, kind: FileKind, content: &str) -> (r: Result<Vec<ReferenceReport>, String>)
    ensures
        match r {
            Ok(v) => scan_content_spec(path@, kind, content) == Ok::<Seq<ReferenceView>, Seq<char>>(reference_views(v@)),
            Err(e) => scan_content_spec(path@, kind, content) == Err::<Seq<ReferenceView>, Seq<char>>(e@),
        },
{
    if !has_uses_bytes(content) {
        let none: Vec<ReferenceReport> = Vec::new();
        assert(reference_views(none@) =~= Seq::<ReferenceView>::empty());
        return Ok(none);
    }
    let doc = match crate::yaml::parse_first_document(content) {
        Err(_) => {
            let mut m = chars_of("failed to parse YAML in ");
            push_str(&mut m, path);
            return Err(string_of(&m));
        },
        Ok(None) => {
            let none: Vec<ReferenceReport> = Vec::new();
            assert(reference_views(none@) =~= Seq::<ReferenceView>::empty());
            return Ok(none);
        },
        Ok(Some(d)) => d,
    };
    let mut values: Vec<String> = Vec::new();
    match kind {
        FileKind::Workflow => collect_workflow_uses(&doc, &mut values),
        FileKind::ActionMetadata => collect_action_metadata_uses(&doc, &mut values),
    }
    assert(string_views(values@) =~= uses_of(kind, doc));
    let text = chars_of(content);
    let ls = lines_of(&text);
    let pieces = split_on(&text, '\n');
    let ghost vs = string_views(values@);
    let mut references: Vec<ReferenceReport> = Vec::new();
    let mut cursor: usize = 0;
    let mut i: usize = 0;
    while i < values.len()
        invariant
            i <= values@.len(),
            vs == string_views(values@),
            views(ls@) == lines(content@),
            views(pieces@) == split(content@, '\n'),
            text@ == content@,
            scan_refs(path@, content@, vs, i as int) == (reference_views(references@), cursor as int),
        decreases values@.len() - i,
    {
        let raw = &values[i];
        let raw_chars = chars_of(raw.as_str());
        assert(vs[i as int] == raw@);
        let ghost before = cursor;
        let line = find_uses_location(&ls, &raw_chars, &mut cursor);
        proof {
            if line is Some {
                lemma_first_uses_line_bounds(lines(content@), raw@, before as int);
                lemma_first_uses_line_bounds(lines(content@), raw@, 0);
            }
        }
        let r = reference_at(path, &text, &ls, &pieces, raw, line);
        let ghost prev = reference_views(references@);
        references.push(r);
        assert(reference_views(references@) =~= prev.push(r@));
        i = i + 1;
    }
    Ok(references)
}

pub open spec fn malformed_message(raw: Seq<char>) -> Seq<char> {
    "malformed or unsupported uses reference: "@ + raw
}

/// A diagnostic for each malformed reference, in order.
pub open spec fn malformed_diags(refs: Seq<ReferenceView>) -> Seq<DiagnosticView>
    decreases refs.len(),
{
    if refs.len() == 0 {
        Seq::empty()
    } else {
        let r = refs.last();
        let here = if r.parsed.kind == ReferenceKind::Malformed {
            seq![DiagnosticView {
                file: r.file,
                line: Some(r.line),
                message: malformed_message(r.raw),
                category: DiagnosticCategory::General,
                code: DiagnosticCode::MalformedReference,
            }]
        } else {
            Seq::empty()
        };
        malformed_diags(refs.drop_last()) + here
    }
}

/// Scans one file whose text is `content` into `output`: its malformed
/// references are reported, the file and its references recorded, and its
/// schema findings added when schema validation is on.
pub fn scan_file(output: &mut ScanOutput, path: &str, content: &str, settings: &Settings) -> (r: Result<(), String>)
    ensures
        match scan_content_spec(path@, classify_spec(path@), content) {
            Err(e) => r matches Err(m) && m@ == e && *final(output) == *old(output),
            Ok(refs) => r is Ok
                && file_views(final(output).files@) == file_views(old(output).files@).push(FileView {
                    path: path@,
                    kind: classify_spec(path@),
                    references: refs.len() as usize,
                })
                && reference_views(final(output).references@) == reference_views(old(output).references@) + refs
                && crate::metadata::diag_views(final(output).diagnostics@) == crate::metadata::diag_views(old(output).diagnostics@)
                    + malformed_diags(refs)
                    + if settings.schema_validation {
                        schema_spec(path@, classify_spec(path@), content@, settings.strict_schema)
                    } else {
                        Seq::empty()
                    },
        },
{
    let kind = classify_file(path);
    let references = match scan_content(path, kind, content) {
        Ok(v) => v,
        Err(e) => return Err(e),
    };
    let ghost d0 = crate::metadata::diag_views(output.diagnostics@);
    let ghost rv = reference_views(references@);
    let mut i: usize = 0;
    while i < references.len()
        invariant
            i <= references@.len(),
            rv == reference_views(references@),
            crate::metadata::diag_views(output.diagnostics@) == d0 + malformed_diags(rv.take(i as int)),
            output.files@ == old(output).files@,
            output.references@ == old(output).references@,
        decreases references@.len() - i,
    {
        let r = &references[i];
        assert(rv.take(i + 1).drop_last() =~= rv.take(i as int));
        assert(rv.take(i + 1).last() == r@);
        let ghost mid = crate::metadata::diag_views(output.diagnostics@);
        if r.parsed.kind == ReferenceKind::Malformed {
            let mut m = chars_of("malformed or unsupported uses reference: ");
            push_str(&mut m, r.raw.as_str());
            let d = Diagnostic { file: r.file.clone(), line: Some(r.line), message: string_of(&m), category: DiagnosticCategory::General, code: DiagnosticCode::MalformedReference };
            output.diagnostics.push(d);
            assert(crate::metadata::diag_views(output.diagnostics@) =~= mid.push(d@));
        } else {
            assert(crate::metadata::diag_views(output.diagnostics@) =~= mid + Seq::<DiagnosticView>::empty());
        }
        i = i + 1;
    }
    assert(rv.take(i as int) =~= rv);
    let ghost f0 = file_views(output.files@);
    let f = FileReport { path: string_of(&chars_of(path)), kind, references: references.len() };
    output.files.push(f);
    assert(file_views(output.files@) =~= f0.push(f@));
    let ghost r0 = reference_views(output.references@);
    let mut moved = references;
    output.references.append(&mut moved);
    assert(reference_views(output.references@) =~= r0 + rv);
    let ghost d1 = crate::metadata::diag_views(output.diagnostics@);
    if settings.schema_validation {
        let mut more = schema_diagnostics(path, kind, content, settings);
        let ghost mv = crate::metadata::diag_views(more@);
        output.diagnostics.append(&mut more);
        assert(crate::metadata::diag_views(output.diagnostics@) =~= d1 + mv);
    } else {
        assert(crate::metadata::diag_views(output.diagnostics@) =~= d1 + Seq::<DiagnosticView>::empty());
    }
    Ok(())
}

/// The encoding of `s` is that of its first character followed by that of the rest.
pub proof fn lemma_byte_len_front(s: Seq<char>)
    requires
        s.len() > 0,
    ensures
        byte_len(s) == char_width(s[0]) + byte_len(s.drop_first()),
    decreases s.len(),
{
    if s.len() == 1 {
        assert(s.drop_last() =~= Seq::<char>::empty());
        assert(s.drop_first() =~= Seq::<char>::empty());
    } else {
        lemma_byte_len_front(s.drop_last());
        assert(s.drop_last().drop_first() =~= s.drop_first().drop_last());
        assert(s.drop_first().last() == s.last());
        assert(s.drop_last()[0] == s[0]);
    }
}

/// The byte offset of the `k`-th character is where character `k` starts.
pub proof fn lemma_char_index_of_prefix(c: Seq<char>, k: int)
    requires
        0 <= k <= c.len(),
    ensures
        crate::rewrite::char_index(c, byte_len(c.take(k)) as int) == Some(k),
    decreases c.len(),
{
    if k == 0 {
        assert(c.take(0) =~= Seq::<char>::empty());
    } else {
        let t = c.take(k);
        lemma_byte_len_front(t);
        assert(t.drop_first() =~= c.drop_first().take(k - 1));
        assert(t[0] == c[0]);
        lemma_char_index_of_prefix(c.drop_first(), k - 1);
    }
}

/// The span a scan records for a reference's ref covers exactly that ref in
/// the file, when the `uses:` value has no surrounding white space: a
/// rewrite of the span replaces the ref and nothing else.
pub proof fn law_ref_span_holds_ref(path: Seq<char>, content: Seq<char>, raw: Seq<char>, line: Option<int>)
    requires
        trim(raw) == raw,
        line matches Some(i) ==> 0 <= i < lines(content).len(),
        reference_spec(path, content, raw, line).ref_span is Some,
    ensures
        ({
            let r = reference_spec(path, content, raw, line);
            &&& r.parsed.ref_name is Some
            &&& crate::rewrite::span_ok(content, crate::rewrite::ReplacementView {
                span: r.ref_span->0,
                current: r.parsed.ref_name->0,
                target: r.parsed.ref_name->0,
                line: r.line,
            })
        }),
{
    let i = line->0;
    let l = lines(content)[i];
    let k = text_index(l, raw)->0;
    let a = last_index_of(raw, '@')->0;
    let base = line_start(split(content, '\n'), i);
    let piece = split(content, '\n')[i];
    lemma_first_text_bounds(l, raw, 0);
    lemma_last_index_of_bounds(raw, '@');
    lemma_line_in_piece(content, i);
    lemma_piece_position(content, '\n', i);
    lemma_line_start_grows(split(content, '\n'), 0, i);
    assert(raw.len() > 0);
    assert(l.subrange(k, k + raw.len()) == raw);
    assert(piece.subrange(k, k + raw.len()) =~= l.subrange(k, k + raw.len()));
    assert(content.subrange(base + k, base + k + raw.len()) =~= piece.subrange(k, k + raw.len()));
    let sc = base + k + a + 1;
    let ec = base + k + raw.len();
    assert(content.subrange(sc, ec) =~= raw.skip(a + 1));
    lemma_char_index_of_prefix(content, sc);
    lemma_char_index_of_prefix(content, ec);
}

} // verus!
