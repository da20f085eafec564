//! The report of a run: summary, skips, and its human rendering.
use vstd::prelude::*;

use crate::action_ref::{opt_view, ReferenceKind, RefKind};
use crate::cache::CacheReport;
use crate::cli::{ColorChoice, OutputFormat};
use crate::config::Settings;
use crate::globs::{pattern_match, pattern_matches, pattern_new, pattern_valid};
use crate::metadata::{diag_views, MetadataResolution};
use crate::rewrite::RewriteResult;
use crate::scanner::{ByteSpan, Diagnostic, DiagnosticCategory, DiagnosticView, FileKind, FileReport, ReferenceReport, ScanOutput};
use crate::text::{chars_of, decimal, decimal_usize, push_all, push_str, string_of, string_views};

verus! {

/// A proposed change of one reference's ref.
#[derive(Debug, Clone)]
pub struct UpdateReport {
    pub file: String,
    pub line: usize,
    pub current: String,
    pub target: Option<String>,
    pub ref_span: Option<ByteSpan>,
    pub rewrite_supported: bool,
    pub rewrite_reason: Option<String>,
}

pub struct UpdateView {
    pub file: Seq<char>,
    pub line: usize,
    pub current: Seq<char>,
    pub target: Option<Seq<char>>,
    pub ref_span: Option<ByteSpan>,
    pub rewrite_supported: bool,
    pub rewrite_reason: Option<Seq<char>>,
}

impl View for UpdateReport {
    type V = UpdateView;

    open spec fn view(&self) -> UpdateView {
        UpdateView {
            file: self.file@,
            line: self.line,
            current: self.current@,
            target: opt_view(self.target),
            ref_span: self.ref_span,
            rewrite_supported: self.rewrite_supported,
            rewrite_reason: opt_view(self.rewrite_reason),
        }
    }
}

/// The counts of a run.
#[derive(Debug, Clone, Copy, PartialEq, Eq, Structural)]
pub struct Summary {
    pub files_scanned: usize,
    pub references_found: usize,
    pub updates_available: usize,
    pub skipped: usize,
    pub failures: usize,
}

/// A reference that was deliberately not considered for an update, and why.
#[derive(Debug, Clone)]
pub struct SkipReport {
    pub file: String,
    pub line: usize,
    pub code: &'static str,
}

pub struct SkipView {
    pub file: Seq<char>,
    pub line: usize,
    pub code: Seq<char>,
}

impl View for SkipReport {
    type V = SkipView;

    open spec fn view(&self) -> SkipView {
        SkipView { file: self.file@, line: self.line, code: self.code@ }
    }
}

pub open spec fn skip_views(s: Seq<SkipReport>) -> Seq<SkipView> {
    s.map_values(|x: SkipReport| x@)
}

/// Everything a run found, decided and did, and how to print it.
#[derive(Debug)]
pub struct RunReport {
    pub version: String,
    pub changed: bool,
    pub would_change: bool,
    pub summary: Summary,
    pub files: Vec<FileReport>,
    pub references: Vec<ReferenceReport>,
    pub updates: Vec<UpdateReport>,
    pub diagnostics: Vec<Diagnostic>,
    pub skips: Vec<SkipReport>,
    pub cache: CacheReport,
    pub diffs: Vec<String>,
    pub format: OutputFormat,
    pub quiet: bool,
    pub verbose: bool,
    pub color: bool,
    pub diagnostic_color: bool,
}

/// `owner/repo` of a reference that names both.
pub open spec fn repository_of(r: ReferenceReport) -> Option<Seq<char>> {
    match (r.parsed.owner, r.parsed.repo) {
        (Some(o), Some(p)) => Some(o@ + "/"@ + p@),
        _ => None,
    }
}

/// `pattern` is a valid `glob` pattern matching the raw value or the repository.
pub open spec fn pattern_excludes(pattern: Seq<char>, raw: Seq<char>, repository: Option<Seq<char>>) -> bool {
    pattern_valid(pattern) && (pattern_match(pattern, raw) || (repository is Some && pattern_match(pattern, repository->0)))
}

pub open spec fn any_excludes(patterns: Seq<Seq<char>>, raw: Seq<char>, repository: Option<Seq<char>>) -> bool {
    exists|i: int| 0 <= i < patterns.len() && #[trigger] pattern_excludes(patterns[i], raw, repository)
}

/// Why a reference is skipped, if it is: an inline ignore, an exclude
/// pattern, a local or Docker reference, a ref that cannot be rewritten
/// safely, or a floating ref without the opt-in to pin it.
pub open spec fn skip_code_spec(r: ReferenceReport, s: Settings) -> Option<Seq<char>> {
    if r.update_ignored {
        Some("inline_ignore"@)
    } else if any_excludes(string_views(s.update_exclude@), r.raw@, repository_of(r)) {
        Some("update_excluded"@)
    } else if r.parsed.kind == ReferenceKind::LocalAction || r.parsed.kind == ReferenceKind::LocalWorkflow {
        Some("local_reference"@)
    } else if r.parsed.kind == ReferenceKind::DockerImage {
        Some("docker_reference"@)
    } else if !r.rewrite_supported && r.parsed.ref_name is Some {
        Some("rewrite_unsafe"@)
    } else if (r.parsed.ref_kind == RefKind::Branch || r.parsed.ref_kind == RefKind::BranchOrUnknown
        || r.parsed.ref_kind == RefKind::NonSemverTag) && !s.pin_floating_to_sha {
        Some("floating_ref_requires_opt_in"@)
    } else {
        None
    }
}

/// Whether some update-exclude pattern matches the reference.
fn excluded_by_pattern(patterns: &Vec<String>, raw: &String, repository: &Option<String>) -> (r: bool)
    ensures
        r == any_excludes(string_views(patterns@), raw@, opt_view(*repository)),
{
    let ghost ps = string_views(patterns@);
    let mut i: usize = 0;
    while i < patterns.len()
        invariant
            i <= patterns@.len(),
            ps == string_views(patterns@),
            forall|j: int| 0 <= j < i ==> !#[trigger] pattern_excludes(ps[j], raw@, opt_view(*repository)),
        decreases patterns@.len() - i,
    {
        assert(ps[i as int] == patterns@[i as int]@);
        match pattern_new(patterns[i].as_str()) {
            Some(p) => {
                let hit = pattern_matches(&p, raw.as_str()) || match repository {
                    Some(name) => pattern_matches(&p, name.as_str()),
                    None => false,
                };
                if hit {
                    assert(pattern_excludes(ps[i as int], raw@, opt_view(*repository)));
                    return true;
                }
            },
            None => {},
        }
        i = i + 1;
    }
    false
}

/// Why `reference` is skipped, if it is.
pub fn skip_code(reference: &ReferenceReport, settings: &Settings) -> (r: Option<&'static str>)
    ensures
        match r {
            Some(code) => skip_code_spec(*reference, *settings) == Some(code@),
            None => skip_code_spec(*reference, *settings) is None,
        },
{
    if reference.update_ignored {
        return Some("inline_ignore");
    }
    let repository = match (&reference.parsed.owner, &reference.parsed.repo) {
        (Some(owner), Some(repo)) => {
            let mut name = chars_of(owner.as_str());
            push_str(&mut name, "/");
            push_str(&mut name, repo.as_str());
            Some(string_of(&name))
        },
        _ => None,
    };
    assert(opt_view(repository) == repository_of(*reference));
    if excluded_by_pattern(&settings.update_exclude, &reference.raw, &repository) {
        return Some("update_excluded");
    }
    match reference.parsed.kind {
        ReferenceKind::LocalAction | ReferenceKind::LocalWorkflow => {
            return Some("local_reference");
        },
        ReferenceKind::DockerImage => return Some("docker_reference"),
        _ => {},
    }
    if !reference.rewrite_supported && reference.parsed.ref_name.is_some() {
        return Some("rewrite_unsafe");
    }
    let floating = match reference.parsed.ref_kind {
        RefKind::Branch | RefKind::BranchOrUnknown | RefKind::NonSemverTag => true,
        _ => false,
    };
    if floating && !settings.pin_floating_to_sha {
        return Some("floating_ref_requires_opt_in");
    }
    None
}

/// The skips of `refs`, in order.
pub open spec fn skips_spec(refs: Seq<ReferenceReport>, s: Settings) -> Seq<SkipView>
    decreases refs.len(),
{
    if refs.len() == 0 {
        Seq::empty()
    } else {
        let r = refs.last();
        match skip_code_spec(r, s) {
            Some(code) => skips_spec(refs.drop_last(), s).push(SkipView { file: r.file@, line: r.line, code }),
            None => skips_spec(refs.drop_last(), s),
        }
    }
}

fn collect_skips(references: &Vec<ReferenceReport>, settings: &Settings) -> (out: Vec<SkipReport>)
    ensures
        skip_views(out@) == skips_spec(references@, *settings),
{
    let mut out: Vec<SkipReport> = Vec::new();
    let mut i: usize = 0;
    while i < references.len()
        invariant
            i <= references@.len(),
            skip_views(out@) == skips_spec(references@.take(i as int), *settings),
        decreases references@.len() - i,
    {
        assert(references@.take(i + 1).drop_last() =~= references@.take(i as int));
        assert(references@.take(i + 1).last() == references@[i as int]);
        let r = &references[i];
        match skip_code(r, settings) {
            Some(code) => {
                let ghost before = skip_views(out@);
                let skip = SkipReport { file: r.file.clone(), line: r.line, code };
                out.push(skip);
                assert(skip_views(out@) =~= before.push(skip@));
            },
            None => {},
        }
        i = i + 1;
    }
    assert(references@.take(i as int) =~= references@);
    out
}

/// The skips of the references whose upstream lookup failed: one for each
/// metadata diagnostic, at its line (0 when it has none).
pub open spec fn lookup_skips(ds: Seq<DiagnosticView>) -> Seq<SkipView>
    decreases ds.len(),
{
    if ds.len() == 0 {
        Seq::empty()
    } else {
        let d = ds.last();
        if d.category == DiagnosticCategory::Metadata {
            lookup_skips(ds.drop_last()).push(SkipView {
                file: d.file,
                line: match d.line {
                    Some(l) => l,
                    None => 0,
                },
                code: "metadata_lookup_failed"@,
            })
        } else {
            lookup_skips(ds.drop_last())
        }
    }
}

fn collect_lookup_skips(diagnostics: &Vec<Diagnostic>, out: &mut Vec<SkipReport>)
    ensures
        skip_views(final(out)@) == skip_views(old(out)@) + lookup_skips(diag_views(diagnostics@)),
{
    let ghost dv = diag_views(diagnostics@);
    let ghost start = skip_views(out@);
    let mut i: usize = 0;
    while i < diagnostics.len()
        invariant
            i <= diagnostics@.len(),
            dv == diag_views(diagnostics@),
            skip_views(out@) == start + lookup_skips(dv.take(i as int)),
        decreases diagnostics@.len() - i,
    {
        assert(dv.take(i + 1).drop_last() =~= dv.take(i as int));
        assert(dv.take(i + 1).last() == diagnostics@[i as int]@);
        let d = &diagnostics[i];
        if d.category == DiagnosticCategory::Metadata {
            let ghost before = skip_views(out@);
            let line = match d.line {
                Some(l) => l,
                None => 0,
            };
            let skip = SkipReport { file: d.file.clone(), line, code: "metadata_lookup_failed" };
            proof { reveal_strlit("metadata_lookup_failed"); }
            out.push(skip);
            assert(skip_views(out@) =~= before.push(skip@));
        }
        i = i + 1;
    }
    assert(dv.take(i as int) =~= dv);
}

/// A validation or metadata diagnostic counts as a failure.
pub open spec fn is_failure(d: DiagnosticView) -> bool {
    d.category == DiagnosticCategory::Validation || d.category == DiagnosticCategory::Metadata
}

/// The number of failures among `ds`.
pub open spec fn failures_in(ds: Seq<DiagnosticView>) -> nat
    decreases ds.len(),
{
    if ds.len() == 0 {
        0
    } else {
        failures_in(ds.drop_last()) + if is_failure(ds.last()) { 1nat } else { 0nat }
    }
}

pub proof fn lemma_failures_bound(ds: Seq<DiagnosticView>)
    ensures
        failures_in(ds) <= ds.len(),
    decreases ds.len(),
{
    if ds.len() > 0 {
        lemma_failures_bound(ds.drop_last());
    }
}

pub proof fn lemma_failures_concat(a: Seq<DiagnosticView>, b: Seq<DiagnosticView>)
    ensures
        failures_in(a + b) == failures_in(a) + failures_in(b),
    decreases b.len(),
{
    if b.len() == 0 {
        assert(a + b =~= a);
    } else {
        lemma_failures_concat(a, b.drop_last());
        assert((a + b).drop_last() =~= a + b.drop_last());
    }
}

fn count_failures(diagnostics: &Vec<Diagnostic>) -> (n: usize)
    ensures
        n == failures_in(diag_views(diagnostics@)),
{
    let ghost dv = diag_views(diagnostics@);
    let mut n: usize = 0;
    let mut i: usize = 0;
    while i < diagnostics.len()
        invariant
            i <= diagnostics@.len(),
            dv == diag_views(diagnostics@),
            n == failures_in(dv.take(i as int)),
            n <= i,
        decreases diagnostics@.len() - i,
    {
        assert(dv.take(i + 1).drop_last() =~= dv.take(i as int));
        assert(dv.take(i + 1).last() == diagnostics@[i as int]@);
        match diagnostics[i].category {
            DiagnosticCategory::Validation | DiagnosticCategory::Metadata => {
                n = n + 1;
            },
            _ => {},
        }
        i = i + 1;
    }
    assert(dv.take(i as int) =~= dv);
    n
}

/// Whether color is on for an output stream with the given setting.
pub open spec fn color_on(choice: ColorChoice, terminal: bool) -> bool {
    match choice {
        ColorChoice::Always => true,
        ColorChoice::Never => false,
        ColorChoice::Auto => terminal,
    }
}

impl RunReport {
    /// The report of a scan and its resolution. Colors follow the setting,
    /// and when it is `auto`, whether stdout and stderr are terminals.
    pub fn from_scan(
        version: &str,
        settings: &Settings,
        resolution: MetadataResolution,
        files: Vec<String>,
        scan: ScanOutput,
        stdout_terminal: bool,
        stderr_terminal: bool,
    ) -> (r: RunReport)
        requires
            scan.diagnostics@.len() + resolution.diagnostics@.len() <= usize::MAX,
        ensures
            r.version@ == version@,
            !r.changed,
            r.would_change == (resolution.updates@.len() > 0),
            r.files@ == scan.files@,
            r.references@ == scan.references@,
            r.updates@ == resolution.updates@,
            r.diagnostics@ == scan.diagnostics@ + resolution.diagnostics@,
            skip_views(r.skips@) == skips_spec(scan.references@, *settings) + lookup_skips(diag_views(resolution.diagnostics@)),
            r.summary == (Summary {
                files_scanned: scan.files@.len() as usize,
                references_found: scan.references@.len() as usize,
                updates_available: resolution.updates@.len() as usize,
                skipped: r.skips@.len() as usize,
                failures: (failures_in(diag_views(scan.diagnostics@)) + failures_in(diag_views(resolution.diagnostics@))) as usize,
            }),
            r.cache == resolution.cache,
            r.diffs@.len() == 0,
            r.format == settings.format,
            r.quiet == settings.quiet,
            r.verbose == settings.verbose,
            r.color == color_on(settings.color, stdout_terminal),
            r.diagnostic_color == color_on(settings.color, stderr_terminal),
    {
        let references_found = scan.references.len();
        let color = match settings.color {
            ColorChoice::Always => true,
            ColorChoice::Never => false,
            ColorChoice::Auto => stdout_terminal,
        };
        let diagnostic_color = match settings.color {
            ColorChoice::Always => true,
            ColorChoice::Never => false,
            ColorChoice::Auto => stderr_terminal,
        };
        let would_change = resolution.updates.len() > 0;
        let mut skips = collect_skips(&scan.references, settings);
        collect_lookup_skips(&resolution.diagnostics, &mut skips);
        let scan_failures = count_failures(&scan.diagnostics);
        let resolution_failures = count_failures(&resolution.diagnostics);
        proof {
            lemma_failures_bound(diag_views(scan.diagnostics@));
            lemma_failures_bound(diag_views(resolution.diagnostics@));
        }
        let failures = scan_failures + resolution_failures;
        let files_scanned = scan.files.len();
        let updates_available = resolution.updates.len();
        let skipped = skips.len();
        let ScanOutput { files: scanned_files, references, diagnostics: scan_diagnostics } = scan;
        let MetadataResolution { updates, diagnostics: mut resolution_diagnostics, cache, resolved_ref_kinds: _ } = resolution;
        let mut diagnostics = scan_diagnostics;
        diagnostics.append(&mut resolution_diagnostics);
        RunReport {
            version: string_of(&chars_of(version)),
            changed: false,
            would_change,
            summary: Summary { files_scanned, references_found, updates_available, skipped, failures },
            files: scanned_files,
            references,
            updates,
            diagnostics,
            skips,
            cache,
            diffs: Vec::new(),
            format: settings.format,
            quiet: settings.quiet,
            verbose: settings.verbose,
            color,
            diagnostic_color,
        }
    }

    /// Takes in what rewriting did: whether files changed, whether any would,
    /// its diagnostics after the others, and its diffs.
    pub fn set_rewrite_result(&mut self, result: RewriteResult)
        ensures
            final(self).changed == result.changed,
            final(self).would_change == (result.would_change || old(self).updates@.len() > 0),
            final(self).diagnostics@ == old(self).diagnostics@ + result.diagnostics@,
            final(self).diffs@ == result.diffs@,
            final(self).updates@ == old(self).updates@,
            final(self).files@ == old(self).files@,
            final(self).references@ == old(self).references@,
            final(self).skips@ == old(self).skips@,
            final(self).summary == old(self).summary,
            final(self).cache == old(self).cache,
            final(self).version@ == old(self).version@,
            final(self).format == old(self).format,
            final(self).quiet == old(self).quiet,
            final(self).verbose == old(self).verbose,
            final(self).color == old(self).color,
            final(self).diagnostic_color == old(self).diagnostic_color,
    {
        let RewriteResult { changed, would_change, diagnostics: mut more, diffs } = result;
        self.changed = changed;
        self.would_change = would_change || self.updates.len() > 0;
        self.diagnostics.append(&mut more);
        self.diffs = diffs;
    }
}

/// The terminal colors of the human report.
#[derive(Debug, Clone, Copy, PartialEq, Eq, Structural)]
pub enum Color {
    Bold,
    Blue,
    Cyan,
    Green,
    Yellow,
}

/// The SGR code of a color.
pub open spec fn color_code(c: Color) -> Seq<char> {
    match c {
        Color::Bold => "1"@,
        Color::Blue => "34"@,
        Color::Cyan => "36"@,
        Color::Green => "32"@,
        Color::Yellow => "33"@,
    }
}

/// `value` in `color` when colors are on.
pub open spec fn styled(enabled: bool, value: Seq<char>, color: Color) -> Seq<char> {
    if !enabled {
        value
    } else {
        "\x1b["@ + color_code(color) + "m"@ + value + "\x1b[0m"@
    }
}

/// The plural ending for `count` things.
pub open spec fn plural_spec(count: usize) -> Seq<char> {
    if count == 1 { ""@ } else { "s"@ }
}

/// The plural ending for `count` things: none for one, `s` otherwise.
pub fn plural(count: usize) -> (r: &'static str)
    ensures
        r@ == plural_spec(count),
{
    if count == 1 { "" } else { "s" }
}

pub open spec fn file_kind_name(k: FileKind) -> Seq<char> {
    match k {
        FileKind::Workflow => "Workflow"@,
        FileKind::ActionMetadata => "ActionMetadata"@,
    }
}

pub open spec fn reference_kind_name(k: ReferenceKind) -> Seq<char> {
    match k {
        ReferenceKind::RemoteAction => "RemoteAction"@,
        ReferenceKind::ReusableWorkflow => "ReusableWorkflow"@,
        ReferenceKind::LocalAction => "LocalAction"@,
        ReferenceKind::LocalWorkflow => "LocalWorkflow"@,
        ReferenceKind::DockerImage => "DockerImage"@,
        ReferenceKind::Malformed => "Malformed"@,
    }
}

pub open spec fn file_line(color: bool, f: FileReport) -> Seq<char> {
    "  "@ + styled(color, "scan"@, Color::Blue) + " "@ + f.path@ + " ("@ + file_kind_name(f.kind) + ", "@
        + decimal(f.references as nat) + " ref"@ + plural_spec(f.references) + ")\n"@
}

pub open spec fn file_lines(color: bool, fs: Seq<FileReport>) -> Seq<char>
    decreases fs.len(),
{
    if fs.len() == 0 {
        Seq::empty()
    } else {
        file_lines(color, fs.drop_last()) + file_line(color, fs.last())
    }
}

pub open spec fn reference_line(color: bool, r: ReferenceReport) -> Seq<char> {
    "  "@ + styled(color, "ref"@, Color::Blue) + " "@ + r.file@ + ":"@ + decimal(r.line as nat) + ":"@
        + decimal(r.column as nat) + " "@ + r.raw@ + " ("@ + reference_kind_name(r.parsed.kind) + ")\n"@
}

pub open spec fn reference_lines(color: bool, rs: Seq<ReferenceReport>) -> Seq<char>
    decreases rs.len(),
{
    if rs.len() == 0 {
        Seq::empty()
    } else {
        reference_lines(color, rs.drop_last()) + reference_line(color, rs.last())
    }
}

pub open spec fn target_text(t: Option<Seq<char>>) -> Seq<char> {
    match t {
        Some(x) => x,
        None => "<unknown>"@,
    }
}

pub open spec fn update_line(color: bool, u: UpdateReport) -> Seq<char> {
    "  "@ + styled(color, "update"@, Color::Yellow) + " "@ + u.file@ + ":"@ + decimal(u.line as nat) + " "@
        + u.current@ + " -> "@ + target_text(opt_view(u.target)) + "\n"@
}

/// An update line of the human report names the update's place, then its
/// current ref, ` -> `, and its target (`<unknown>` when it has none).
/// Without colors it reads `  update <file>:<line> <current> -> <target>`;
/// with colors only the word `update` is styled.
pub proof fn law_update_line_reads_current_then_target(color: bool, u: UpdateReport)
    ensures
        !color ==> update_line(color, u) == "  update "@ + u.file@ + ":"@ + decimal(u.line as nat) + " "@ + u.current@
            + " -> "@ + (if u.target is Some { u.target->0@ } else { "<unknown>"@ }) + "\n"@,
        color ==> update_line(color, u) == "  \x1b[33mupdate\x1b[0m "@ + u.file@ + ":"@ + decimal(u.line as nat) + " "@
            + u.current@ + " -> "@ + (if u.target is Some { u.target->0@ } else { "<unknown>"@ }) + "\n"@,
{
    reveal_strlit("  ");
    reveal_strlit("update");
    reveal_strlit(" ");
    reveal_strlit("  update ");
    reveal_strlit("\x1b[");
    reveal_strlit("33");
    reveal_strlit("m");
    reveal_strlit("\x1b[0m");
    reveal_strlit("  \x1b[33mupdate\x1b[0m ");
    let tail = u.file@ + ":"@ + decimal(u.line as nat) + " "@ + u.current@ + " -> "@ + target_text(opt_view(u.target)) + "\n"@;
    assert(update_line(color, u) =~= "  "@ + styled(color, "update"@, Color::Yellow) + " "@ + tail);
    if color {
        assert("  "@ + styled(color, "update"@, Color::Yellow) + " "@ =~= "  \x1b[33mupdate\x1b[0m "@);
    } else {
        assert("  "@ + styled(color, "update"@, Color::Yellow) + " "@ =~= "  update "@);
    }
}

pub open spec fn update_lines(color: bool, us: Seq<UpdateReport>) -> Seq<char>
    decreases us.len(),
{
    if us.len() == 0 {
        Seq::empty()
    } else {
        update_lines(color, us.drop_last()) + update_line(color, us.last())
    }
}

pub open spec fn diff_lines(ds: Seq<String>) -> Seq<char>
    decreases ds.len(),
{
    if ds.len() == 0 {
        Seq::empty()
    } else {
        diff_lines(ds.drop_last()) + ds.last()@ + "\n"@
    }
}

/// A titled section: an empty line, the title in bold, then the body.
pub open spec fn section(color: bool, title: Seq<char>, body: Seq<char>) -> Seq<char> {
    "\n"@ + styled(color, title, Color::Bold) + "\n"@ + body
}

/// The first line's status word.
pub open spec fn status_spec(r: RunReport) -> Seq<char> {
    if r.summary.updates_available == 0 && r.diagnostics@.len() == 0 {
        styled(r.color, "ok"@, Color::Green)
    } else if r.summary.updates_available > 0 {
        styled(r.color, "updates"@, Color::Yellow)
    } else {
        styled(r.color, "diagnostics"@, Color::Yellow)
    }
}

/// The human report: status, counts, then the files, references, updates
/// and diffs that there are.
pub open spec fn human_spec(r: RunReport) -> Seq<char> {
    let head = styled(r.color, "gh-actions-updater"@, Color::Cyan) + " "@ + status_spec(r) + "\n"@
        + "  scanned "@ + decimal(r.summary.files_scanned as nat) + " file(s), found "@
        + decimal(r.summary.references_found as nat) + " reference(s), "@
        + decimal(r.summary.updates_available as nat) + " update(s)\n"@;
    let files = if r.files@.len() > 0 { section(r.color, "Files"@, file_lines(r.color, r.files@)) } else { Seq::empty() };
    let refs = if r.references@.len() > 0 {
        section(r.color, "References"@, reference_lines(r.color, r.references@))
    } else {
        Seq::empty()
    };
    let updates = if r.updates@.len() > 0 {
        section(r.color, "Updates"@, update_lines(r.color, r.updates@))
    } else {
        "\n"@ + styled(r.color, "No updates available."@, Color::Green) + "\n"@
    };
    let diffs = if r.diffs@.len() > 0 { section(r.color, "Diffs"@, diff_lines(r.diffs@)) } else { Seq::empty() };
    head + files + refs + updates + diffs
}

pub open spec fn bool_text(b: bool) -> Seq<char> {
    if b { "true"@ } else { "false"@ }
}

pub open spec fn diagnostic_line(color: bool, d: Diagnostic) -> Seq<char> {
    let at = match d.line {
        Some(l) => ":"@ + decimal(l as nat),
        None => ""@,
    };
    styled(color, "diagnostic"@, Color::Yellow) + " "@ + d.file@ + at + ": "@ + d.message@ + "\n"@
}

pub open spec fn diagnostic_lines(color: bool, ds: Seq<Diagnostic>) -> Seq<char>
    decreases ds.len(),
{
    if ds.len() == 0 {
        Seq::empty()
    } else {
        diagnostic_lines(color, ds.drop_last()) + diagnostic_line(color, ds.last())
    }
}

pub open spec fn cache_line(c: CacheReport) -> Seq<char> {
    "cache enabled="@ + bool_text(c.enabled) + ", fresh_hits="@ + decimal(c.fresh_hits as nat) + ", stale_hits="@
        + decimal(c.stale_hits as nat) + ", misses="@ + decimal(c.misses as nat) + ", refreshes="@
        + decimal(c.refreshes as nat) + "\n"@
}

/// What a report prints on stderr: each diagnostic, then the cache counters
/// when verbose.
pub open spec fn stderr_spec(r: RunReport) -> Seq<char> {
    diagnostic_lines(r.diagnostic_color, r.diagnostics@) + if r.verbose { cache_line(r.cache) } else { Seq::empty() }
}

fn push_styled(out: &mut Vec<char>, enabled: bool, value: &str, color: Color)
    ensures
        final(out)@ == old(out)@ + styled(enabled, value@, color),
{
    let s = style_text(value, color, enabled);
    push_str(out, s.as_str());
}

/// `value` in `color` when `enabled`.
fn style_text(value: &str, color: Color, enabled: bool) -> (r: String)
    ensures
        r@ == styled(enabled, value@, color),
{
    if !enabled {
        return string_of(&chars_of(value));
    }
    let code = match color {
        Color::Bold => "1",
        Color::Blue => "34",
        Color::Cyan => "36",
        Color::Green => "32",
        Color::Yellow => "33",
    };
    let mut out = chars_of("\x1b[");
    push_str(&mut out, code);
    push_str(&mut out, "m");
    push_str(&mut out, value);
    push_str(&mut out, "\x1b[0m");
    string_of(&out)
}

fn push_decimal(out: &mut Vec<char>, n: usize)
    ensures
        final(out)@ == old(out)@ + decimal(n as nat),
{
    push_all(out, &decimal_usize(n));
}

impl RunReport {
    /// `value` in `color` when stdout colors are on.
    pub fn style(&self, value: &str, color: Color) -> (r: String)
        ensures
            r@ == styled(self.color, value@, color),
    {
        self.style_with(value, color, self.color)
    }

    /// `value` in `color` when `enabled`.
    pub fn style_with(&self, value: &str, color: Color, enabled: bool) -> (r: String)
        ensures
            r@ == styled(enabled, value@, color),
    {
        style_text(value, color, enabled)
    }

    /// The human report, as printed on stdout.
    pub fn write_human(&self) -> (text: String)
        ensures
            text@ == human_spec(*self),
    {
        let c = self.color;
        let mut head: Vec<char> = Vec::new();
        push_styled(&mut head, c, "gh-actions-updater", Color::Cyan);
        push_str(&mut head, " ");
        if self.summary.updates_available == 0 && self.diagnostics.len() == 0 {
            push_styled(&mut head, c, "ok", Color::Green);
        } else if self.summary.updates_available > 0 {
            push_styled(&mut head, c, "updates", Color::Yellow);
        } else {
            push_styled(&mut head, c, "diagnostics", Color::Yellow);
        }
        push_str(&mut head, "\n");
        push_str(&mut head, "  scanned ");
        push_decimal(&mut head, self.summary.files_scanned);
        push_str(&mut head, " file(s), found ");
        push_decimal(&mut head, self.summary.references_found);
        push_str(&mut head, " reference(s), ");
        push_decimal(&mut head, self.summary.updates_available);
        push_str(&mut head, " update(s)\n");
        let files = if self.files.len() > 0 {
            section_text(c, "Files", &lines_of_files(c, &self.files))
        } else {
            Vec::new()
        };
        let refs = if self.references.len() > 0 {
            section_text(c, "References", &lines_of_references(c, &self.references))
        } else {
            Vec::new()
        };
        let updates = if self.updates.len() > 0 {
            section_text(c, "Updates", &lines_of_updates(c, &self.updates))
        } else {
            let mut none: Vec<char> = Vec::new();
            push_str(&mut none, "\n");
            push_styled(&mut none, c, "No updates available.", Color::Green);
            push_str(&mut none, "\n");
            none
        };
        let diffs = if self.diffs.len() > 0 {
            section_text(c, "Diffs", &lines_of_diffs(&self.diffs))
        } else {
            Vec::new()
        };
        let mut out = head;
        push_all(&mut out, &files);
        push_all(&mut out, &refs);
        push_all(&mut out, &updates);
        push_all(&mut out, &diffs);
        assert(out@ =~= human_spec(*self));
        string_of(&out)
    }

    /// What the report prints on stderr.
    pub fn write_diagnostics(&self) -> (text: String)
        ensures
            text@ == stderr_spec(*self),
    {
        let mut out = lines_of_diagnostics(self.diagnostic_color, &self.diagnostics);
        if self.verbose {
            let k = self.cache;
            push_str(&mut out, "cache enabled=");
            push_str(&mut out, if k.enabled { "true" } else { "false" });
            push_str(&mut out, ", fresh_hits=");
            push_decimal(&mut out, k.fresh_hits);
            push_str(&mut out, ", stale_hits=");
            push_decimal(&mut out, k.stale_hits);
            push_str(&mut out, ", misses=");
            push_decimal(&mut out, k.misses);
            push_str(&mut out, ", refreshes=");
            push_decimal(&mut out, k.refreshes);
            push_str(&mut out, "\n");
        }
        assert(out@ =~= stderr_spec(*self));
        string_of(&out)
    }
}

fn section_text(c: bool, title: &str, body: &Vec<char>) -> (out: Vec<char>)
    ensures
        out@ == section(c, title@, body@),
{
    let mut out: Vec<char> = Vec::new();
    push_str(&mut out, "\n");
    push_styled(&mut out, c, title, Color::Bold);
    push_str(&mut out, "\n");
    push_all(&mut out, body);
    out
}

fn push_file_line(out: &mut Vec<char>, c: bool, f: &FileReport)
    ensures
        final(out)@ == old(out)@ + file_line(c, *f),
{
    push_str(out, "  ");
    push_styled(out, c, "scan", Color::Blue);
    push_str(out, " ");
    push_str(out, f.path.as_str());
    push_str(out, " (");
    match f.kind {
        FileKind::Workflow => push_str(out, "Workflow"),
        FileKind::ActionMetadata => push_str(out, "ActionMetadata"),
    }
    push_str(out, ", ");
    push_decimal(out, f.references);
    push_str(out, " ref");
    push_str(out, plural(f.references));
    push_str(out, ")\n");
}

fn lines_of_files(c: bool, files: &Vec<FileReport>) -> (out: Vec<char>)
    ensures
        out@ == file_lines(c, files@),
{
    let mut out: Vec<char> = Vec::new();
    let mut i: usize = 0;
    while i < files.len()
        invariant
            i <= files@.len(),
            out@ == file_lines(c, files@.take(i as int)),
        decreases files@.len() - i,
    {
        push_file_line(&mut out, c, &files[i]);
        assert(files@.take(i + 1).drop_last() =~= files@.take(i as int));
        assert(files@.take(i + 1).last() == files@[i as int]);
        i = i + 1;
    }
    assert(files@.take(i as int) =~= files@);
    out
}

fn push_reference_line(out: &mut Vec<char>, c: bool, r: &ReferenceReport)
    ensures
        final(out)@ == old(out)@ + reference_line(c, *r),
{
    push_str(out, "  ");
    push_styled(out, c, "ref", Color::Blue);
    push_str(out, " ");
    push_str(out, r.file.as_str());
    push_str(out, ":");
    push_decimal(out, r.line);
    push_str(out, ":");
    push_decimal(out, r.column);
    push_str(out, " ");
    push_str(out, r.raw.as_str());
    push_str(out, " (");
    match r.parsed.kind {
        ReferenceKind::RemoteAction => push_str(out, "RemoteAction"),
        ReferenceKind::ReusableWorkflow => push_str(out, "ReusableWorkflow"),
        ReferenceKind::LocalAction => push_str(out, "LocalAction"),
        ReferenceKind::LocalWorkflow => push_str(out, "LocalWorkflow"),
        ReferenceKind::DockerImage => push_str(out, "DockerImage"),
        ReferenceKind::Malformed => push_str(out, "Malformed"),
    }
    push_str(out, ")\n");
}

fn lines_of_references(c: bool, refs: &Vec<ReferenceReport>) -> (out: Vec<char>)
    ensures
        out@ == reference_lines(c, refs@),
{
    let mut out: Vec<char> = Vec::new();
    let mut i: usize = 0;
    while i < refs.len()
        invariant
            i <= refs@.len(),
            out@ == reference_lines(c, refs@.take(i as int)),
        decreases refs@.len() - i,
    {
        push_reference_line(&mut out, c, &refs[i]);
        assert(refs@.take(i + 1).drop_last() =~= refs@.take(i as int));
        assert(refs@.take(i + 1).last() == refs@[i as int]);
        i = i + 1;
    }
    assert(refs@.take(i as int) =~= refs@);
    out
}

fn push_update_line(out: &mut Vec<char>, c: bool, u: &UpdateReport)
    ensures
        final(out)@ == old(out)@ + update_line(c, *u),
{
    push_str(out, "  ");
    push_styled(out, c, "update", Color::Yellow);
    push_str(out, " ");
    push_str(out, u.file.as_str());
    push_str(out, ":");
    push_decimal(out, u.line);
    push_str(out, " ");
    push_str(out, u.current.as_str());
    push_str(out, " -> ");
    match &u.target {
        Some(t) => push_str(out, t.as_str()),
        None => push_str(out, "<unknown>"),
    }
    push_str(out, "\n");
}

fn lines_of_updates(c: bool, updates: &Vec<UpdateReport>) -> (out: Vec<char>)
    ensures
        out@ == update_lines(c, updates@),
{
    let mut out: Vec<char> = Vec::new();
    let mut i: usize = 0;
    while i < updates.len()
        invariant
            i <= updates@.len(),
            out@ == update_lines(c, updates@.take(i as int)),
        decreases updates@.len() - i,
    {
        push_update_line(&mut out, c, &updates[i]);
        assert(updates@.take(i + 1).drop_last() =~= updates@.take(i as int));
        assert(updates@.take(i + 1).last() == updates@[i as int]);
        i = i + 1;
    }
    assert(updates@.take(i as int) =~= updates@);
    out
}

fn lines_of_diffs(diffs: &Vec<String>) -> (out: Vec<char>)
    ensures
        out@ == diff_lines(diffs@),
{
    let mut out: Vec<char> = Vec::new();
    let mut i: usize = 0;
    while i < diffs.len()
        invariant
            i <= diffs@.len(),
            out@ == diff_lines(diffs@.take(i as int)),
        decreases diffs@.len() - i,
    {
        push_str(&mut out, diffs[i].as_str());
        push_str(&mut out, "\n");
        assert(diffs@.take(i + 1).drop_last() =~= diffs@.take(i as int));
        assert(diffs@.take(i + 1).last() == diffs@[i as int]);
        i = i + 1;
    }
    assert(diffs@.take(i as int) =~= diffs@);
    out
}

fn push_diagnostic_line(out: &mut Vec<char>, c: bool, d: &Diagnostic)
    ensures
        final(out)@ == old(out)@ + diagnostic_line(c, *d),
{
    push_styled(out, c, "diagnostic", Color::Yellow);
    push_str(out, " ");
    push_str(out, d.file.as_str());
    match d.line {
        Some(l) => {
            push_str(out, ":");
            push_decimal(out, l);
        },
        None => push_str(out, ""),
    }
    push_str(out, ": ");
    push_str(out, d.message.as_str());
    push_str(out, "\n");
}

fn lines_of_diagnostics(c: bool, ds: &Vec<Diagnostic>) -> (out: Vec<char>)
    ensures
        out@ == diagnostic_lines(c, ds@),
{
    let mut out: Vec<char> = Vec::new();
    let mut i: usize = 0;
    while i < ds.len()
        invariant
            i <= ds@.len(),
            out@ == diagnostic_lines(c, ds@.take(i as int)),
        decreases ds@.len() - i,
    {
        push_diagnostic_line(&mut out, c, &ds[i]);
        assert(ds@.take(i + 1).drop_last() =~= ds@.take(i as int));
        assert(ds@.take(i + 1).last() == ds@[i as int]);
        i = i + 1;
    }
    assert(ds@.take(i as int) =~= ds@);
    out
}

} // verus!
