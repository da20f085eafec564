//! How a run ends: what resolution learned is folded back into the scan, and
//! the exit code is chosen.
use vstd::prelude::*;

use crate::action_ref::{ParsedRefView, RefKind};
use crate::metadata::diag_views;
use crate::report::is_failure;
use crate::scanner::{
    reference_views, Diagnostic, DiagnosticCategory, DiagnosticView, ReferenceReport, ReferenceView,
};

verus! {

pub open spec fn with_ref_kind(r: ReferenceView, k: RefKind) -> ReferenceView {
    ReferenceView { parsed: ParsedRefView { ref_kind: k, ..r.parsed }, ..r }
}

/// The references with each resolved ref kind applied at its index, in order;
/// an index past the end is passed over.
pub open spec fn apply_kinds(refs: Seq<ReferenceView>, kinds: Seq<(usize, RefKind)>) -> Seq<ReferenceView>
    decreases kinds.len(),
{
    if kinds.len() == 0 {
        refs
    } else {
        let prev = apply_kinds(refs, kinds.drop_last());
        let (i, k) = kinds.last();
        if i < prev.len() {
            prev.update(i as int, with_ref_kind(prev[i as int], k))
        } else {
            prev
        }
    }
}

pub proof fn lemma_apply_kinds_len(refs: Seq<ReferenceView>, kinds: Seq<(usize, RefKind)>)
    ensures
        apply_kinds(refs, kinds).len() == refs.len(),
    decreases kinds.len(),
{
    if kinds.len() > 0 {
        lemma_apply_kinds_len(refs, kinds.drop_last());
    }
}

/// Records the ref kinds that resolution found upstream on the scanned references.
pub fn apply_resolved_kinds(references: &mut Vec<ReferenceReport>, kinds: &Vec<(usize, RefKind)>)
    ensures
        reference_views(final(references)@) == apply_kinds(reference_views(old(references)@), kinds@),
{
    let ghost start = reference_views(references@);
    let mut j: usize = 0;
    while j < kinds.len()
        invariant
            j <= kinds@.len(),
            reference_views(references@) == apply_kinds(start, kinds@.take(j as int)),
        decreases kinds@.len() - j,
    {
        proof { lemma_apply_kinds_len(start, kinds@.take(j as int)); }
        assert(kinds@.take(j + 1).drop_last() =~= kinds@.take(j as int));
        assert(kinds@.take(j + 1).last() == kinds@[j as int]);
        let (idx, kind) = kinds[j];
        if idx < references.len() {
            let ghost before = reference_views(references@);
            references[idx].parsed.ref_kind = kind;
            assert(reference_views(references@) =~= before.update(idx as int, with_ref_kind(before[idx as int], kind)));
        }
        j = j + 1;
    }
    assert(kinds@.take(j as int) =~= kinds@);
}

/// Some diagnostic is a schema finding.
pub open spec fn has_schema_spec(ds: Seq<DiagnosticView>) -> bool {
    exists|i: int| 0 <= i < ds.len() && (#[trigger] ds[i]).category == DiagnosticCategory::Schema
}

/// Whether any diagnostic is a schema finding.
pub fn has_schema_diagnostics(diagnostics: &Vec<Diagnostic>) -> (r: bool)
    ensures
        r == has_schema_spec(diag_views(diagnostics@)),
{
    let ghost dv = diag_views(diagnostics@);
    let mut i: usize = 0;
    while i < diagnostics.len()
        invariant
            i <= diagnostics@.len(),
            dv == diag_views(diagnostics@),
            forall|j: int| 0 <= j < i ==> (#[trigger] dv[j]).category != DiagnosticCategory::Schema,
        decreases diagnostics@.len() - i,
    {
        assert(dv[i as int] == diagnostics@[i as int]@);
        if diagnostics[i].category == DiagnosticCategory::Schema {
            return true;
        }
        i = i + 1;
    }
    false
}

/// Whether any diagnostic of the scan is a failure (validation or metadata).
pub fn has_scan_failure_diagnostics(diagnostics: &Vec<Diagnostic>) -> (r: bool)
    ensures
        r == (exists|i: int| 0 <= i < diagnostics@.len() && is_failure(#[trigger] diag_views(diagnostics@)[i])),
{
    let ghost dv = diag_views(diagnostics@);
    let mut i: usize = 0;
    while i < diagnostics.len()
        invariant
            i <= diagnostics@.len(),
            dv == diag_views(diagnostics@),
            forall|j: int| 0 <= j < i ==> !is_failure(#[trigger] dv[j]),
        decreases diagnostics@.len() - i,
    {
        assert(dv[i as int] == diagnostics@[i as int]@);
        match diagnostics[i].category {
            DiagnosticCategory::Validation | DiagnosticCategory::Metadata => {
                assert(is_failure(dv[i as int]));
                return true;
            },
            _ => {},
        }
        i = i + 1;
    }
    false
}

/// Some diagnostic reports a failed upstream lookup.
pub open spec fn has_metadata_spec(ds: Seq<DiagnosticView>) -> bool {
    exists|i: int| 0 <= i < ds.len() && (#[trigger] ds[i]).category == DiagnosticCategory::Metadata
}

/// Whether any upstream lookup of the resolution failed.
pub fn has_metadata_failures(diagnostics: &Vec<Diagnostic>) -> (r: bool)
    ensures
        r == has_metadata_spec(diag_views(diagnostics@)),
{
    let ghost dv = diag_views(diagnostics@);
    let mut i: usize = 0;
    while i < diagnostics.len()
        invariant
            i <= diagnostics@.len(),
            dv == diag_views(diagnostics@),
            forall|j: int| 0 <= j < i ==> (#[trigger] dv[j]).category != DiagnosticCategory::Metadata,
        decreases diagnostics@.len() - i,
    {
        assert(dv[i as int] == diagnostics@[i as int]@);
        if diagnostics[i].category == DiagnosticCategory::Metadata {
            return true;
        }
        i = i + 1;
    }
    false
}

/// A stage of a run whose failure ends the run before a report is written,
/// or, for strict schema validation, right after it.
#[derive(Clone, Copy, Debug, PartialEq, Eq, Structural)]
pub enum FailedStage {
    Init,
    Config,
    Threads,
    CacheSetup,
    Discovery,
    Scan,
    StrictSchema,
    Metadata,
    Rewrite,
}

/// The exit code of a failed stage: `2` for arguments, configuration, init,
/// cache and thread setup; `3` for discovery, parsing and strict schema
/// validation; `4` for a failed metadata lookup; `5` for a failed rewrite.
pub open spec fn stage_exit_spec(stage: FailedStage) -> i32 {
    match stage {
        FailedStage::Init | FailedStage::Config | FailedStage::Threads | FailedStage::CacheSetup => 2,
        FailedStage::Discovery | FailedStage::Scan | FailedStage::StrictSchema => 3,
        FailedStage::Metadata => 4,
        FailedStage::Rewrite => 5,
    }
}

/// The exit code of a run that failed at `stage`.
pub fn stage_exit_code(stage: FailedStage) -> (code: i32)
    ensures
        code == stage_exit_spec(stage),
{
    match stage {
        FailedStage::Init | FailedStage::Config | FailedStage::Threads | FailedStage::CacheSetup => 2,
        FailedStage::Discovery | FailedStage::Scan | FailedStage::StrictSchema => 3,
        FailedStage::Metadata => 4,
        FailedStage::Rewrite => 5,
    }
}

/// The exit code of a finished run: `3` for scan failures, `4` for failed
/// upstream lookups, else what the resolution calls for.
pub open spec fn final_exit_spec(scan_failures: bool, metadata_failures: bool, resolution_code: Option<i32>) -> Option<i32> {
    if scan_failures {
        Some(3)
    } else if metadata_failures {
        Some(4)
    } else {
        resolution_code
    }
}

/// The exit code of a finished run, if it is not zero.
pub fn final_exit_code(scan_failures: bool, metadata_failures: bool, resolution_code: Option<i32>) -> (code: Option<i32>)
    ensures
        code == final_exit_spec(scan_failures, metadata_failures, resolution_code),
{
    if scan_failures {
        Some(3)
    } else if metadata_failures {
        Some(4)
    } else {
        resolution_code
    }
}

} // verus!
