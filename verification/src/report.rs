//! The bridge to the canonical `forensicnomicon` report model: every observation
//! of the analyzer becomes a [`Finding`] built through `forensicnomicon`'s
//! finding builder.

use vstd::prelude::*;
use forensicnomicon::report::{Category as Lens, Evidence, Finding, Location, Severity as Level, Source};
use crate::audit::{Category, EvidenceRow, EvidenceView, Severity};

verus! {

/// `forensicnomicon::report::Finding`, carried through as an opaque value.
#[verifier::external_type_specification]
#[verifier::external_body]
pub struct ExFinding(Finding);

/// The finding that `forensicnomicon`'s builder assembles from a severity, a
/// category, a code, a note, a source (analyzer, scope, version), evidence rows
/// (in order) and MITRE ATT&CK technique ids (in order).
pub uninterp spec fn report_finding(
    severity: Severity,
    category: Category,
    code: Seq<char>,
    note: Seq<char>,
    analyzer: Seq<char>,
    scope: Seq<char>,
    version: Seq<char>,
    evidence: Seq<EvidenceView>,
    techniques: Seq<Seq<char>>,
) -> Finding;

/// Builds a rated finding with `forensicnomicon::report::Finding::observation`,
/// then `FindingBuilder::note`, `FindingBuilder::source`, one
/// `FindingBuilder::evidence_item` per evidence row and one
/// `FindingBuilder::mitre` per technique, in order, and `FindingBuilder::build`.
/// The builder is deterministic: its source only stores these values in the
/// finding's fields, so the contract names the result as a function of the
/// arguments alone.
#[verifier::external_body]
pub(crate) fn build_finding(
    severity: Severity,
    category: Category,
    code: &'static str,
    note: String,
    analyzer: String,
    scope: String,
    version: String,
    evidence: Vec<EvidenceRow>,
    techniques: &'static [&'static str],
) -> (finding: Finding)
    ensures
        finding == report_finding(
            severity,
            category,
            code@,
            note@,
            analyzer@,
            scope@,
            version@,
            evidence@.map_values(|r: EvidenceRow| r@),
            techniques@.map_values(|t: &'static str| t@),
        ),
{
    let level = match severity { Severity::Info => Level::Info, Severity::Low => Level::Low, Severity::Medium => Level::Medium, Severity::High => Level::High };
    let lens = match category { Category::Residue => Lens::Residue, Category::Provenance => Lens::Provenance, Category::Threat => Lens::Threat };
    let source = Source { analyzer, scope, version: Some(version) };
    let mut builder = Finding::observation(level, lens, code).note(note).source(source);
    for row in evidence {
        builder = builder.evidence_item(Evidence { field: row.field, value: row.value, location: row.key.map(Location::Key) });
    }
    for technique in techniques {
        builder = builder.mitre(*technique);
    }
    builder.build()
}

} // verus!
