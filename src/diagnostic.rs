//! Diagnostics gathered while reading a declaration.
use vstd::prelude::*;

verus! {

#[derive(Clone, Copy, Debug, PartialEq, Eq, Structural)]
pub enum Severity {
    Error,
    Warning,
}

/// A problem found in the source, at a byte offset.
#[derive(Clone, Debug)]
pub struct Diagnostic {
    pub position: usize,
    pub message: String,
    pub severity: Severity,
}

/// The mathematical value of a diagnostic.
pub struct DiagnosticView {
    pub position: nat,
    pub message: Seq<char>,
    pub severity: Severity,
}

impl View for Diagnostic {
    type V = DiagnosticView;

    open spec fn view(&self) -> DiagnosticView {
        DiagnosticView { position: self.position as nat, message: self.message@, severity: self.severity }
    }
}

/// The values of a list of diagnostics.
pub open spec fn views(ds: Seq<Diagnostic>) -> Seq<DiagnosticView> {
    ds.map_values(|d: Diagnostic| d@)
}

pub proof fn lemma_views_push(ds: Seq<Diagnostic>, d: Diagnostic)
    ensures
        views(ds.push(d)) == views(ds).push(d@),
{
    assert(views(ds.push(d)) =~= views(ds).push(d@));
}

} // verus!
