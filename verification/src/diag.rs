//! Structured diagnostic records and the sink that accumulates them.
//!
//! Every failure in this pass is recovered locally: the offending construct
//! yields no resolution record, a diagnostic is recorded, and analysis
//! continues over the rest of the compilation unit. Nothing here formats or
//! prints text; rendering is a downstream concern.

use vstd::prelude::*;
use crate::ast::TypeId;

verus! {

/// One structured error record: the kind of failure and the offending names.
#[derive(Debug)]
pub enum Diagnostic {
    /// A second type declaration with an already-declared name.
    DuplicateType { name: String },
    /// A type name that no declaration introduces.
    UnknownType { name: String },
    /// A second associated item with the same name for the same target type;
    /// the first-registered declaration is retained.
    DuplicateAssociatedItem { target: TypeId, name: String },
    /// A qualified call or method call naming an item the target type's
    /// namespace does not contain.
    UnknownAssociatedItem { target: TypeId, name: String },
    /// A method (an item with a receiver) referenced through the qualified
    /// `Type::item` form.
    MethodCalledAsFunction { target: TypeId, name: String },
    /// An associated function (no receiver) referenced through the method
    /// `receiver.item` form.
    FunctionCalledAsMethod { target: TypeId, name: String },
    /// A call whose argument count differs from the resolved signature's
    /// parameter count (excluding the implicit receiver slot).
    ArityMismatch { expected: usize, got: usize },
    /// A struct literal that supplies no initializer for a declared field.
    MissingField { target: TypeId, name: String },
    /// A struct-literal initializer naming a field the target type does not
    /// declare.
    UnknownField { target: TypeId, name: String },
    /// Two initializers for the same field in one struct literal.
    DuplicateFieldInit { target: TypeId, name: String },
}

/// Model of `Diagnostic`, with names as character sequences.
pub enum DiagModel {
    DuplicateType { name: Seq<char> },
    UnknownType { name: Seq<char> },
    DuplicateAssociatedItem { target: TypeId, name: Seq<char> },
    UnknownAssociatedItem { target: TypeId, name: Seq<char> },
    MethodCalledAsFunction { target: TypeId, name: Seq<char> },
    FunctionCalledAsMethod { target: TypeId, name: Seq<char> },
    ArityMismatch { expected: nat, got: nat },
    MissingField { target: TypeId, name: Seq<char> },
    UnknownField { target: TypeId, name: Seq<char> },
    DuplicateFieldInit { target: TypeId, name: Seq<char> },
}

impl Diagnostic {
    pub open spec fn model(&self) -> DiagModel {
        match self {
            Diagnostic::DuplicateType { name } => DiagModel::DuplicateType { name: name@ },
            Diagnostic::UnknownType { name } => DiagModel::UnknownType { name: name@ },
            Diagnostic::DuplicateAssociatedItem { target, name } =>
                DiagModel::DuplicateAssociatedItem { target: *target, name: name@ },
            Diagnostic::UnknownAssociatedItem { target, name } =>
                DiagModel::UnknownAssociatedItem { target: *target, name: name@ },
            Diagnostic::MethodCalledAsFunction { target, name } =>
                DiagModel::MethodCalledAsFunction { target: *target, name: name@ },
            Diagnostic::FunctionCalledAsMethod { target, name } =>
                DiagModel::FunctionCalledAsMethod { target: *target, name: name@ },
            Diagnostic::ArityMismatch { expected, got } =>
                DiagModel::ArityMismatch { expected: *expected as nat, got: *got as nat },
            Diagnostic::MissingField { target, name } =>
                DiagModel::MissingField { target: *target, name: name@ },
            Diagnostic::UnknownField { target, name } =>
                DiagModel::UnknownField { target: *target, name: name@ },
            Diagnostic::DuplicateFieldInit { target, name } =>
                DiagModel::DuplicateFieldInit { target: *target, name: name@ },
        }
    }
}

/// Elementwise model of a sequence of diagnostics.
pub open spec fn diags_model(s: Seq<Diagnostic>) -> Seq<DiagModel> {
    Seq::new(s.len(), |i: int| s[i].model())
}

/// Accumulates diagnostic records in the order they are reported.
/// A thin collaborator: it holds records and has no resolution logic.
#[derive(Debug)]
pub struct Diagnostics {
    records: Vec<Diagnostic>,
}

impl Diagnostics {
    /// The recorded diagnostics, in report order.
    pub closed spec fn model(&self) -> Seq<DiagModel> {
        diags_model(self.records@)
    }

    /// An empty sink.
    pub fn new() -> (r: Diagnostics)
        ensures
            r.model() == Seq::<DiagModel>::empty(),
    {
        let r = Diagnostics { records: Vec::new() };
        proof {
            assert(r.model() =~= Seq::<DiagModel>::empty());
        }
        r
    }

    /// Record one diagnostic at the end.
    pub fn push(&mut self, d: Diagnostic)
        ensures
            final(self).model() == old(self).model().push(d.model()),
    {
        let ghost dm = d.model();
        self.records.push(d);
        proof {
            assert(self.model() =~= old(self).model().push(dm));
        }
    }

    /// Append a batch of diagnostics, keeping their order.
    pub fn append(&mut self, ds: Vec<Diagnostic>)
        ensures
            final(self).model() == old(self).model() + diags_model(ds@),
    {
        let ghost dsm = diags_model(ds@);
        let mut ds = ds;
        self.records.append(&mut ds);
        proof {
            assert(self.model() =~= old(self).model() + dsm);
        }
    }

    /// Number of recorded diagnostics.
    pub fn len(&self) -> (r: usize)
        ensures
            r == self.model().len(),
    {
        self.records.len()
    }

    /// The diagnostic at position `i`, in report order.
    pub fn get(&self, i: usize) -> (r: &Diagnostic)
        requires
            i < self.model().len(),
        ensures
            r.model() == self.model()[i as int],
    {
        &self.records[i]
    }
}

} // verus!
