//! The struct literal binder: validates a struct-construction expression
//! (explicit `field: value` entries and shorthand bare names) against the
//! target type's declared field list and produces a fully explicit,
//! declaration-ordered field map.
//!
//! The target name may originally have been the `Self` placeholder; the Self
//! resolver substitutes it before this step runs, so the binder only ever
//! sees a nominal type name.

use vstd::prelude::*;
use crate::ast::{Expr, FieldInit, FieldInitModel, TypeId};
use crate::diag::{DiagModel, Diagnostic};
use crate::ast::FieldDecl;
use crate::table::{TypeTable, has_field};

verus! {

/// Elementwise model of a field-initializer list.
pub open spec fn inits_models(s: Seq<FieldInit>) -> Seq<FieldInitModel> {
    Seq::new(s.len(), |i: int| s[i].model())
}

/// Whether some initializer supplies the name `n`.
pub open spec fn has_init(inits: Seq<FieldInitModel>, n: Seq<char>) -> bool {
    exists|j: int| 0 <= j < inits.len() && inits[j].name() == n
}

/// The position of the initializer supplying `n` (meaningful when unique).
pub open spec fn init_index(inits: Seq<FieldInitModel>, n: Seq<char>) -> int {
    choose|j: int| 0 <= j < inits.len() && inits[j].name() == n
}

/// The first `j` initializers are in order: each names a declared field and
/// none repeats an earlier name.
pub open spec fn inits_wf_upto(
    fields: Seq<FieldDecl>,
    inits: Seq<FieldInitModel>,
    j: int,
) -> bool {
    &&& forall|a: int| 0 <= a < j ==> has_field(fields, (#[trigger] inits[a]).name())
    &&& forall|a: int, b: int|
        0 <= a < b < j ==> (#[trigger] inits[a]).name() != (#[trigger] inits[b]).name()
}

/// A full, well-formed supply: every initializer names a declared field, no
/// name repeats, and every declared field is supplied.
pub open spec fn inits_cover(fields: Seq<FieldDecl>, inits: Seq<FieldInitModel>) -> bool {
    &&& inits_wf_upto(fields, inits, inits.len() as int)
    &&& forall|k: int| 0 <= k < fields.len() ==> has_init(inits, (#[trigger] fields[k]).name@)
}

/// The value bound to one field of a resolved literal.
#[derive(Debug)]
pub enum BoundValue<'a> {
    /// The explicit initializer's value expression.
    FromInit(&'a Expr),
    /// A shorthand entry, expanded: the value is the local binding named
    /// like the field itself.
    FromBinding,
}

/// A resolved struct literal: the declaration it binds to and a complete
/// field-value map covering exactly the declared fields, in declaration
/// order (normalized regardless of source order). Holds only references into
/// the type table and the literal expression, never copies.
#[derive(Debug)]
pub struct ResolvedLiteral<'a> {
    /// The constructed type.
    pub target: TypeId,
    /// One entry per declared field, in declaration order: the field's name
    /// and the value the literal supplies for it.
    pub fields: Vec<(&'a String, BoundValue<'a>)>,
}

/// What a correct field map holds at position `k`: the declared field's name
/// and the matching initializer's value, shorthand entries expanded.
pub open spec fn binds_field<'a>(
    entry: (&'a String, BoundValue<'a>),
    fields: Seq<FieldDecl>,
    inits: Seq<FieldInitModel>,
    k: int,
) -> bool {
    &&& entry.0@ == fields[k].name@
    &&& match inits[init_index(inits, fields[k].name@)] {
        FieldInitModel::Explicit(_, em) => entry.1 matches BoundValue::FromInit(e) && e.model()
            == em,
        FieldInitModel::Shorthand(_) => entry.1 is FromBinding,
    }
}

/// Find the initializer supplying name `n`, scanning in source order.
fn find_init<'a>(inits: &'a Vec<FieldInit>, n: &String) -> (r: Option<usize>)
    ensures
        match r {
            Some(j) => {
                &&& j < inits@.len()
                &&& inits_models(inits@)[j as int].name() == n@
                &&& forall|a: int|
                    0 <= a < j ==> (#[trigger] inits_models(inits@)[a]).name() != n@
            },
            None => !has_init(inits_models(inits@), n@),
        },
{
    let m = inits.len();
    let mut j: usize = 0;
    while j < m
        invariant
            j <= m,
            m == inits@.len(),
            forall|a: int| 0 <= a < j ==> (#[trigger] inits_models(inits@)[a]).name() != n@,
        decreases m - j,
    {
        let nm: &String = match &inits[j] {
            FieldInit::Explicit(x, _) => x,
            FieldInit::Shorthand(x) => x,
        };
        if nm.eq(n) {
            proof {
                assert(inits_models(inits@)[j as int].name() == n@);
            }
            return Some(j);
        }
        proof {
            assert(inits_models(inits@)[j as int].name() != n@);
        }
        j += 1;
    }
    proof {
        assert forall|a: int|
            0 <= a < inits_models(inits@).len() implies (#[trigger] inits_models(inits@)[a]).name()
            != n@ by {}
    }
    None
}

/// Find the declared field named `n`.
fn find_field(fields: &Vec<FieldDecl>, n: &String) -> (r: bool)
    ensures
        r == has_field(fields@, n@),
{
    let m = fields.len();
    let mut k: usize = 0;
    while k < m
        invariant
            k <= m,
            m == fields@.len(),
            forall|a: int| 0 <= a < k ==> (#[trigger] fields@[a]).name@ != n@,
        decreases m - k,
    {
        if fields[k].name.eq(n) {
            return true;
        }
        k += 1;
    }
    false
}

/// Bind a struct literal for the type named `ty_name` (any `Self` target
/// already substituted) with the given field initializers.
///
/// Succeeds exactly when the type is declared, every initializer names a
/// declared field, no field is initialized twice, and every declared field
/// is supplied; the result enumerates the declared fields in declaration
/// order, shorthand entries expanded to explicit ones. Otherwise the first
/// offence found — scanning the initializers in source order, then the
/// declared fields in declaration order — is reported: `UnknownType`,
/// `UnknownField`, `DuplicateFieldInit`, or `MissingField`.
#[verifier::loop_isolation(false)]
pub fn bind<'a>(
    table: &'a TypeTable,
    ty_name: &String,
    inits: &'a Vec<FieldInit>,
) -> (r: Result<ResolvedLiteral<'a>, Diagnostic>)
    requires
        table.wf(),
    ensures
        match r {
            Ok(rl) => {
                let fields = table.decls()[table.id_of(ty_name@).0 as int].fields@;
                let im = inits_models(inits@);
                &&& table.contains_name(ty_name@)
                &&& rl.target == table.id_of(ty_name@)
                &&& inits_wf_upto(fields, im, im.len() as int)
                &&& forall|k: int| 0 <= k < fields.len() ==> has_init(im, (#[trigger] fields[k]).name@)
                &&& rl.fields@.len() == fields.len()
                &&& forall|k: int|
                    0 <= k < fields.len() ==> binds_field(#[trigger] rl.fields@[k], fields, im, k)
            },
            Err(d) => {
                let fields = table.decls()[table.id_of(ty_name@).0 as int].fields@;
                let im = inits_models(inits@);
                match d.model() {
                    DiagModel::UnknownType { name } => {
                        &&& name == ty_name@
                        &&& !table.contains_name(ty_name@)
                    },
                    DiagModel::UnknownField { target, name } => {
                        &&& table.contains_name(ty_name@)
                        &&& target == table.id_of(ty_name@)
                        &&& exists|j: int|
                            0 <= j < im.len() && inits_wf_upto(fields, im, j) && !has_field(
                                fields,
                                (#[trigger] im[j]).name(),
                            ) && name == im[j].name()
                    },
                    DiagModel::DuplicateFieldInit { target, name } => {
                        &&& table.contains_name(ty_name@)
                        &&& target == table.id_of(ty_name@)
                        &&& exists|j: int|
                            0 <= j < im.len() && inits_wf_upto(fields, im, j) && has_field(
                                fields,
                                (#[trigger] im[j]).name(),
                            ) && name == im[j].name() && (exists|a: int|
                                0 <= a < j && im[a].name() == im[j].name())
                    },
                    DiagModel::MissingField { target, name } => {
                        &&& table.contains_name(ty_name@)
                        &&& target == table.id_of(ty_name@)
                        &&& inits_wf_upto(fields, im, im.len() as int)
                        &&& exists|k: int|
                            0 <= k < fields.len() && !has_init(im, (#[trigger] fields[k]).name@)
                                && name == fields[k].name@ && (forall|k2: int|
                                0 <= k2 < k ==> has_init(im, (#[trigger] fields[k2]).name@))
                    },
                    _ => false,
                }
            },
        },
        ({
            let fields = table.decls()[table.id_of(ty_name@).0 as int].fields@;
            let im = inits_models(inits@);
            table.contains_name(ty_name@) && inits_cover(fields, im)
        }) ==> r is Ok,
{
    let target = match table.lookup(ty_name) {
        Ok(id) => id,
        Err(d) => { return Err(d) },
    };
    let fields = table.fields_of(target);
    let ghost fm = fields@;
    let ghost im = inits_models(inits@);

    // pass one, in source order: every initializer must name a declared
    // field, and no name may repeat.
    let n_inits = inits.len();
    let mut j: usize = 0;
    while j < n_inits
        invariant
            j <= n_inits,
            inits_wf_upto(fm, im, j as int),
        decreases n_inits - j,
    {
        let nm: &String = match &inits[j] {
            FieldInit::Explicit(x, _) => x,
            FieldInit::Shorthand(x) => x,
        };
        proof {
            assert(im[j as int].name() == nm@);
        }
        if !find_field(fields, nm) {
            return Err(Diagnostic::UnknownField { target, name: nm.clone() });
        }
        match find_init(inits, nm) {
            Some(first) => {
                if first < j {
                    return Err(Diagnostic::DuplicateFieldInit { target, name: nm.clone() });
                }
                proof {
                    assert(im[j as int].name() == nm@);
                    assert forall|a: int| 0 <= a < j implies (#[trigger] im[a]).name() != nm@ by {
                        if a < first {
                        } else {
                            assert(im[first as int].name() == nm@);
                            assert(first == j as int);
                        }
                    }
                }
            },
            None => {
                proof {
                    assert(im[j as int].name() == nm@);
                    assert(false);
                }
            },
        }
        j += 1;
    }

    // pass two, in declaration order: every declared field must be supplied;
    // build the explicit map.
    let n_fields = fields.len();
    let mut out: Vec<(&'a String, BoundValue<'a>)> = Vec::new();
    let mut k: usize = 0;
    while k < n_fields
        invariant
            k <= n_fields,
            out@.len() == k,
            inits_wf_upto(fm, im, im.len() as int),
            forall|k2: int| 0 <= k2 < k ==> has_init(im, (#[trigger] fm[k2]).name@),
            forall|k2: int| 0 <= k2 < k ==> binds_field(#[trigger] out@[k2], fm, im, k2),
        decreases n_fields - k,
    {
        let fname: &'a String = &fields[k].name;
        match find_init(inits, fname) {
            Some(j) => {
                proof {
                    assert(has_init(im, fname@));
                    let jj = init_index(im, fname@);
                    assert(im[jj].name() == fname@);
                    assert(jj == j as int);
                }
                let value = match &inits[j] {
                    FieldInit::Explicit(_, e) => BoundValue::FromInit(e),
                    FieldInit::Shorthand(_) => BoundValue::FromBinding,
                };
                out.push((fname, value));
            },
            None => {
                return Err(Diagnostic::MissingField { target, name: fname.clone() });
            },
        }
        k += 1;
    }
    Ok(ResolvedLiteral { target, fields: out })
}

/// Shorthand entries expand to the equally-named local binding: in a bound
/// field map, a field whose initializer was a bare name carries the
/// field's own name and the `FromBinding` value.
pub proof fn lemma_shorthand_expansion<'a>(
    entry: (&'a String, BoundValue<'a>),
    fields: Seq<FieldDecl>,
    inits: Seq<FieldInitModel>,
    k: int,
)
    requires
        0 <= k < fields.len(),
        forall|j: int| 0 <= j < inits.len() ==> (#[trigger] inits[j]) is Shorthand,
        has_init(inits, fields[k].name@),
        binds_field(entry, fields, inits, k),
    ensures
        entry.0@ == fields[k].name@,
        entry.1 is FromBinding,
{
    let j = init_index(inits, fields[k].name@);
    assert(0 <= j < inits.len() && inits[j].name() == fields[k].name@);
    assert(inits[j] is Shorthand);
}

} // verus!
