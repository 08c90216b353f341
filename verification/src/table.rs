//! The type table: the registry of declared nominal types and their fields.
//! Populated once from the AST, before impl blocks are scanned; immutable
//! thereafter.

use vstd::prelude::*;
use crate::ast::{FieldDecl, TypeId};
use crate::diag::{DiagModel, Diagnostic};

verus! {

/// One struct declaration: its name and its ordered field list.
#[derive(Debug)]
pub struct StructDecl {
    pub name: String,
    pub fields: Vec<FieldDecl>,
}

/// Field names are unique within one declaration.
pub open spec fn unique_field_names(fields: Seq<FieldDecl>) -> bool {
    forall|i: int, j: int|
        0 <= i < j < fields.len() ==> fields[i].name@ != fields[j].name@
}

/// Whether `fields` declares a field named `n`.
pub open spec fn has_field(fields: Seq<FieldDecl>, n: Seq<char>) -> bool {
    exists|i: int| 0 <= i < fields.len() && fields[i].name@ == n
}

/// Registry of declared nominal types. A `TypeId` is an index into the
/// declaration list; ids are only ever produced by `declare`, so every id a
/// client holds stays valid for the lifetime of the pass.
#[derive(Debug)]
pub struct TypeTable {
    decls: Vec<StructDecl>,
}

impl TypeTable {
    /// The declarations, in declaration order.
    pub closed spec fn decls(&self) -> Seq<StructDecl> {
        self.decls@
    }

    /// Well-formed: type names are unique, and each declaration's field
    /// names are unique. `declare` establishes and preserves this.
    pub open spec fn wf(&self) -> bool {
        &&& forall|i: int, j: int|
            0 <= i < j < self.decls().len() ==> (#[trigger] self.decls()[i]).name@
                != (#[trigger] self.decls()[j]).name@
        &&& forall|i: int|
            0 <= i < self.decls().len() ==> unique_field_names(
                (#[trigger] self.decls()[i]).fields@,
            )
    }

    /// Whether some type named `n` has been declared.
    pub open spec fn contains_name(&self, n: Seq<char>) -> bool {
        exists|i: int| 0 <= i < self.decls().len() && (#[trigger] self.decls()[i]).name@ == n
    }

    /// The id of the type named `n`, if declared.
    pub open spec fn id_of(&self, n: Seq<char>) -> TypeId {
        TypeId(
            (choose|i: int|
                0 <= i < self.decls().len() && (#[trigger] self.decls()[i]).name@ == n) as usize,
        )
    }

    /// Whether `id` was produced by `declare` on this table.
    pub open spec fn valid_id(&self, id: TypeId) -> bool {
        id.0 < self.decls().len()
    }

    /// An empty table, with no types declared.
    pub fn new() -> (r: TypeTable)
        ensures
            r.wf(),
            r.decls() == Seq::<StructDecl>::empty(),
    {
        let r = TypeTable { decls: Vec::new() };
        proof {
            assert(r.decls() =~= Seq::<StructDecl>::empty());
        }
        r
    }

    /// Number of declared types; valid ids are exactly those below it.
    pub fn len(&self) -> (r: usize)
        ensures
            r == self.decls().len(),
    {
        self.decls.len()
    }

    /// Declare a nominal type. Succeeds with a fresh id if the name is not
    /// yet taken; fails with `DuplicateType` (and leaves the table unchanged)
    /// if a type of the same name was already declared. Field names are
    /// unique within one declaration — the upstream parser guarantees it, and
    /// the table keeps it as its invariant.
    pub fn declare(&mut self, name: String, fields: Vec<FieldDecl>) -> (r: Result<
        TypeId,
        Diagnostic,
    >)
        requires
            old(self).wf(),
            unique_field_names(fields@),
        ensures
            final(self).wf(),
            match r {
                Ok(id) => {
                    &&& !old(self).contains_name(name@)
                    &&& id == TypeId(old(self).decls().len() as usize)
                    &&& final(self).decls() == old(self).decls().push(
                        StructDecl { name, fields },
                    )
                },
                Err(d) => {
                    &&& old(self).contains_name(name@)
                    &&& d.model() == DiagModel::DuplicateType { name: name@ }
                    &&& final(self).decls() == old(self).decls()
                },
            },
    {
        let n = self.decls.len();
        let mut i: usize = 0;
        while i < n
            invariant
                i <= n,
                n == self.decls().len(),
                old(self).wf(),
                *self == *old(self),
                forall|j: int| 0 <= j < i ==> (#[trigger] self.decls()[j]).name@ != name@,
            decreases n - i,
        {
            if self.decls[i].name == name {
                proof {
                    assert(*self == *old(self));
                    assert(self.wf());
                }
                return Err(Diagnostic::DuplicateType { name: name.clone() });
            }
            i += 1;
        }
        self.decls.push(StructDecl { name, fields });
        Ok(TypeId(n))
    }

    /// Look up a type by name. Succeeds with the id `declare` produced for
    /// that name; fails with `UnknownType` if no such type was declared.
    pub fn lookup(&self, name: &String) -> (r: Result<TypeId, Diagnostic>)
        requires
            self.wf(),
        ensures
            match r {
                Ok(id) => {
                    &&& self.contains_name(name@)
                    &&& id == self.id_of(name@)
                    &&& self.valid_id(id)
                    &&& self.decls()[id.0 as int].name@ == name@
                },
                Err(d) => {
                    &&& !self.contains_name(name@)
                    &&& d.model() == DiagModel::UnknownType { name: name@ }
                },
            },
    {
        let n = self.decls.len();
        let mut i: usize = 0;
        while i < n
            invariant
                i <= n,
                n == self.decls().len(),
                self.wf(),
                forall|j: int| 0 <= j < i ==> (#[trigger] self.decls()[j]).name@ != name@,
            decreases n - i,
        {
            if self.decls[i].name.eq(name) {
                proof {
                    let k = choose|k: int|
                        0 <= k < self.decls().len() && (#[trigger] self.decls()[k]).name@
                            == name@;
                    assert(self.decls()[i as int].name@ == name@);
                    assert(k == i as int);
                }
                return Ok(TypeId(i));
            }
            i += 1;
        }
        Err(Diagnostic::UnknownType { name: name.clone() })
    }

    /// The ordered field list of a declared type. Total for any valid id:
    /// ids are only ever produced by `declare`, so there is no failure path.
    pub fn fields_of(&self, id: TypeId) -> (r: &Vec<FieldDecl>)
        requires
            self.valid_id(id),
        ensures
            *r == self.decls()[id.0 as int].fields,
    {
        &self.decls[id.0].fields
    }

    /// The declared name of a valid type id.
    pub fn name_of(&self, id: TypeId) -> (r: &String)
        requires
            self.valid_id(id),
        ensures
            *r == self.decls()[id.0 as int].name,
    {
        &self.decls[id.0].name
    }
}

} // verus!
