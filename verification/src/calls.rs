//! The call resolver: binds qualified calls `Type::item(args)` and method
//! calls `receiver.item(args)` to a concrete associated-item declaration in
//! the target type's merged namespace, checks the call form against the
//! item's receiver marker, and checks arity. Argument *types* are not
//! checked here: value-level compatibility is the type-inference
//! collaborator's concern.

use vstd::prelude::*;
use crate::ast::{AssociatedItem, Receiver, Ty, TypeId};
use crate::diag::{DiagModel, Diagnostic};
use crate::registry::{ImplRegistry, ns_binding, ns_contains};
use crate::selfres::{resolve_ty, subst_ty};
use crate::table::TypeTable;

verus! {

/// A resolved call: the binding from a call expression to the declaration
/// it designates. Holds a reference to the declaration owned by the
/// registry, never a copy of it.
#[derive(Debug)]
pub struct ResolvedCall<'a> {
    /// The type whose namespace supplied the item.
    pub target: TypeId,
    /// The declaration the call binds to.
    pub item: &'a AssociatedItem,
    /// The item's Self-resolved return type, for downstream type inference.
    pub ret: Ty,
}

/// The item bound to `name` in the namespace that `registry` merged for the
/// type id `t`.
pub open spec fn bound_item(registry: &ImplRegistry, t: TypeId, name: Seq<char>)
    -> crate::ast::ItemModel {
    ns_binding(registry.ns_model(t.0 as int), name)
}

/// Whether the namespace that `registry` merged for `t` binds `name`.
pub open spec fn binds(registry: &ImplRegistry, t: TypeId, name: Seq<char>) -> bool {
    ns_contains(registry.ns_model(t.0 as int), name)
}

/// Resolve a qualified call `ty_name::item_name` with `n_args` arguments.
///
/// Succeeds exactly when `ty_name` is declared, its namespace binds
/// `item_name`, the bound item is an associated function (no receiver), and
/// the argument count equals the parameter count. Each failure yields the
/// structured diagnostic the contract states, and nothing else.
pub fn resolve_static_call<'a>(
    table: &TypeTable,
    registry: &'a ImplRegistry,
    ty_name: &String,
    item_name: &String,
    n_args: usize,
) -> (r: Result<ResolvedCall<'a>, Diagnostic>)
    requires
        table.wf(),
        registry.wf(),
        registry.n_types() == table.decls().len(),
    ensures
        match r {
            Ok(rc) => {
                &&& table.contains_name(ty_name@)
                &&& rc.target == table.id_of(ty_name@)
                &&& binds(registry, rc.target, item_name@)
                &&& rc.item.model() == bound_item(registry, rc.target, item_name@)
                &&& rc.item.model().receiver == Receiver::Absent
                &&& rc.item.model().params.len() == n_args
                &&& rc.ret.model() == subst_ty(rc.item.model().ret, ty_name@)
            },
            Err(d) => match d.model() {
                DiagModel::UnknownType { name } => {
                    &&& name == ty_name@
                    &&& !table.contains_name(ty_name@)
                },
                DiagModel::UnknownAssociatedItem { target, name } => {
                    &&& table.contains_name(ty_name@)
                    &&& target == table.id_of(ty_name@)
                    &&& name == item_name@
                    &&& !binds(registry, target, item_name@)
                },
                DiagModel::MethodCalledAsFunction { target, name } => {
                    &&& table.contains_name(ty_name@)
                    &&& target == table.id_of(ty_name@)
                    &&& name == item_name@
                    &&& binds(registry, target, item_name@)
                    &&& bound_item(registry, target, item_name@).receiver != Receiver::Absent
                },
                DiagModel::ArityMismatch { expected, got } => {
                    &&& table.contains_name(ty_name@)
                    &&& binds(registry, table.id_of(ty_name@), item_name@)
                    &&& bound_item(registry, table.id_of(ty_name@), item_name@).receiver
                        == Receiver::Absent
                    &&& expected == bound_item(
                        registry,
                        table.id_of(ty_name@),
                        item_name@,
                    ).params.len()
                    &&& got == n_args
                    &&& expected != got
                },
                _ => false,
            },
        },
{
    let target = match table.lookup(ty_name) {
        Ok(id) => id,
        Err(d) => { return Err(d) },
    };
    let item = match registry.lookup_item(target, item_name) {
        Some(it) => it,
        None => {
            return Err(
                Diagnostic::UnknownAssociatedItem { target, name: item_name.clone() },
            )
        },
    };
    if !matches!(item.receiver, Receiver::Absent) {
        return Err(Diagnostic::MethodCalledAsFunction { target, name: item_name.clone() });
    }
    let expected = item.params.len();
    if expected != n_args {
        return Err(Diagnostic::ArityMismatch { expected, got: n_args });
    }
    let ret = resolve_ty(&item.ret, table.name_of(target));
    proof {
        assert(item.model().ret == item.ret.model());
        assert(table.decls()[target.0 as int].name@ == ty_name@);
    }
    Ok(ResolvedCall { target, item, ret })
}

/// Resolve a method call `receiver.item_name(args)`, the receiver's static
/// type `recv_ty_name` having already been assigned by type inference;
/// `n_args` excludes the implicit receiver slot.
///
/// Succeeds exactly when the receiver type is declared, its namespace binds
/// `item_name`, the bound item carries a receiver marker, and the argument
/// count equals the parameter count; an associated function referenced this
/// way fails with `FunctionCalledAsMethod`.
pub fn resolve_method_call<'a>(
    table: &TypeTable,
    registry: &'a ImplRegistry,
    recv_ty_name: &String,
    item_name: &String,
    n_args: usize,
) -> (r: Result<ResolvedCall<'a>, Diagnostic>)
    requires
        table.wf(),
        registry.wf(),
        registry.n_types() == table.decls().len(),
    ensures
        match r {
            Ok(rc) => {
                &&& table.contains_name(recv_ty_name@)
                &&& rc.target == table.id_of(recv_ty_name@)
                &&& binds(registry, rc.target, item_name@)
                &&& rc.item.model() == bound_item(registry, rc.target, item_name@)
                &&& rc.item.model().receiver != Receiver::Absent
                &&& rc.item.model().params.len() == n_args
                &&& rc.ret.model() == subst_ty(rc.item.model().ret, recv_ty_name@)
            },
            Err(d) => match d.model() {
                DiagModel::UnknownType { name } => {
                    &&& name == recv_ty_name@
                    &&& !table.contains_name(recv_ty_name@)
                },
                DiagModel::UnknownAssociatedItem { target, name } => {
                    &&& table.contains_name(recv_ty_name@)
                    &&& target == table.id_of(recv_ty_name@)
                    &&& name == item_name@
                    &&& !binds(registry, target, item_name@)
                },
                DiagModel::FunctionCalledAsMethod { target, name } => {
                    &&& table.contains_name(recv_ty_name@)
                    &&& target == table.id_of(recv_ty_name@)
                    &&& name == item_name@
                    &&& binds(registry, target, item_name@)
                    &&& bound_item(registry, target, item_name@).receiver == Receiver::Absent
                },
                DiagModel::ArityMismatch { expected, got } => {
                    &&& table.contains_name(recv_ty_name@)
                    &&& binds(registry, table.id_of(recv_ty_name@), item_name@)
                    &&& bound_item(registry, table.id_of(recv_ty_name@), item_name@).receiver
                        != Receiver::Absent
                    &&& expected == bound_item(
                        registry,
                        table.id_of(recv_ty_name@),
                        item_name@,
                    ).params.len()
                    &&& got == n_args
                    &&& expected != got
                },
                _ => false,
            },
        },
{
    let target = match table.lookup(recv_ty_name) {
        Ok(id) => id,
        Err(d) => { return Err(d) },
    };
    let item = match registry.lookup_item(target, item_name) {
        Some(it) => it,
        None => {
            return Err(
                Diagnostic::UnknownAssociatedItem { target, name: item_name.clone() },
            )
        },
    };
    if matches!(item.receiver, Receiver::Absent) {
        return Err(Diagnostic::FunctionCalledAsMethod { target, name: item_name.clone() });
    }
    let expected = item.params.len();
    if expected != n_args {
        return Err(Diagnostic::ArityMismatch { expected, got: n_args });
    }
    let ret = resolve_ty(&item.ret, table.name_of(target));
    proof {
        assert(item.model().ret == item.ret.model());
        assert(table.decls()[target.0 as int].name@ == recv_ty_name@);
    }
    Ok(ResolvedCall { target, item, ret })
}

} // verus!
