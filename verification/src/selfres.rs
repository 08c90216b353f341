//! The Self resolver: rewrites every occurrence of the `Self` placeholder
//! inside an impl block's item signatures and bodies to the block's concrete
//! target type.
//!
//! Substitution is structural and total: `Self` is only legal lexically
//! inside an impl block, whose target is fixed at registration time, so
//! there is no failure path. It is also idempotent — a resolved view
//! contains no placeholder, and resolving it again is a no-op — which
//! matters because call resolution and literal binding may request the
//! resolved view of the same item more than once.

use vstd::prelude::*;
use crate::ast::{
    AssociatedItem, Expr, ExprModel, FieldInit, FieldInitModel, ItemModel, Ty, TyModel,
};

verus! {

/// Substitution on a type: the placeholder becomes the target's name; a
/// nominal type is untouched.
pub open spec fn subst_ty(t: TyModel, target: Seq<char>) -> TyModel {
    match t {
        TyModel::SelfPlaceholder => TyModel::Named(target),
        TyModel::Named(n) => TyModel::Named(n),
    }
}

/// Substitution inside one field initializer of a nested literal.
pub open spec fn subst_init(fi: FieldInitModel, target: Seq<char>) -> FieldInitModel
    decreases fi,
{
    match fi {
        FieldInitModel::Explicit(n, e) => FieldInitModel::Explicit(n, subst_expr(e, target)),
        FieldInitModel::Shorthand(n) => FieldInitModel::Shorthand(n),
    }
}

/// Substitution on an expression: the placeholder is replaced in nested
/// literal targets, in static-call targets, in receiver types, and in every
/// subexpression; everything else is untouched.
pub open spec fn subst_expr(e: ExprModel, target: Seq<char>) -> ExprModel
    decreases e,
{
    match e {
        ExprModel::Opaque => ExprModel::Opaque,
        ExprModel::Local(n) => ExprModel::Local(n),
        ExprModel::Lit { target: t, inits } => ExprModel::Lit {
            target: subst_ty(t, target),
            inits: Seq::new(
                inits.len(),
                |i: int|
                    if 0 <= i < inits.len() {
                        subst_init(inits[i], target)
                    } else {
                        arbitrary()
                    },
            ),
        },
        ExprModel::StaticCall { target: t, item, args } => ExprModel::StaticCall {
            target: subst_ty(t, target),
            item: item,
            args: Seq::new(
                args.len(),
                |i: int|
                    if 0 <= i < args.len() {
                        subst_expr(args[i], target)
                    } else {
                        arbitrary()
                    },
            ),
        },
        ExprModel::MethodCall { recv_ty, recv, item, args } => ExprModel::MethodCall {
            recv_ty: subst_ty(recv_ty, target),
            recv: Box::new(subst_expr(*recv, target)),
            item: item,
            args: Seq::new(
                args.len(),
                |i: int|
                    if 0 <= i < args.len() {
                        subst_expr(args[i], target)
                    } else {
                        arbitrary()
                    },
            ),
        },
    }
}

/// Substitution on a whole associated item: every parameter type, the
/// return type, and the body.
pub open spec fn subst_item(it: ItemModel, target: Seq<char>) -> ItemModel {
    ItemModel {
        name: it.name,
        params: Seq::new(it.params.len(), |i: int| subst_ty(it.params[i], target)),
        ret: subst_ty(it.ret, target),
        receiver: it.receiver,
        body: Seq::new(
            it.body.len(),
            |i: int|
                if 0 <= i < it.body.len() {
                    subst_expr(it.body[i], target)
                } else {
                    arbitrary()
                },
        ),
    }
}

/// A type that carries no `Self` placeholder.
pub open spec fn ty_no_self(t: TyModel) -> bool {
    !(t is SelfPlaceholder)
}

/// A field initializer whose value carries no `Self` placeholder.
pub open spec fn init_no_self(fi: FieldInitModel) -> bool
    decreases fi,
{
    match fi {
        FieldInitModel::Explicit(_, e) => expr_no_self(e),
        FieldInitModel::Shorthand(_) => true,
    }
}

/// An expression with no `Self` placeholder anywhere inside it.
pub open spec fn expr_no_self(e: ExprModel) -> bool
    decreases e,
{
    match e {
        ExprModel::Opaque => true,
        ExprModel::Local(_) => true,
        ExprModel::Lit { target: t, inits } => ty_no_self(t) && (forall|i: int|
            0 <= i < inits.len() ==> init_no_self(#[trigger] inits[i])),
        ExprModel::StaticCall { target: t, item: _, args } => ty_no_self(t) && (forall|i: int|
            0 <= i < args.len() ==> expr_no_self(#[trigger] args[i])),
        ExprModel::MethodCall { recv_ty, recv, item: _, args } => ty_no_self(recv_ty)
            && expr_no_self(*recv) && (forall|i: int|
            0 <= i < args.len() ==> expr_no_self(#[trigger] args[i])),
    }
}

/// An associated item whose signature and body carry no `Self` placeholder.
pub open spec fn item_no_self(it: ItemModel) -> bool {
    &&& forall|i: int| 0 <= i < it.params.len() ==> ty_no_self(#[trigger] it.params[i])
    &&& ty_no_self(it.ret)
    &&& forall|i: int| 0 <= i < it.body.len() ==> expr_no_self(#[trigger] it.body[i])
}

/// Substitution sends the placeholder to the target and nothing else
/// anywhere: on types this is the whole story.
pub proof fn lemma_subst_ty_resolves(t: TyModel, target: Seq<char>)
    ensures
        t is SelfPlaceholder ==> subst_ty(t, target) == TyModel::Named(target),
        t is Named ==> subst_ty(t, target) == t,
{
}

/// Every occurrence of the placeholder in a substituted field initializer
/// has been resolved away.
pub proof fn lemma_subst_init_no_self(fi: FieldInitModel, target: Seq<char>)
    ensures
        init_no_self(subst_init(fi, target)),
    decreases fi,
{
    match fi {
        FieldInitModel::Explicit(_, e) => lemma_subst_expr_no_self(e, target),
        FieldInitModel::Shorthand(_) => (),
    }
}

/// Every occurrence of the placeholder in a substituted expression has been
/// resolved away: substitution leaves no `Self` behind.
pub proof fn lemma_subst_expr_no_self(e: ExprModel, target: Seq<char>)
    ensures
        expr_no_self(subst_expr(e, target)),
    decreases e,
{
    match e {
        ExprModel::Opaque => (),
        ExprModel::Local(_) => (),
        ExprModel::Lit { target: t, inits } => {
            let r = subst_expr(e, target);
            assert forall|i: int| 0 <= i < r->Lit_inits.len() implies init_no_self(
                #[trigger] r->Lit_inits[i],
            ) by {
                lemma_subst_init_no_self(inits[i], target);
            }
        },
        ExprModel::StaticCall { target: t, item, args } => {
            let r = subst_expr(e, target);
            assert forall|i: int| 0 <= i < r->StaticCall_args.len() implies expr_no_self(
                #[trigger] r->StaticCall_args[i],
            ) by {
                lemma_subst_expr_no_self(args[i], target);
            }
        },
        ExprModel::MethodCall { recv_ty, recv, item, args } => {
            let r = subst_expr(e, target);
            lemma_subst_expr_no_self(*recv, target);
            assert forall|i: int| 0 <= i < r->MethodCall_args.len() implies expr_no_self(
                #[trigger] r->MethodCall_args[i],
            ) by {
                lemma_subst_expr_no_self(args[i], target);
            }
        },
    }
}

/// Substituting into a field initializer that carries no placeholder is a
/// no-op.
pub proof fn lemma_subst_init_noop(fi: FieldInitModel, target: Seq<char>)
    requires
        init_no_self(fi),
    ensures
        subst_init(fi, target) == fi,
    decreases fi,
{
    match fi {
        FieldInitModel::Explicit(_, e) => lemma_subst_expr_noop(e, target),
        FieldInitModel::Shorthand(_) => (),
    }
}

/// Substituting into an expression that carries no placeholder is a no-op.
pub proof fn lemma_subst_expr_noop(e: ExprModel, target: Seq<char>)
    requires
        expr_no_self(e),
    ensures
        subst_expr(e, target) == e,
    decreases e,
{
    match e {
        ExprModel::Opaque => (),
        ExprModel::Local(_) => (),
        ExprModel::Lit { target: t, inits } => {
            assert forall|i: int| 0 <= i < inits.len() implies subst_init(
                #[trigger] inits[i],
                target,
            ) == inits[i] by {
                lemma_subst_init_noop(inits[i], target);
            }
            assert(subst_expr(e, target)->Lit_inits =~= inits);
            assert(subst_expr(e, target) =~= e);
        },
        ExprModel::StaticCall { target: t, item, args } => {
            assert forall|i: int| 0 <= i < args.len() implies subst_expr(
                #[trigger] args[i],
                target,
            ) == args[i] by {
                lemma_subst_expr_noop(args[i], target);
            }
            assert(subst_expr(e, target)->StaticCall_args =~= args);
            assert(subst_expr(e, target) =~= e);
        },
        ExprModel::MethodCall { recv_ty, recv, item, args } => {
            lemma_subst_expr_noop(*recv, target);
            assert forall|i: int| 0 <= i < args.len() implies subst_expr(
                #[trigger] args[i],
                target,
            ) == args[i] by {
                lemma_subst_expr_noop(args[i], target);
            }
            assert(subst_expr(e, target)->MethodCall_args =~= args);
            assert(subst_expr(e, target) =~= e);
        },
    }
}

/// Resolving is idempotent on expressions: resolving twice equals resolving
/// once.
pub proof fn lemma_subst_expr_idempotent(e: ExprModel, target: Seq<char>)
    ensures
        subst_expr(subst_expr(e, target), target) == subst_expr(e, target),
{
    lemma_subst_expr_no_self(e, target);
    lemma_subst_expr_noop(subst_expr(e, target), target);
}

/// A resolved item's signature and body carry no placeholder: every
/// occurrence of `Self` has been resolved to the target.
pub proof fn lemma_subst_item_no_self(it: ItemModel, target: Seq<char>)
    ensures
        item_no_self(subst_item(it, target)),
{
    let r = subst_item(it, target);
    assert forall|i: int| 0 <= i < r.body.len() implies expr_no_self(#[trigger] r.body[i]) by {
        lemma_subst_expr_no_self(it.body[i], target);
    }
}

/// Resolving is idempotent on whole items: re-resolving an already-resolved
/// item is a no-op.
pub proof fn lemma_subst_item_idempotent(it: ItemModel, target: Seq<char>)
    ensures
        subst_item(subst_item(it, target), target) == subst_item(it, target),
{
    let r = subst_item(it, target);
    assert forall|i: int| 0 <= i < r.body.len() implies subst_expr(
        #[trigger] r.body[i],
        target,
    ) == r.body[i] by {
        lemma_subst_expr_no_self(it.body[i], target);
        lemma_subst_expr_noop(subst_expr(it.body[i], target), target);
    }
    assert(subst_item(r, target) =~= r);
}

/// Resolve one type reference against the impl block's target type name.
pub fn resolve_ty(t: &Ty, target: &String) -> (r: Ty)
    ensures
        r.model() == subst_ty(t.model(), target@),
{
    match t {
        Ty::SelfPlaceholder => Ty::Named(target.clone()),
        Ty::Named(n) => Ty::Named(n.clone()),
    }
}

/// Resolve one field initializer of a nested literal.
#[verifier::loop_isolation(false)]
pub fn resolve_init(fi: &FieldInit, target: &String) -> (r: FieldInit)
    ensures
        r.model() == subst_init(fi.model(), target@),
    decreases fi,
{
    match fi {
        FieldInit::Explicit(n, e) => FieldInit::Explicit(n.clone(), resolve_expr(e, target)),
        FieldInit::Shorthand(n) => FieldInit::Shorthand(n.clone()),
    }
}

/// Resolve one expression: replace every `Self` inside it by the target
/// type. Total — there is no failure path.
#[verifier::loop_isolation(false)]
pub fn resolve_expr(e: &Expr, target: &String) -> (r: Expr)
    ensures
        r.model() == subst_expr(e.model(), target@),
    decreases e,
{
    match e {
        Expr::Opaque => Expr::Opaque,
        Expr::Local(n) => Expr::Local(n.clone()),
        Expr::Lit { target: t, inits } => {
            let rt = resolve_ty(t, target);
            let mut out: Vec<FieldInit> = Vec::new();
            let n = inits.len();
            let mut i: usize = 0;
            while i < n
                invariant
                    i <= n,
                    out@.len() == i,
                    forall|j: int|
                        0 <= j < i ==> (#[trigger] out@[j]).model() == subst_init(
                            inits@[j].model(),
                            target@,
                        ),
                decreases n - i,
            {
                out.push(resolve_init(&inits[i], target));
                i += 1;
            }
            let r = Expr::Lit { target: rt, inits: out };
            proof {
                assert(r.model()->Lit_inits =~= subst_expr(e.model(), target@)->Lit_inits);
                assert(r.model() =~= subst_expr(e.model(), target@));
            }
            r
        },
        Expr::StaticCall { target: t, item, args } => {
            let rt = resolve_ty(t, target);
            let out = resolve_exprs(args, target);
            let r = Expr::StaticCall { target: rt, item: item.clone(), args: out };
            proof {
                assert(r.model()->StaticCall_args =~= subst_expr(e.model(), target@)->StaticCall_args);
                assert(r.model() =~= subst_expr(e.model(), target@));
            }
            r
        },
        Expr::MethodCall { recv_ty, recv, item, args } => {
            let rt = resolve_ty(recv_ty, target);
            let rr = resolve_expr(recv, target);
            let out = resolve_exprs(args, target);
            let r = Expr::MethodCall {
                recv_ty: rt,
                recv: Box::new(rr),
                item: item.clone(),
                args: out,
            };
            proof {
                assert(r.model()->MethodCall_args =~= subst_expr(e.model(), target@)->MethodCall_args);
                assert(r.model() =~= subst_expr(e.model(), target@));
            }
            r
        },
    }
}

/// Resolve a list of expressions elementwise, keeping the order.
#[verifier::loop_isolation(false)]
pub fn resolve_exprs(es: &Vec<Expr>, target: &String) -> (r: Vec<Expr>)
    ensures
        r@.len() == es@.len(),
        forall|i: int|
            0 <= i < es@.len() ==> (#[trigger] r@[i]).model() == subst_expr(
                es@[i].model(),
                target@,
            ),
    decreases es,
{
    let mut out: Vec<Expr> = Vec::new();
    let n = es.len();
    let mut i: usize = 0;
    while i < n
        invariant
            i <= n,
            out@.len() == i,
            forall|j: int|
                0 <= j < i ==> (#[trigger] out@[j]).model() == subst_expr(
                    es@[j].model(),
                    target@,
                ),
        decreases n - i,
    {
        out.push(resolve_expr(&es[i], target));
        i += 1;
    }
    out
}

/// Resolve a whole associated item: the resolved view's model is exactly
/// the substituted model of the declared item.
#[verifier::loop_isolation(false)]
pub fn resolve_item(it: &AssociatedItem, target: &String) -> (r: AssociatedItem)
    ensures
        r.model() == subst_item(it.model(), target@),
{
    let mut params: Vec<Ty> = Vec::new();
    let np = it.params.len();
    let mut i: usize = 0;
    while i < np
        invariant
            i <= np,
            params@.len() == i,
            forall|j: int|
                0 <= j < i ==> (#[trigger] params@[j]).model() == subst_ty(
                    it.params@[j].model(),
                    target@,
                ),
        decreases np - i,
    {
        params.push(resolve_ty(&it.params[i], target));
        i += 1;
    }
    let ret = resolve_ty(&it.ret, target);
    let body = resolve_exprs(&it.body, target);
    let r = AssociatedItem {
        name: it.name.clone(),
        params,
        ret,
        receiver: it.receiver,
        body,
    };
    proof {
        assert(r.model() =~= subst_item(it.model(), target@));
    }
    r
}

/// Resolve every associated item of one impl block against the block's
/// target type: the resolved view of the whole block, in item order.
#[verifier::loop_isolation(false)]
pub fn resolve_block_items(items: &Vec<AssociatedItem>, target: &String) -> (r: Vec<
    AssociatedItem,
>)
    ensures
        r@.len() == items@.len(),
        forall|i: int|
            0 <= i < items@.len() ==> (#[trigger] r@[i]).model() == subst_item(
                items@[i].model(),
                target@,
            ),
{
    let mut out: Vec<AssociatedItem> = Vec::new();
    let n = items.len();
    let mut i: usize = 0;
    while i < n
        invariant
            i <= n,
            out@.len() == i,
            forall|j: int|
                0 <= j < i ==> (#[trigger] out@[j]).model() == subst_item(
                    items@[j].model(),
                    target@,
                ),
        decreases n - i,
    {
        out.push(resolve_item(&items[i], target));
        i += 1;
    }
    out
}

} // verus!
