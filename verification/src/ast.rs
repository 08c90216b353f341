//! The abstract syntax seen by this pass, together with its mathematical
//! model: every syntax type has a ghost counterpart over `Seq<char>` names,
//! computed by the `*_model` spec functions below. Contracts throughout the
//! crate are stated over these models.

use vstd::prelude::*;

verus! {

/// Identifier of a declared nominal type: an index into the type table.
/// Unique per declared type name and stable for the whole analysis pass;
/// values are only ever produced by `TypeTable::declare`.
#[derive(Clone, Copy, PartialEq, Eq, Structural, Debug)]
pub struct TypeId(pub usize);

/// A type as written in a signature or as the target of a literal or a
/// qualified call: either the `Self` placeholder or a nominal type name.
#[derive(Debug)]
pub enum Ty {
    /// The `Self` placeholder, legal only lexically inside an impl block.
    SelfPlaceholder,
    /// A nominal type referred to by name.
    Named(String),
}

/// Model of `Ty`.
#[verifier::ext_equal]
pub enum TyModel {
    SelfPlaceholder,
    Named(Seq<char>),
}

impl Ty {
    pub open spec fn model(&self) -> TyModel {
        match self {
            Ty::SelfPlaceholder => TyModel::SelfPlaceholder,
            Ty::Named(n) => TyModel::Named(n@),
        }
    }
}

impl Clone for Ty {
    /// Structural copy: the clone has the same model.
    fn clone(&self) -> (r: Self)
        ensures
            r.model() == self.model(),
    {
        match self {
            Ty::SelfPlaceholder => Ty::SelfPlaceholder,
            Ty::Named(n) => Ty::Named(n.clone()),
        }
    }
}

/// Receiver marker of an associated item: absent for an associated
/// function, by-value or by-reference for a method.
#[derive(Clone, Copy, PartialEq, Eq, Structural, Debug)]
pub enum Receiver {
    Absent,
    ByValue,
    ByRef,
}


/// One field initializer inside a struct-literal expression.
#[derive(Debug)]
pub enum FieldInit {
    /// `name: expr`
    Explicit(String, Expr),
    /// Bare `name`, standing for `name: <local binding named name>`.
    Shorthand(String),
}

/// An expression, opaque to this pass except for the constructs it must
/// analyze: struct literals, qualified calls, method calls, and the local
/// bindings that field shorthand expands to.
#[derive(Debug)]
pub enum Expr {
    /// Anything this pass does not inspect.
    Opaque,
    /// A reference to a local binding.
    Local(String),
    /// A struct literal `target { inits }`; the target may be `Self`.
    Lit { target: Ty, inits: Vec<FieldInit> },
    /// A qualified call `target::item(args)`; the target may be `Self`.
    StaticCall { target: Ty, item: String, args: Vec<Expr> },
    /// A method call `recv.item(args)`; `recv_ty` is the receiver's static
    /// type, already assigned by the upstream type-inference collaborator.
    MethodCall { recv_ty: Ty, recv: Box<Expr>, item: String, args: Vec<Expr> },
}

/// Model of `FieldInit`.
#[verifier::ext_equal]
pub enum FieldInitModel {
    Explicit(Seq<char>, ExprModel),
    Shorthand(Seq<char>),
}

/// Model of `Expr`.
#[verifier::ext_equal]
pub enum ExprModel {
    Opaque,
    Local(Seq<char>),
    Lit { target: TyModel, inits: Seq<FieldInitModel> },
    StaticCall { target: TyModel, item: Seq<char>, args: Seq<ExprModel> },
    MethodCall { recv_ty: TyModel, recv: Box<ExprModel>, item: Seq<char>, args: Seq<ExprModel> },
}

impl FieldInitModel {
    /// The field name an initializer supplies, explicit or shorthand.
    pub open spec fn name(self) -> Seq<char> {
        match self {
            FieldInitModel::Explicit(n, _) => n,
            FieldInitModel::Shorthand(n) => n,
        }
    }
}

impl FieldInit {
    pub open spec fn model(&self) -> FieldInitModel
        decreases self,
    {
        match self {
            FieldInit::Explicit(n, e) => FieldInitModel::Explicit(n@, e.model()),
            FieldInit::Shorthand(n) => FieldInitModel::Shorthand(n@),
        }
    }
}

impl Expr {
    pub open spec fn model(&self) -> ExprModel
        decreases self,
    {
        match self {
            Expr::Opaque => ExprModel::Opaque,
            Expr::Local(n) => ExprModel::Local(n@),
            Expr::Lit { target, inits } => ExprModel::Lit {
                target: target.model(),
                inits: Seq::new(
                    inits@.len(),
                    |i: int|
                        if 0 <= i < inits@.len() {
                            inits@[i].model()
                        } else {
                            arbitrary()
                        },
                ),
            },
            Expr::StaticCall { target, item, args } => ExprModel::StaticCall {
                target: target.model(),
                item: item@,
                args: Seq::new(
                    args@.len(),
                    |i: int|
                        if 0 <= i < args@.len() {
                            args@[i].model()
                        } else {
                            arbitrary()
                        },
                ),
            },
            Expr::MethodCall { recv_ty, recv, item, args } => ExprModel::MethodCall {
                recv_ty: recv_ty.model(),
                recv: Box::new(recv.model()),
                item: item@,
                args: Seq::new(
                    args@.len(),
                    |i: int|
                        if 0 <= i < args@.len() {
                            args@[i].model()
                        } else {
                            arbitrary()
                        },
                ),
            },
        }
    }
}

/// An associated item declared in an impl block: a function or a method.
#[derive(Debug)]
pub struct AssociatedItem {
    /// Name under which the item is looked up in its type's namespace.
    pub name: String,
    /// Ordered parameter types, excluding the implicit receiver slot.
    pub params: Vec<Ty>,
    /// Return type.
    pub ret: Ty,
    /// Receiver marker: absent for an associated function.
    pub receiver: Receiver,
    /// Body: the expressions this pass must analyze, in source order.
    pub body: Vec<Expr>,
}

/// Model of `AssociatedItem`.
#[verifier::ext_equal]
pub struct ItemModel {
    pub name: Seq<char>,
    pub params: Seq<TyModel>,
    pub ret: TyModel,
    pub receiver: Receiver,
    pub body: Seq<ExprModel>,
}

impl AssociatedItem {
    pub open spec fn model(&self) -> ItemModel {
        ItemModel {
            name: self.name@,
            params: Seq::new(self.params@.len(), |i: int| self.params@[i].model()),
            ret: self.ret.model(),
            receiver: self.receiver,
            body: Seq::new(
                self.body@.len(),
                |i: int|
                    if 0 <= i < self.body@.len() {
                        self.body@[i].model()
                    } else {
                        arbitrary()
                    },
            ),
        }
    }
}

/// One declared struct field: its name and its declared type.
#[derive(Debug)]
pub struct FieldDecl {
    pub name: String,
    pub ty: Ty,
}

} // verus!
