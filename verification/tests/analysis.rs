//! End-to-end checks of the semantic-analysis core: the concrete scenarios
//! around `Point` and `Rectangle`, the merge / Self-resolution / literal
//! laws on concrete values, and one input for every diagnostic kind.

use implsem::ast::{AssociatedItem, Expr, FieldDecl, FieldInit, Receiver, Ty, TypeId};
use implsem::calls::{resolve_method_call, resolve_static_call};
use implsem::diag::{Diagnostic, Diagnostics};
use implsem::literal::{bind, BoundValue};
use implsem::registry::ImplRegistry;
use implsem::selfres::{resolve_expr, resolve_item, resolve_ty};
use implsem::table::TypeTable;

fn named(n: &str) -> Ty {
    Ty::Named(n.to_owned())
}

fn field(n: &str, ty: &str) -> FieldDecl {
    FieldDecl { name: n.to_owned(), ty: named(ty) }
}

fn ty_is(t: &Ty, expect: &str) -> bool {
    matches!(t, Ty::Named(n) if n == expect)
}

/// `origin() -> Point` — associated function, no receiver.
fn item_origin() -> AssociatedItem {
    AssociatedItem {
        name: "origin".to_owned(),
        params: vec![],
        ret: named("Point"),
        receiver: Receiver::Absent,
        body: vec![Expr::Lit {
            target: named("Point"),
            inits: vec![
                FieldInit::Explicit("x".to_owned(), Expr::Opaque),
                FieldInit::Explicit("y".to_owned(), Expr::Opaque),
            ],
        }],
    }
}

/// `new(x: f64, y: f64) -> Point`.
fn item_new() -> AssociatedItem {
    AssociatedItem {
        name: "new".to_owned(),
        params: vec![named("f64"), named("f64")],
        ret: named("Point"),
        receiver: Receiver::Absent,
        body: vec![Expr::Lit {
            target: named("Point"),
            inits: vec![
                FieldInit::Explicit("x".to_owned(), Expr::Local("x".to_owned())),
                FieldInit::Explicit("y".to_owned(), Expr::Local("y".to_owned())),
            ],
        }],
    }
}

/// `from(p1: Point, p2: Point) -> Self`, whose body is `Self { p1, p2 }`.
fn item_from() -> AssociatedItem {
    AssociatedItem {
        name: "from".to_owned(),
        params: vec![named("Point"), named("Point")],
        ret: Ty::SelfPlaceholder,
        receiver: Receiver::Absent,
        body: vec![Expr::Lit {
            target: Ty::SelfPlaceholder,
            inits: vec![
                FieldInit::Shorthand("p1".to_owned()),
                FieldInit::Shorthand("p2".to_owned()),
            ],
        }],
    }
}

/// The sample unit: `Point { x, y }`, `Rectangle { p1, p2 }`, one impl each.
fn sample() -> (TypeTable, ImplRegistry, TypeId, TypeId) {
    let mut table = TypeTable::new();
    let point = table
        .declare("Point".to_owned(), vec![field("x", "f64"), field("y", "f64")])
        .unwrap();
    let rect = table
        .declare(
            "Rectangle".to_owned(),
            vec![field("p1", "Point"), field("p2", "Point")],
        )
        .unwrap();
    let mut registry = ImplRegistry::new(table.len());
    let d1 = registry.register_impl(point, vec![item_origin(), item_new()]);
    let d2 = registry.register_impl(rect, vec![item_from()]);
    assert!(d1.is_empty());
    assert!(d2.is_empty());
    (table, registry, point, rect)
}

#[test]
fn point_origin_resolves_with_arity_zero() {
    let (table, registry, _, _) = sample();
    let rc = resolve_static_call(&table, &registry, &"Point".to_owned(), &"origin".to_owned(), 0)
        .unwrap();
    assert_eq!(rc.item.name, "origin");
    assert_eq!(rc.item.params.len(), 0);
    assert!(matches!(rc.item.receiver, Receiver::Absent));
    assert!(ty_is(&rc.ret, "Point"));
}

#[test]
fn point_new_resolves_with_arity_two() {
    let (table, registry, _, _) = sample();
    let rc = resolve_static_call(&table, &registry, &"Point".to_owned(), &"new".to_owned(), 2)
        .unwrap();
    assert_eq!(rc.item.name, "new");
    assert_eq!(rc.item.params.len(), 2);
    assert!(ty_is(&rc.ret, "Point"));
}

#[test]
fn rectangle_from_return_type_becomes_rectangle() {
    let (table, registry, _, _) = sample();
    let rc = resolve_static_call(&table, &registry, &"Rectangle".to_owned(), &"from".to_owned(), 2)
        .unwrap();
    assert_eq!(rc.item.name, "from");
    // the declaration still says `Self`; the resolved return type is concrete
    assert!(matches!(rc.item.ret, Ty::SelfPlaceholder));
    assert!(ty_is(&rc.ret, "Rectangle"));
}

#[test]
fn self_literal_in_from_body_binds_to_rectangle() {
    let (table, registry, _, rect) = sample();
    let item = registry.lookup_item(rect, &"from".to_owned()).unwrap();
    let resolved = resolve_item(item, &"Rectangle".to_owned());
    match &resolved.body[0] {
        Expr::Lit { target, inits } => {
            assert!(ty_is(target, "Rectangle"));
            let rl = match target {
                Ty::Named(n) => bind(&table, n, inits).unwrap(),
                Ty::SelfPlaceholder => unreachable!(),
            };
            assert_eq!(rl.fields.len(), 2);
            assert_eq!(rl.fields[0].0, "p1");
            assert!(matches!(rl.fields[0].1, BoundValue::FromBinding));
            assert_eq!(rl.fields[1].0, "p2");
            assert!(matches!(rl.fields[1].1, BoundValue::FromBinding));
        }
        _ => panic!("expected a struct literal in the body"),
    }
}

#[test]
fn literal_missing_a_field_is_reported() {
    let (table, _, _, _) = sample();
    let inits = vec![FieldInit::Shorthand("p1".to_owned())];
    let err = bind(&table, &"Rectangle".to_owned(), &inits).unwrap_err();
    assert!(matches!(err, Diagnostic::MissingField { name, .. } if name == "p2"));
}

#[test]
fn unknown_field_z_is_reported() {
    let (table, _, _, _) = sample();
    let inits = vec![
        FieldInit::Explicit("x".to_owned(), Expr::Opaque),
        FieldInit::Explicit("y".to_owned(), Expr::Opaque),
        FieldInit::Explicit("z".to_owned(), Expr::Opaque),
    ];
    let err = bind(&table, &"Point".to_owned(), &inits).unwrap_err();
    assert!(matches!(err, Diagnostic::UnknownField { name, .. } if name == "z"));
}

#[test]
fn arity_mismatch_one_for_two_is_reported() {
    let (table, registry, _, _) = sample();
    let err = resolve_static_call(&table, &registry, &"Point".to_owned(), &"new".to_owned(), 1)
        .unwrap_err();
    assert!(matches!(
        err,
        Diagnostic::ArityMismatch { expected: 2, got: 1 }
    ));
}

#[test]
fn disjoint_impl_blocks_merge_into_one_namespace() {
    // two impl blocks for Point contributing disjoint names: the namespace
    // holds exactly their union, in registration order, with no conflict.
    let mut table = TypeTable::new();
    let point = table
        .declare("Point".to_owned(), vec![field("x", "f64"), field("y", "f64")])
        .unwrap();
    let mut registry = ImplRegistry::new(table.len());
    let d1 = registry.register_impl(point, vec![item_origin()]);
    let d2 = registry.register_impl(point, vec![item_new()]);
    assert!(d1.is_empty());
    assert!(d2.is_empty());
    let ns = registry.namespace_of(point);
    assert_eq!(ns.len(), 2);
    assert_eq!(ns[0].0, "origin");
    assert_eq!(ns[1].0, "new");
    assert!(registry.lookup_item(point, &"origin".to_owned()).is_some());
    assert!(registry.lookup_item(point, &"new".to_owned()).is_some());
    assert!(registry.lookup_item(point, &"from".to_owned()).is_none());
}

#[test]
fn duplicate_item_first_registered_wins() {
    // a second `origin`, this time a method with one parameter: the conflict
    // is reported and the first declaration stays queryable.
    let mut table = TypeTable::new();
    let point = table
        .declare("Point".to_owned(), vec![field("x", "f64"), field("y", "f64")])
        .unwrap();
    let mut registry = ImplRegistry::new(table.len());
    let d1 = registry.register_impl(point, vec![item_origin()]);
    assert!(d1.is_empty());
    let second = AssociatedItem {
        name: "origin".to_owned(),
        params: vec![named("f64")],
        ret: named("Point"),
        receiver: Receiver::ByRef,
        body: vec![],
    };
    let d2 = registry.register_impl(point, vec![second]);
    assert_eq!(d2.len(), 1);
    assert!(matches!(
        &d2[0],
        Diagnostic::DuplicateAssociatedItem { name, .. } if name == "origin"
    ));
    let kept = registry.lookup_item(point, &"origin".to_owned()).unwrap();
    assert_eq!(kept.params.len(), 0);
    assert!(matches!(kept.receiver, Receiver::Absent));
    let ns = registry.namespace_of(point);
    assert_eq!(ns.len(), 1);
}

#[test]
fn self_resolution_is_idempotent_and_total() {
    let target = "Rectangle".to_owned();
    let once = resolve_item(&item_from(), &target);
    assert!(ty_is(&once.ret, "Rectangle"));
    for p in &once.params {
        assert!(!matches!(p, Ty::SelfPlaceholder));
    }
    let twice = resolve_item(&once, &target);
    assert!(ty_is(&twice.ret, "Rectangle"));
    match (&once.body[0], &twice.body[0]) {
        (Expr::Lit { target: t1, inits: i1 }, Expr::Lit { target: t2, inits: i2 }) => {
            assert!(ty_is(t1, "Rectangle"));
            assert!(ty_is(t2, "Rectangle"));
            assert_eq!(i1.len(), i2.len());
        }
        _ => panic!("expected literals"),
    }
}

#[test]
fn self_resolution_reaches_nested_call_targets() {
    let e = Expr::StaticCall {
        target: Ty::SelfPlaceholder,
        item: "origin".to_owned(),
        args: vec![Expr::MethodCall {
            recv_ty: Ty::SelfPlaceholder,
            recv: Box::new(Expr::Local("q".to_owned())),
            item: "norm".to_owned(),
            args: vec![],
        }],
    };
    let r = resolve_expr(&e, &"Point".to_owned());
    match r {
        Expr::StaticCall { target, args, .. } => {
            assert!(ty_is(&target, "Point"));
            match &args[0] {
                Expr::MethodCall { recv_ty, .. } => assert!(ty_is(recv_ty, "Point")),
                _ => panic!("expected a method call"),
            }
        }
        _ => panic!("expected a static call"),
    }
    let t = resolve_ty(&Ty::SelfPlaceholder, &"Point".to_owned());
    assert!(ty_is(&t, "Point"));
    let u = resolve_ty(&named("f64"), &"Point".to_owned());
    assert!(ty_is(&u, "f64"));
}

#[test]
fn shorthand_in_any_order_binds_in_declaration_order() {
    let (table, _, _, _) = sample();
    // source order y before x; the map is normalized to declaration order
    let inits = vec![
        FieldInit::Shorthand("y".to_owned()),
        FieldInit::Shorthand("x".to_owned()),
    ];
    let rl = bind(&table, &"Point".to_owned(), &inits).unwrap();
    assert_eq!(rl.fields.len(), 2);
    assert_eq!(rl.fields[0].0, "x");
    assert!(matches!(rl.fields[0].1, BoundValue::FromBinding));
    assert_eq!(rl.fields[1].0, "y");
    assert!(matches!(rl.fields[1].1, BoundValue::FromBinding));
}

#[test]
fn explicit_values_are_kept_in_the_map() {
    let (table, _, _, _) = sample();
    let inits = vec![
        FieldInit::Explicit("x".to_owned(), Expr::Local("a".to_owned())),
        FieldInit::Shorthand("y".to_owned()),
    ];
    let rl = bind(&table, &"Point".to_owned(), &inits).unwrap();
    match rl.fields[0].1 {
        BoundValue::FromInit(e) => {
            assert!(matches!(e, Expr::Local(n) if n == "a"))
        }
        _ => panic!("expected the explicit initializer's value"),
    }
    assert!(matches!(rl.fields[1].1, BoundValue::FromBinding));
}

#[test]
fn duplicate_field_init_is_reported() {
    let (table, _, _, _) = sample();
    let inits = vec![
        FieldInit::Explicit("x".to_owned(), Expr::Opaque),
        FieldInit::Shorthand("x".to_owned()),
    ];
    let err = bind(&table, &"Point".to_owned(), &inits).unwrap_err();
    assert!(matches!(err, Diagnostic::DuplicateFieldInit { name, .. } if name == "x"));
}

#[test]
fn duplicate_type_is_reported_and_first_kept() {
    let mut table = TypeTable::new();
    let first = table.declare("Point".to_owned(), vec![field("x", "f64")]).unwrap();
    let err = table
        .declare("Point".to_owned(), vec![field("a", "u8")])
        .unwrap_err();
    assert!(matches!(err, Diagnostic::DuplicateType { name } if name == "Point"));
    let found = table.lookup(&"Point".to_owned()).unwrap();
    assert_eq!(found, first);
    assert_eq!(table.fields_of(found).len(), 1);
    assert_eq!(table.fields_of(found)[0].name, "x");
}

#[test]
fn unknown_type_is_reported_everywhere() {
    let (table, registry, _, _) = sample();
    assert!(matches!(
        table.lookup(&"Circle".to_owned()).unwrap_err(),
        Diagnostic::UnknownType { name } if name == "Circle"
    ));
    assert!(matches!(
        resolve_static_call(&table, &registry, &"Circle".to_owned(), &"new".to_owned(), 0)
            .unwrap_err(),
        Diagnostic::UnknownType { name } if name == "Circle"
    ));
    assert!(matches!(
        bind(&table, &"Circle".to_owned(), &vec![]).unwrap_err(),
        Diagnostic::UnknownType { name } if name == "Circle"
    ));
}

#[test]
fn unknown_associated_item_is_reported() {
    let (table, registry, _, _) = sample();
    let err = resolve_static_call(&table, &registry, &"Point".to_owned(), &"norm".to_owned(), 0)
        .unwrap_err();
    assert!(matches!(
        err,
        Diagnostic::UnknownAssociatedItem { name, .. } if name == "norm"
    ));
}

#[test]
fn method_and_function_call_forms_are_distinguished() {
    let mut table = TypeTable::new();
    let point = table
        .declare("Point".to_owned(), vec![field("x", "f64"), field("y", "f64")])
        .unwrap();
    let mut registry = ImplRegistry::new(table.len());
    let norm = AssociatedItem {
        name: "norm".to_owned(),
        params: vec![],
        ret: named("f64"),
        receiver: Receiver::ByRef,
        body: vec![],
    };
    let d = registry.register_impl(point, vec![item_origin(), norm]);
    assert!(d.is_empty());
    // a method through the qualified form
    let err = resolve_static_call(&table, &registry, &"Point".to_owned(), &"norm".to_owned(), 0)
        .unwrap_err();
    assert!(matches!(
        err,
        Diagnostic::MethodCalledAsFunction { name, .. } if name == "norm"
    ));
    // an associated function through the method form
    let err = resolve_method_call(&table, &registry, &"Point".to_owned(), &"origin".to_owned(), 0)
        .unwrap_err();
    assert!(matches!(
        err,
        Diagnostic::FunctionCalledAsMethod { name, .. } if name == "origin"
    ));
    // the correct method call succeeds
    let rc = resolve_method_call(&table, &registry, &"Point".to_owned(), &"norm".to_owned(), 0)
        .unwrap();
    assert_eq!(rc.item.name, "norm");
    assert!(ty_is(&rc.ret, "f64"));
}

#[test]
fn empty_namespace_and_empty_field_list_are_valid() {
    let mut table = TypeTable::new();
    let unit = table.declare("Unit".to_owned(), vec![]).unwrap();
    let registry = ImplRegistry::new(table.len());
    assert_eq!(registry.namespace_of(unit).len(), 0);
    assert!(registry.lookup_item(unit, &"anything".to_owned()).is_none());
    let empty: Vec<FieldInit> = vec![];
    let rl = bind(&table, &"Unit".to_owned(), &empty).unwrap();
    assert_eq!(rl.fields.len(), 0);
}

#[test]
fn diagnostics_sink_accumulates_in_order() {
    let mut sink = Diagnostics::new();
    assert_eq!(sink.len(), 0);
    sink.push(Diagnostic::UnknownType { name: "A".to_owned() });
    sink.append(vec![
        Diagnostic::DuplicateType { name: "B".to_owned() },
        Diagnostic::ArityMismatch { expected: 2, got: 1 },
    ]);
    assert_eq!(sink.len(), 3);
    assert!(matches!(sink.get(0), Diagnostic::UnknownType { name } if name == "A"));
    assert!(matches!(sink.get(1), Diagnostic::DuplicateType { name } if name == "B"));
    assert!(matches!(
        sink.get(2),
        Diagnostic::ArityMismatch { expected: 2, got: 1 }
    ));
}

#[test]
fn duplicate_within_one_block_is_also_a_conflict() {
    let mut table = TypeTable::new();
    let point = table
        .declare("Point".to_owned(), vec![field("x", "f64"), field("y", "f64")])
        .unwrap();
    let mut registry = ImplRegistry::new(table.len());
    let twin = AssociatedItem {
        name: "origin".to_owned(),
        params: vec![named("f64")],
        ret: named("Point"),
        receiver: Receiver::Absent,
        body: vec![],
    };
    let d = registry.register_impl(point, vec![item_origin(), twin]);
    assert_eq!(d.len(), 1);
    assert!(matches!(
        &d[0],
        Diagnostic::DuplicateAssociatedItem { name, .. } if name == "origin"
    ));
    let kept = registry.lookup_item(point, &"origin".to_owned()).unwrap();
    assert_eq!(kept.params.len(), 0);
}

#[test]
fn conflicts_are_reported_in_item_order() {
    let mut table = TypeTable::new();
    let point = table
        .declare("Point".to_owned(), vec![field("x", "f64"), field("y", "f64")])
        .unwrap();
    let mut registry = ImplRegistry::new(table.len());
    let d = registry.register_impl(point, vec![item_origin(), item_new()]);
    assert!(d.is_empty());
    // a block redeclaring both: one conflict per item, in item order
    let d = registry.register_impl(point, vec![item_new(), item_origin()]);
    assert_eq!(d.len(), 2);
    assert!(matches!(&d[0], Diagnostic::DuplicateAssociatedItem { name, .. } if name == "new"));
    assert!(matches!(&d[1], Diagnostic::DuplicateAssociatedItem { name, .. } if name == "origin"));
    // the namespace is unchanged
    assert_eq!(registry.namespace_of(point).len(), 2);
}
