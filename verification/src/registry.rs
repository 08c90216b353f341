//! The impl registry: collects all impl blocks per target type and folds
//! their associated items into one namespace per type, detecting
//! duplicate-name conflicts at merge time.
//!
//! The conflict policy is deterministic: the first-registered declaration
//! wins and is retained; a later declaration with the same name for the same
//! target type is reported as `DuplicateAssociatedItem` and not applied.
//! Registration order is the order impl blocks appear in the source.
//!
//! The registry owns the impl blocks (and so the items); a namespace entry
//! holds only the item-name key and the position of the item inside its
//! block, never a second copy of the declaration.

use vstd::prelude::*;
use crate::ast::{AssociatedItem, ItemModel, TypeId};
use crate::diag::{DiagModel, Diagnostic, diags_model};

verus! {

/// One impl block: the target type it references and the associated items
/// it owns.
#[derive(Debug)]
pub struct ImplBlock {
    pub target: TypeId,
    pub items: Vec<AssociatedItem>,
}

/// One merged-namespace binding, at the model level: an item name and the
/// declaration it designates.
#[verifier::ext_equal]
pub struct BindingModel {
    pub name: Seq<char>,
    pub item: ItemModel,
}

/// Elementwise model of a list of associated items.
pub open spec fn items_models(s: Seq<AssociatedItem>) -> Seq<ItemModel> {
    Seq::new(s.len(), |i: int| s[i].model())
}

/// The names bound by a namespace, in registration order.
pub open spec fn ns_names(ns: Seq<BindingModel>) -> Seq<Seq<char>> {
    Seq::new(ns.len(), |i: int| ns[i].name)
}

/// Whether `names` contains `n`.
pub open spec fn name_in(names: Seq<Seq<char>>, n: Seq<char>) -> bool {
    exists|i: int| 0 <= i < names.len() && names[i] == n
}

/// Whether the namespace binds `n`.
pub open spec fn ns_contains(ns: Seq<BindingModel>, n: Seq<char>) -> bool {
    name_in(ns_names(ns), n)
}

/// The position at which the namespace binds `n`, if it does.
pub open spec fn ns_index(ns: Seq<BindingModel>, n: Seq<char>) -> int {
    choose|i: int| 0 <= i < ns.len() && ns[i].name == n
}

/// The item the namespace binds to `n` (meaningful when `ns_contains`).
pub open spec fn ns_binding(ns: Seq<BindingModel>, n: Seq<char>) -> ItemModel {
    ns[ns_index(ns, n)].item
}

/// At most one binding per name: the merge invariant of every namespace.
pub open spec fn unique_names(ns: Seq<BindingModel>) -> bool {
    forall|i: int, j: int| 0 <= i < j < ns.len() ==> ns[i].name != ns[j].name
}

/// The bindings that folding `items` into a namespace already holding the
/// names `have` adds, in registration order: an item whose name is already
/// taken (by `have` or by an earlier item of the same batch) is dropped;
/// every other item is appended.
pub open spec fn accepted(have: Seq<Seq<char>>, items: Seq<ItemModel>) -> Seq<BindingModel>
    decreases items.len(),
{
    if items.len() == 0 {
        Seq::empty()
    } else {
        let it = items[0];
        if name_in(have, it.name) {
            accepted(have, items.drop_first())
        } else {
            seq![BindingModel { name: it.name, item: it }] + accepted(
                have.push(it.name),
                items.drop_first(),
            )
        }
    }
}

/// The names taken after folding `items` into names `have`.
pub open spec fn taken_names(have: Seq<Seq<char>>, items: Seq<ItemModel>) -> Seq<Seq<char>>
    decreases items.len(),
{
    if items.len() == 0 {
        have
    } else {
        let it = items[0];
        if name_in(have, it.name) {
            taken_names(have, items.drop_first())
        } else {
            taken_names(have.push(it.name), items.drop_first())
        }
    }
}

/// The conflicts that folding `items` into names `have` reports for target
/// `t`, in registration order: one `DuplicateAssociatedItem` per dropped
/// item.
pub open spec fn merge_diags(t: TypeId, have: Seq<Seq<char>>, items: Seq<ItemModel>) -> Seq<
    DiagModel,
>
    decreases items.len(),
{
    if items.len() == 0 {
        Seq::empty()
    } else {
        let it = items[0];
        if name_in(have, it.name) {
            seq![DiagModel::DuplicateAssociatedItem { target: t, name: it.name }] + merge_diags(
                t,
                have,
                items.drop_first(),
            )
        } else {
            merge_diags(t, have.push(it.name), items.drop_first())
        }
    }
}

/// Folding one more item at the end: it is accepted exactly when its name is
/// not yet taken.
pub proof fn lemma_fold_snoc(t: TypeId, have: Seq<Seq<char>>, items: Seq<ItemModel>, x: ItemModel)
    ensures
        accepted(have, items.push(x)) == if name_in(taken_names(have, items), x.name) {
            accepted(have, items)
        } else {
            accepted(have, items).push(BindingModel { name: x.name, item: x })
        },
        taken_names(have, items.push(x)) == if name_in(taken_names(have, items), x.name) {
            taken_names(have, items)
        } else {
            taken_names(have, items).push(x.name)
        },
        merge_diags(t, have, items.push(x)) == if name_in(taken_names(have, items), x.name) {
            merge_diags(t, have, items).push(
                DiagModel::DuplicateAssociatedItem { target: t, name: x.name },
            )
        } else {
            merge_diags(t, have, items)
        },
    decreases items.len(),
{
    if items.len() == 0 {
        assert(accepted(have, items) == Seq::<BindingModel>::empty());
        assert(taken_names(have, items) == have);
        assert(merge_diags(t, have, items) == Seq::<DiagModel>::empty());
        assert(items.push(x).len() == 1);
        assert(items.push(x)[0] == x);
        assert(items.push(x).drop_first() =~= items);
        assert(accepted(have.push(x.name), items) == Seq::<BindingModel>::empty());
        assert(taken_names(have.push(x.name), items) == have.push(x.name));
        assert(merge_diags(t, have.push(x.name), items) == Seq::<DiagModel>::empty());
        if !name_in(have, x.name) {
            assert(accepted(have, items.push(x)) =~= accepted(have, items).push(
                BindingModel { name: x.name, item: x },
            ));
            assert(taken_names(have, items.push(x)) =~= taken_names(have, items).push(x.name));
        } else {
            assert(merge_diags(t, have, items.push(x)) =~= merge_diags(t, have, items).push(
                DiagModel::DuplicateAssociatedItem { target: t, name: x.name },
            ));
        }

    } else {
        let it = items[0];
        let rest = items.drop_first();
        let d_it = DiagModel::DuplicateAssociatedItem { target: t, name: it.name };
        let b_x = BindingModel { name: x.name, item: x };
        assert(items.push(x).len() == items.len() + 1);
        assert(items.push(x)[0] == it);
        assert(items.push(x).drop_first() =~= rest.push(x));
        if name_in(have, it.name) {
            lemma_fold_snoc(t, have, rest, x);
            // unfold both sides once
            assert(accepted(have, items) == accepted(have, rest));
            assert(taken_names(have, items) == taken_names(have, rest));
            assert(merge_diags(t, have, items) == seq![d_it] + merge_diags(t, have, rest));
            assert(accepted(have, items.push(x)) == accepted(have, rest.push(x)));
            assert(taken_names(have, items.push(x)) == taken_names(have, rest.push(x)));
            assert(merge_diags(t, have, items.push(x)) == seq![d_it] + merge_diags(
                t,
                have,
                rest.push(x),
            ));
            if name_in(taken_names(have, rest), x.name) {
                assert(merge_diags(t, have, items.push(x)) =~= merge_diags(t, have, items).push(
                    DiagModel::DuplicateAssociatedItem { target: t, name: x.name },
                ));
            }
        } else {
            let have1 = have.push(it.name);
            lemma_fold_snoc(t, have1, rest, x);
            let b_it = BindingModel { name: it.name, item: it };
            assert(accepted(have, items) == seq![b_it] + accepted(have1, rest));
            assert(taken_names(have, items) == taken_names(have1, rest));
            assert(merge_diags(t, have, items) == merge_diags(t, have1, rest));
            assert(accepted(have, items.push(x)) == seq![b_it] + accepted(have1, rest.push(x)));
            assert(taken_names(have, items.push(x)) == taken_names(have1, rest.push(x)));
            assert(merge_diags(t, have, items.push(x)) == merge_diags(t, have1, rest.push(x)));
            if !name_in(taken_names(have1, rest), x.name) {
                assert(accepted(have, items.push(x)) =~= accepted(have, items).push(b_x));
            }
        }
    }
}

/// The bindings of a batch whose names are all fresh: every item becomes a
/// binding, in order.
pub open spec fn all_bindings(items: Seq<ItemModel>) -> Seq<BindingModel> {
    Seq::new(items.len(), |i: int| BindingModel { name: items[i].name, item: items[i] })
}

/// Impl blocks contributing disjoint item names merge without loss: every
/// item is accepted, in order, and no conflict is reported. Together with
/// `register_impl`'s contract, the merged namespace of a type whose blocks
/// contribute disjoint names holds exactly the union of their items.
pub proof fn lemma_disjoint_merge(t: TypeId, have: Seq<Seq<char>>, items: Seq<ItemModel>)
    requires
        forall|i: int| 0 <= i < items.len() ==> !name_in(have, (#[trigger] items[i]).name),
        forall|i: int, j: int|
            0 <= i < j < items.len() ==> (#[trigger] items[i]).name != (#[trigger] items[j]).name,
    ensures
        accepted(have, items) == all_bindings(items),
        merge_diags(t, have, items) == Seq::<DiagModel>::empty(),
    decreases items.len(),
{
    if items.len() == 0 {
        assert(accepted(have, items) =~= all_bindings(items));
        assert(merge_diags(t, have, items) =~= Seq::<DiagModel>::empty());
    } else {
        let it = items[0];
        let rest = items.drop_first();
        let have1 = have.push(it.name);
        assert forall|i: int| 0 <= i < rest.len() implies !name_in(
            have1,
            (#[trigger] rest[i]).name,
        ) by {
            assert(rest[i] == items[i + 1]);
            assert(items[i + 1].name != it.name);
            if name_in(have1, rest[i].name) {
                let w = choose|w: int| 0 <= w < have1.len() && have1[w] == rest[i].name;
                if w < have.len() {
                    assert(have[w] == rest[i].name);
                    assert(name_in(have, items[i + 1].name));
                }
            }
        }
        assert forall|i: int, j: int| 0 <= i < j < rest.len() implies (#[trigger] rest[i]).name
            != (#[trigger] rest[j]).name by {
            assert(rest[i] == items[i + 1]);
            assert(rest[j] == items[j + 1]);
        }
        lemma_disjoint_merge(t, have1, rest);
        assert(!name_in(have, it.name));
        assert(accepted(have, items) == seq![BindingModel { name: it.name, item: it }]
            + all_bindings(rest));
        assert(accepted(have, items) =~= all_bindings(items));
        assert(merge_diags(t, have, items) == merge_diags(t, have1, rest));
    }
}

/// A concatenated namespace binds a name exactly when one of its parts does.
pub proof fn lemma_concat_contains(ns1: Seq<BindingModel>, ns2: Seq<BindingModel>, n: Seq<char>)
    ensures
        ns_contains(ns1 + ns2, n) <==> (ns_contains(ns1, n) || ns_contains(ns2, n)),
{
    if ns_contains(ns1 + ns2, n) {
        let i = choose|i: int|
            0 <= i < ns_names(ns1 + ns2).len() && ns_names(ns1 + ns2)[i] == n;
        assert((ns1 + ns2)[i].name == n);
        if i < ns1.len() {
            assert(ns_names(ns1)[i] == n);
        } else {
            assert(ns_names(ns2)[i - ns1.len()] == n);
        }
    }
    if ns_contains(ns1, n) {
        let i = choose|i: int| 0 <= i < ns_names(ns1).len() && ns_names(ns1)[i] == n;
        assert((ns1 + ns2)[i].name == n);
        assert(ns_names(ns1 + ns2)[i] == n);
    }
    if ns_contains(ns2, n) {
        let i = choose|i: int| 0 <= i < ns_names(ns2).len() && ns_names(ns2)[i] == n;
        assert((ns1 + ns2)[ns1.len() + i].name == n);
        assert(ns_names(ns1 + ns2)[ns1.len() + i] == n);
    }
}

/// The bindings of a batch hold a name exactly when some item carries it.
pub proof fn lemma_all_bindings_contains(items: Seq<ItemModel>, n: Seq<char>)
    ensures
        ns_contains(all_bindings(items), n) <==> (exists|i: int|
            0 <= i < items.len() && (#[trigger] items[i]).name == n),
{
    if ns_contains(all_bindings(items), n) {
        let i = choose|i: int|
            0 <= i < ns_names(all_bindings(items)).len() && ns_names(all_bindings(items))[i]
                == n;
        assert(items[i].name == n);
    }
    if exists|i: int| 0 <= i < items.len() && (#[trigger] items[i]).name == n {
        let i = choose|i: int| 0 <= i < items.len() && (#[trigger] items[i]).name == n;
        assert(ns_names(all_bindings(items))[i] == n);
    }
}

/// An appended binding is the one a later lookup returns: with at most one
/// binding per name over the whole namespace, each appended name is bound to
/// exactly the item that was appended under it.
pub proof fn lemma_appended_binding(ns1: Seq<BindingModel>, ns2: Seq<BindingModel>, k: int)
    requires
        unique_names(ns1 + ns2),
        0 <= k < ns2.len(),
    ensures
        ns_contains(ns1 + ns2, ns2[k].name),
        ns_binding(ns1 + ns2, ns2[k].name) == ns2[k].item,
{
    let n = ns2[k].name;
    assert((ns1 + ns2)[ns1.len() + k].name == n);
    assert(ns_names(ns1 + ns2)[ns1.len() + k] == n);
    let j = ns_index(ns1 + ns2, n);
    assert((ns1 + ns2)[j].name == n);
    assert(j == ns1.len() + k);
}

/// A name bound before more bindings are appended keeps its binding: with
/// at most one binding per name over the whole namespace, the
/// first-registered declaration stays the one every later lookup returns.
pub proof fn lemma_prefix_binding(ns1: Seq<BindingModel>, ns2: Seq<BindingModel>, n: Seq<char>)
    requires
        unique_names(ns1 + ns2),
        ns_contains(ns1, n),
    ensures
        ns_contains(ns1 + ns2, n),
        ns_binding(ns1 + ns2, n) == ns_binding(ns1, n),
{
    let k1 = ns_index(ns1, n);
    assert(ns_names(ns1)[k1] == n);
    assert(ns1[k1].name == n);
    assert((ns1 + ns2)[k1].name == n);
    assert(ns_names(ns1 + ns2)[k1] == n);
    let k = ns_index(ns1 + ns2, n);
    assert((ns1 + ns2)[k].name == n);
    assert(k == k1);
    assert((ns1 + ns2)[k1] == ns1[k1]);
}

/// A later declaration whose name is already taken is reported: folding a
/// batch holding an item named `n`, with `n` already among the taken names,
/// records a `DuplicateAssociatedItem` conflict for `n`.
pub proof fn lemma_duplicate_reported(
    t: TypeId,
    have: Seq<Seq<char>>,
    items: Seq<ItemModel>,
    i: int,
)
    requires
        0 <= i < items.len(),
        name_in(have, items[i].name),
    ensures
        (exists|k: int|
            0 <= k < merge_diags(t, have, items).len() && merge_diags(t, have, items)[k]
                == (DiagModel::DuplicateAssociatedItem { target: t, name: items[i].name })),
    decreases items.len(),
{
    let it = items[0];
    let rest = items.drop_first();
    if i == 0 {
        assert(merge_diags(t, have, items)[0] == DiagModel::DuplicateAssociatedItem {
            target: t,
            name: items[0].name,
        });
    } else {
        assert(rest[i - 1] == items[i]);
        if name_in(have, it.name) {
            lemma_duplicate_reported(t, have, rest, i - 1);
            let k = choose|k: int|
                0 <= k < merge_diags(t, have, rest).len() && merge_diags(t, have, rest)[k]
                    == DiagModel::DuplicateAssociatedItem { target: t, name: items[i].name };
            assert(merge_diags(t, have, items)[k + 1] == DiagModel::DuplicateAssociatedItem {
                target: t,
                name: items[i].name,
            });
        } else {
            let have1 = have.push(it.name);
            let w = choose|w: int| 0 <= w < have.len() && have[w] == items[i].name;
            assert(have1[w] == items[i].name);
            assert(name_in(have1, items[i].name));
            lemma_duplicate_reported(t, have1, rest, i - 1);
            assert(merge_diags(t, have, items) == merge_diags(t, have1, rest));
        }
    }
}

/// One entry of a merged namespace: the item-name key and the position of
/// the owning declaration (block index, item index within the block).
#[derive(Debug)]
struct NsEntry {
    name: String,
    block: usize,
    item: usize,
}

/// All impl blocks of a compilation unit and, per target type, the merged
/// associated-item namespace.
#[derive(Debug)]
pub struct ImplRegistry {
    blocks: Vec<ImplBlock>,
    ns: Vec<Vec<NsEntry>>,
}

impl ImplRegistry {
    /// How many types the registry tracks namespaces for.
    pub closed spec fn n_types(&self) -> nat {
        self.ns@.len()
    }

    /// The merged namespace of type `t`, as a sequence of bindings in
    /// registration order.
    pub closed spec fn ns_model(&self, t: int) -> Seq<BindingModel> {
        Seq::new(
            self.ns@[t]@.len(),
            |i: int|
                BindingModel {
                    name: self.ns@[t]@[i].name@,
                    item: self.blocks@[self.ns@[t]@[i].block as int].items@[self.ns@[t]@[i].item as int].model(),
                },
        )
    }

    /// Representation invariant: every namespace entry points at an item of
    /// a block that targets that namespace's type, under the entry's name.
    pub closed spec fn entries_valid(&self) -> bool {
        forall|t: int, i: int|
            0 <= t < self.ns@.len() && 0 <= i < self.ns@[t]@.len() ==> {
                let e = #[trigger] self.ns@[t]@[i];
                &&& e.block < self.blocks@.len()
                &&& self.blocks@[e.block as int].target == TypeId(t as usize)
                &&& e.item < self.blocks@[e.block as int].items@.len()
                &&& self.blocks@[e.block as int].items@[e.item as int].name@ == e.name@
            }
    }

    /// Well-formed: the representation is consistent and every namespace
    /// binds each name at most once.
    pub open spec fn wf(&self) -> bool {
        &&& self.entries_valid()
        &&& forall|t: int| 0 <= t < self.n_types() ==> unique_names(#[trigger] self.ns_model(t))
    }

    /// A registry for `n_types` declared types, with no impl blocks yet:
    /// every namespace starts empty (a type with no impls is legal).
    pub fn new(n_types: usize) -> (r: ImplRegistry)
        ensures
            r.wf(),
            r.n_types() == n_types,
            forall|t: int| 0 <= t < n_types ==> #[trigger] r.ns_model(t) =~= Seq::<
                BindingModel,
            >::empty(),
    {
        let mut ns: Vec<Vec<NsEntry>> = Vec::new();
        let mut i: usize = 0;
        while i < n_types
            invariant
                i <= n_types,
                ns@.len() == i,
                forall|t: int| 0 <= t < i ==> (#[trigger] ns@[t])@.len() == 0,
            decreases n_types - i,
        {
            ns.push(Vec::new());
            i += 1;
        }
        ImplRegistry { blocks: Vec::new(), ns }
    }

    /// Append one impl block and fold its items into the target type's
    /// namespace. Every item whose name is not yet bound (and not claimed by
    /// an earlier item of the same block) is inserted; every other item is
    /// dropped and reported as a `DuplicateAssociatedItem` conflict, in
    /// item order. The first-registered declaration always wins.
    #[verifier::loop_isolation(false)]
    pub fn register_impl(&mut self, target: TypeId, items: Vec<AssociatedItem>) -> (r: Vec<
        Diagnostic,
    >)
        requires
            old(self).wf(),
            target.0 < old(self).n_types(),
        ensures
            final(self).wf(),
            final(self).n_types() == old(self).n_types(),
            forall|u: int|
                0 <= u < old(self).n_types() && u != target.0 ==> #[trigger] final(self).ns_model(
                    u,
                ) == old(self).ns_model(u),
            final(self).ns_model(target.0 as int) == old(self).ns_model(target.0 as int)
                + accepted(ns_names(old(self).ns_model(target.0 as int)), items_models(items@)),
            diags_model(r@) == merge_diags(
                target,
                ns_names(old(self).ns_model(target.0 as int)),
                items_models(items@),
            ),
    {
        let t = target.0;
        let b = self.blocks.len();
        let n = items.len();
        let ghost old_ns = self.ns_model(t as int);
        let ghost have0 = ns_names(old_ns);
        let ghost models = items_models(items@);
        self.blocks.push(ImplBlock { target, items });
        let mut diags: Vec<Diagnostic> = Vec::new();
        let mut i: usize = 0;
        proof {
            assert(self.ns_model(t as int) =~= old_ns + accepted(have0, models.take(0)));
            assert(ns_names(self.ns_model(t as int)) =~= taken_names(have0, models.take(0)));
            assert(diags_model(diags@) =~= merge_diags(target, have0, models.take(0)));
            assert forall|u: int| 0 <= u < self.n_types() implies #[trigger] self.ns_model(u)
                == old(self).ns_model(u) by {
                assert(self.ns_model(u) =~= old(self).ns_model(u));
            }
        }
        while i < n
            invariant
                i <= n,
                self.blocks@.len() == b + 1,
                self.blocks@[b as int].target == target,
                self.blocks@[b as int].items@.len() == n,
                forall|j: int|
                    0 <= j < n ==> (#[trigger] self.blocks@[b as int].items@[j]).model()
                        == models[j],
                self.blocks@.take(b as int) == old(self).blocks(),
                self.n_types() == old(self).n_types(),
                self.entries_valid(),
                forall|u: int| 0 <= u < self.n_types() ==> unique_names(#[trigger] self.ns_model(u)),
                forall|u: int|
                    0 <= u < old(self).n_types() && u != t ==> #[trigger] self.ns_model(u) == old(
                        self,
                    ).ns_model(u),
                self.ns_model(t as int) == old_ns + accepted(have0, models.take(i as int)),
                ns_names(self.ns_model(t as int)) == taken_names(have0, models.take(i as int)),
                diags_model(diags@) == merge_diags(target, have0, models.take(i as int)),
            decreases n - i,
        {
            let ghost pre = *self;
            let ghost pre_diags = diags@;
            // is the item's name already bound in the target's namespace?
            let mut dup = false;
            let m = self.ns[t].len();
            let mut k: usize = 0;
            while k < m
                invariant
                    k <= m,
                    m == self.ns@[t as int]@.len(),
                    *self == pre,
                    dup ==> name_in(
                        ns_names(self.ns_model(t as int)),
                        self.blocks@[b as int].items@[i as int].name@,
                    ),
                    !dup ==> forall|j: int|
                        0 <= j < k ==> (#[trigger] self.ns_model(t as int)[j]).name
                            != self.blocks@[b as int].items@[i as int].name@,
                decreases m - k,
            {
                if self.ns[t][k].name == self.blocks[b].items[i].name {
                    dup = true;
                    proof {
                        assert(self.ns_model(t as int)[k as int].name
                            == self.blocks@[b as int].items@[i as int].name@);
                        assert(ns_names(self.ns_model(t as int))[k as int]
                            == self.blocks@[b as int].items@[i as int].name@);
                    }
                    break ;
                }
                k += 1;
            }
            let ghost nm = self.blocks@[b as int].items@[i as int].name@;
            proof {
                assert(models[i as int].name == nm);
                if !dup {
                    assert forall|j: int|
                        0 <= j < ns_names(self.ns_model(t as int)).len() implies (#[trigger]
                    ns_names(self.ns_model(t as int))[j]) != nm by {
                        assert(self.ns_model(t as int)[j].name != nm);
                    }
                }
                assert(dup == name_in(taken_names(have0, models.take(i as int)), nm));
            }
            if dup {
                let d = Diagnostic::DuplicateAssociatedItem {
                    target,
                    name: self.blocks[b].items[i].name.clone(),
                };
                diags.push(d);
                proof {
                    lemma_fold_snoc(target, have0, models.take(i as int), models[i as int]);
                    assert(models.take(i as int).push(models[i as int]) =~= models.take(
                        i as int + 1,
                    ));
                    assert(diags_model(diags@) =~= merge_diags(
                        target,
                        have0,
                        models.take(i as int + 1),
                    ));
                    assert(self.ns_model(t as int) == old_ns + accepted(
                        have0,
                        models.take(i as int + 1),
                    ));
                    assert(ns_names(self.ns_model(t as int)) == taken_names(
                        have0,
                        models.take(i as int + 1),
                    ));
                }
            } else {
                let e = NsEntry {
                    name: self.blocks[b].items[i].name.clone(),
                    block: b,
                    item: i,
                };
                self.ns[t].push(e);
                proof {
                    lemma_fold_snoc(target, have0, models.take(i as int), models[i as int]);
                    assert(models.take(i as int).push(models[i as int]) =~= models.take(
                        i as int + 1,
                    ));
                    assert(self.ns_model(t as int) =~= pre.ns_model(t as int).push(
                        BindingModel { name: nm, item: models[i as int] },
                    ));
                    assert(self.ns_model(t as int) =~= old_ns + accepted(
                        have0,
                        models.take(i as int + 1),
                    ));
                    assert(ns_names(self.ns_model(t as int)) =~= taken_names(
                        have0,
                        models.take(i as int + 1),
                    ));
                    assert(diags_model(diags@) =~= merge_diags(
                        target,
                        have0,
                        models.take(i as int + 1),
                    ));
                    assert forall|u: int|
                        0 <= u < self.n_types() && u != t implies #[trigger] self.ns_model(u)
                        == pre.ns_model(u) by {
                        assert(self.ns_model(u) =~= pre.ns_model(u));
                    }
                    assert forall|u: int|
                        0 <= u < self.n_types() implies unique_names(
                        #[trigger] self.ns_model(u),
                    ) by {
                        if u == t {
                            let cur = self.ns_model(t as int);
                            assert forall|x: int, y: int|
                                0 <= x < y < cur.len() implies cur[x].name != cur[y].name by {
                                if y == cur.len() - 1 {
                                    assert(ns_names(pre.ns_model(t as int))[x] == cur[x].name);
                                }
                            }
                        }
                    }
                }
            }
            i += 1;
        }
        proof {
            assert(models.take(n as int) =~= models);
        }
        diags
    }

    /// The blocks registered so far, in registration order.
    pub closed spec fn blocks(&self) -> Seq<ImplBlock> {
        self.blocks@
    }

    /// The merged associated-item namespace of `target`, as a snapshot of
    /// (name, declaration) pairs in registration order. Total for any type
    /// the registry tracks: a type with no impl blocks has an empty
    /// namespace, which is valid and not an error.
    pub fn namespace_of(&self, target: TypeId) -> (r: Vec<(&String, &AssociatedItem)>)
        requires
            self.wf(),
            target.0 < self.n_types(),
        ensures
            r@.len() == self.ns_model(target.0 as int).len(),
            forall|i: int|
                0 <= i < r@.len() ==> (#[trigger] r@[i]).0@ == self.ns_model(target.0 as int)[i].name
                    && r@[i].1.model() == self.ns_model(target.0 as int)[i].item,
    {
        let t = target.0;
        let m = self.ns[t].len();
        let mut out: Vec<(&String, &AssociatedItem)> = Vec::new();
        let mut k: usize = 0;
        while k < m
            invariant
                k <= m,
                t == target.0,
                t < self.n_types(),
                self.wf(),
                m == self.ns@[t as int]@.len(),
                out@.len() == k,
                forall|i: int|
                    0 <= i < k ==> (#[trigger] out@[i]).0@ == self.ns_model(t as int)[i].name
                        && out@[i].1.model() == self.ns_model(t as int)[i].item,
            decreases m - k,
        {
            let e = &self.ns[t][k];
            out.push((&e.name, &self.blocks[e.block].items[e.item]));
            k += 1;
        }
        out
    }

    /// Look up the item bound to `name` in the merged namespace of `target`.
    /// Returns the first-registered declaration of that name, or nothing if
    /// the namespace does not bind it.
    pub fn lookup_item(&self, target: TypeId, name: &String) -> (r: Option<&AssociatedItem>)
        requires
            self.wf(),
            target.0 < self.n_types(),
        ensures
            match r {
                Some(it) => {
                    &&& ns_contains(self.ns_model(target.0 as int), name@)
                    &&& it.model() == ns_binding(self.ns_model(target.0 as int), name@)
                    &&& it.model().name == name@
                },
                None => !ns_contains(self.ns_model(target.0 as int), name@),
            },
    {
        let t = target.0;
        let m = self.ns[t].len();
        let mut k: usize = 0;
        while k < m
            invariant
                k <= m,
                t == target.0,
                t < self.n_types(),
                self.wf(),
                m == self.ns@[t as int]@.len(),
                forall|j: int|
                    0 <= j < k ==> (#[trigger] self.ns_model(t as int)[j]).name != name@,
            decreases m - k,
        {
            if self.ns[t][k].name.eq(name) {
                let e = &self.ns[t][k];
                let it = &self.blocks[e.block].items[e.item];
                proof {
                    let ns = self.ns_model(t as int);
                    assert(ns[k as int].name == name@);
                    assert(ns_names(ns)[k as int] == name@);
                    let j = ns_index(ns, name@);
                    assert(ns[j].name == name@);
                    assert(j == k as int);
                    assert(it.model() == ns[k as int].item);
                }
                return Some(it);
            }
            k += 1;
        }
        proof {
            assert forall|j: int|
                0 <= j < ns_names(self.ns_model(t as int)).len() implies (#[trigger] ns_names(
                self.ns_model(t as int),
            )[j]) != name@ by {
                assert(self.ns_model(t as int)[j].name != name@);
            }
        }
        None
    }
}

} // verus!
