//! Laws that relate the diffing of trees to the changes it records.

use std::rc::Rc;
use vstd::prelude::*;
use vstd::std_specs::cmp::PartialEqSpec;

use crate::diff_spec::{
    attrs_changes, style_changes, event_changes, children_changes, children_effect_sites, effect_sites, children_ok, matched_ok, list_change, diff_ok, effect_part_ok, effect_updates, EffectSite, changed_entries, dropped_keys, eq_reflexive, insert_op, lemma_diff_self, mount_ops, removal_ops, site_ops,
    spec_children, spec_diff,
};
use crate::dom_change::{ChangeView, OpView};
use crate::node::{rest_size, size, CoordView, NodeView};
use crate::renderer::{coord_target, first_key_at};
use crate::pairs::last_wins;
use vstd::seq_lib::lemma_multiset_commutative;

verus! {

/// A map after a change that sets the entries `set` and removes the keys `unset`.
pub open spec fn patch_map<V>(old: Map<Seq<char>, V>, set: Map<Seq<char>, V>, unset: Set<Seq<char>>) -> Map<
    Seq<char>,
    V,
> {
    old.remove_keys(unset).union_prefer_right(set)
}

/// Setting the changed entries and removing the dropped keys turns the old map into the
/// new one; nothing is to be set or removed exactly when both maps are equal.
/// This is what attribute and inline style changes promise.
pub proof fn law_patch_map<V>(new: Map<Seq<char>, V>, old: Map<Seq<char>, V>)
    ensures
        patch_map(old, changed_entries(new, old), dropped_keys(new, old)) == new,
        (changed_entries(new, old) == Map::<Seq<char>, V>::empty() && dropped_keys(new, old)
            == Set::<Seq<char>>::empty()) <==> new == old,
{
    let set = changed_entries(new, old);
    let unset = dropped_keys(new, old);
    assert(patch_map(old, set, unset) =~= new);
    if set == Map::<Seq<char>, V>::empty() && unset == Set::<Seq<char>>::empty() {
        assert forall|k: Seq<char>| new.contains_key(k) <==> old.contains_key(k) by {
            assert(!set.contains_key(k));
            assert(!unset.contains(k));
        }
        assert forall|k: Seq<char>| new.contains_key(k) implies new[k] == old[k] by {
            assert(!set.contains_key(k));
        }
        assert(new =~= old);
    }
    if new == old {
        assert(set =~= Map::<Seq<char>, V>::empty());
        assert(unset =~= Set::<Seq<char>>::empty());
    }
}

/// Adding the added event names and removing the removed ones turns the old set of
/// listened events into the new one.
pub proof fn law_patch_events(new: Set<Seq<char>>, old: Set<Seq<char>>)
    ensures
        old.difference(old.difference(new)).union(new.difference(old)) == new,
{
    assert(old.difference(old.difference(new)).union(new.difference(old)) =~= new);
}

/// Diffing a tree against itself yields no change, as long as every effect equals itself.
pub proof fn law_diff_self<L: ?Sized, E: ?Sized + PartialEq>(
    tree: NodeView<L, E>,
    coord: Seq<CoordView>,
    dom_path: Seq<u32>,
)
    requires
        eq_reflexive::<E>(),
    ensures
        spec_diff(tree, tree, coord, dom_path) == Seq::<ChangeView<L, E>>::empty(),
{
    lemma_diff_self(tree, coord, dom_path);
}

/// The listener change recorded for an element, if any, turns the event names listened
/// on the old element into those of the new one: the removed names are exactly those only
/// the old one listens to, the added ones exactly those only the new one listens to, and
/// no change is recorded exactly when both listen to the same names.
pub proof fn law_event_change_applies<L: ?Sized, E: ?Sized>(
    new: Seq<(Seq<char>, Rc<L>)>,
    old: Seq<(Seq<char>, Rc<L>)>,
    coord: Seq<CoordView>,
    dom_path: Seq<u32>,
)
    ensures
        ({
            let ch = event_changes::<L, E>(new, old, coord, dom_path);
            let nk = last_wins(new).dom();
            let ok = last_wins(old).dom();
            ||| ch.len() == 0 && nk == ok
            ||| ch.len() == 1 && nk != ok && (ch[0] matches ChangeView::ModifyEvent { coord: c, dom_path: p, add, remove }
                && c == coord && p == dom_path && ok.difference(remove).union(add) == nk && remove.subset_of(ok)
                && remove.disjoint(nk) && add.subset_of(nk) && add.disjoint(ok))
        }),
{
    let nk = last_wins(new).dom();
    let ok = last_wins(old).dom();
    if nk != ok {
        let ch = event_changes::<L, E>(new, old, coord, dom_path);
        let add = nk.difference(ok);
        let remove = ok.difference(nk);
        assert(ok.difference(remove).union(add) =~= nk);
        assert(remove.disjoint(nk));
        assert(add.disjoint(ok));
        assert(ch[0] == ChangeView::<L, E>::ModifyEvent { coord, dom_path, add, remove });
    }
}

/// The map change recorded for attributes or inline styles: applied to the old map it
/// gives the new one; every entry set is in the new map and differs from the old one, every
/// key unset is in the old map only; nothing is recorded exactly when the maps are equal.
pub open spec fn map_change_applies(
    new: Map<Seq<char>, Seq<char>>,
    old: Map<Seq<char>, Seq<char>>,
    recorded: bool,
    set: Map<Seq<char>, Seq<char>>,
    unset: Set<Seq<char>>,
) -> bool {
    &&& recorded <==> new != old
    &&& recorded ==> patch_map(old, set, unset) == new
    &&& recorded ==> forall|k: Seq<char>|
        #[trigger] set.contains_key(k) ==> new.contains_key(k) && new[k] == set[k] && !(old.contains_key(k)
            && old[k] == new[k])
    &&& recorded ==> unset.subset_of(old.dom()) && unset.disjoint(new.dom())
}

proof fn lemma_map_change(new: Map<Seq<char>, Seq<char>>, old: Map<Seq<char>, Seq<char>>)
    ensures
        map_change_applies(new, old, new != old, changed_entries(new, old), dropped_keys(new, old)),
        (changed_entries(new, old) == Map::<Seq<char>, Seq<char>>::empty() && dropped_keys(new, old)
            == Set::<Seq<char>>::empty()) <==> new == old,
{
    law_patch_map(new, old);
    assert(dropped_keys(new, old).disjoint(new.dom()));
}

/// The attribute change recorded for an element, if any, turns the old attributes, read as
/// a map, into the new ones.
pub proof fn law_attrs_change_applies<L: ?Sized, E: ?Sized>(
    new: Seq<(Seq<char>, Seq<char>)>,
    old: Seq<(Seq<char>, Seq<char>)>,
    coord: Seq<CoordView>,
    dom_path: Seq<u32>,
)
    ensures
        ({
            let ch = attrs_changes::<L, E>(new, old, coord, dom_path);
            ||| ch.len() == 0 && map_change_applies(last_wins(new), last_wins(old), false, Map::empty(), Set::empty())
            ||| ch.len() == 1 && (ch[0] matches ChangeView::ModifyAttrs { coord: c, dom_path: p, set, unset } && c
                == coord && p == dom_path && map_change_applies(last_wins(new), last_wins(old), true, set, unset))
        }),
{
    lemma_map_change(last_wins(new), last_wins(old));
}

/// The inline style change recorded for an element, if any, turns the old declarations,
/// read as a map, into the new ones.
pub proof fn law_style_change_applies<L: ?Sized, E: ?Sized>(
    new: Seq<(Seq<char>, Seq<char>)>,
    old: Seq<(Seq<char>, Seq<char>)>,
    coord: Seq<CoordView>,
    dom_path: Seq<u32>,
)
    ensures
        ({
            let ch = style_changes::<L, E>(new, old, coord, dom_path);
            ||| ch.len() == 0 && map_change_applies(last_wins(new), last_wins(old), false, Map::empty(), Set::empty())
            ||| ch.len() == 1 && (ch[0] matches ChangeView::ModifyStyle { coord: c, dom_path: p, set, unset } && c
                == coord && p == dom_path && map_change_applies(last_wins(new), last_wins(old), true, set, unset))
        }),
{
    lemma_map_change(last_wins(new), last_wins(old));
}

/// The effect changes of a matched component: none exactly when every new effect has an
/// equal effect at its position in the old list; otherwise the update before and the one
/// after, in that order, both skipping exactly the positions whose effects are equal.
pub proof fn law_effect_updates<L: ?Sized, E: ?Sized + PartialEq>(
    new: Seq<Rc<E>>,
    old: Seq<Rc<E>>,
    coord: Seq<CoordView>,
    dom_path: Seq<u32>,
)
    ensures
        ({
            let ch = effect_updates::<L, E>(new, old, coord, dom_path);
            let same = |i: int| i < old.len() && (*new[i]).eq_spec(&*old[i]);
            &&& (ch.len() == 0) == (forall|i: int| 0 <= i < new.len() ==> #[trigger] same(i))
            &&& ch.len() != 0 ==> ch.len() == 2 && (ch[0] matches ChangeView::Effect { coord: c0, dom_path: p0, effect_type: t0, skip: s0 }
                && ch[1] matches ChangeView::Effect { coord: c1, dom_path: p1, effect_type: t1, skip: s1 } && c0 == coord
                && c1 == coord && p0 == dom_path && p1 == dom_path && t0 == crate::node::RespoEffectType::BeforeUpdate
                && t1 == crate::node::RespoEffectType::Updated && s0 == s1 && forall|i: u32|
                #[trigger] s0.contains(i) <==> (i < new.len() && same(i as int)))
        }),
{
    let same = |i: int| i < old.len() && (*new[i]).eq_spec(&*old[i]);
    if crate::diff_spec::effects_changed(new, old) {
        let i = choose|i: int| 0 <= i < new.len() && #[trigger] crate::diff_spec::differs_at(new, old, i);
        assert(!same(i));
    } else {
        assert forall|i: int| 0 <= i < new.len() implies #[trigger] same(i) by {
            if !same(i) {
                assert(crate::diff_spec::differs_at(new, old, i));
            }
        }
    }
}

/// The list of child keys after one operation on the children of an element.
pub open spec fn apply_key_op<L: ?Sized, E: ?Sized>(keys: Seq<Seq<char>>, op: OpView<L, E>) -> Seq<Seq<char>> {
    match op {
        OpView::InsertAfter(i, k, _) => keys.take(i + 1).push(k) + keys.skip(i + 1),
        OpView::RemoveAt(i) => keys.take(i as int) + keys.skip(i + 1),
        OpView::Append(k, _) => keys.push(k),
        OpView::Prepend(k, _) => seq![k] + keys,
        OpView::NestedEffect { .. } => keys,
    }
}

/// The list of child keys after operations applied in order.
pub open spec fn apply_key_ops<L: ?Sized, E: ?Sized>(keys: Seq<Seq<char>>, ops: Seq<OpView<L, E>>) -> Seq<
    Seq<char>,
>
    decreases ops.len(),
{
    if ops.len() == 0 {
        keys
    } else {
        apply_key_ops(apply_key_op(keys, ops[0]), ops.drop_first())
    }
}

/// The keys of a list of children.
pub open spec fn child_keys<L: ?Sized, E: ?Sized>(ch: Seq<(Seq<char>, NodeView<L, E>)>) -> Seq<Seq<char>> {
    ch.map_values(|c: (Seq<char>, NodeView<L, E>)| c.0)
}

proof fn lemma_apply_concat<L: ?Sized, E: ?Sized>(keys: Seq<Seq<char>>, a: Seq<OpView<L, E>>, b: Seq<OpView<L, E>>)
    ensures
        apply_key_ops(keys, a + b) == apply_key_ops(apply_key_ops(keys, a), b),
    decreases a.len(),
{
    if a.len() > 0 {
        assert((a + b).drop_first() =~= a.drop_first() + b);
        lemma_apply_concat(apply_key_op(keys, a[0]), a.drop_first(), b);
    } else {
        assert(a + b =~= b);
    }
}

proof fn lemma_apply_single<L: ?Sized, E: ?Sized>(keys: Seq<Seq<char>>, op: OpView<L, E>)
    ensures
        apply_key_ops(keys, seq![op]) == apply_key_op(keys, op),
{
    let s = seq![op];
    assert(s[0] == op);
    assert(s.drop_first() =~= Seq::<OpView<L, E>>::empty());
    assert(apply_key_ops(keys, s) == apply_key_ops(apply_key_op(keys, op), Seq::<OpView<L, E>>::empty()));
    assert(apply_key_ops(apply_key_op(keys, op), Seq::<OpView<L, E>>::empty()) == apply_key_op(keys, op));
}

proof fn lemma_apply_effects<L: ?Sized, E: ?Sized>(keys: Seq<Seq<char>>, ops: Seq<OpView<L, E>>)
    requires
        forall|i: int| 0 <= i < ops.len() ==> #[trigger] ops[i] is NestedEffect,
    ensures
        apply_key_ops(keys, ops) == keys,
    decreases ops.len(),
{
    if ops.len() > 0 {
        assert(ops[0] is NestedEffect);
        lemma_apply_effects(keys, ops.drop_first());
    }
}

proof fn lemma_site_ops_effects<L: ?Sized, E: ?Sized>(keys: Seq<Seq<char>>, entry: (Seq<char>, NodeView<L, E>), cursor: int)
    ensures
        apply_key_ops(keys, mount_ops(entry, cursor)) == keys,
        apply_key_ops(keys, removal_ops(entry, cursor)) == apply_key_op(keys, OpView::<L, E>::RemoveAt(cursor as u32)),
{
    let m = mount_ops(entry, cursor);
    let r = removal_ops(entry, cursor);
    lemma_apply_effects(keys, m);
    let pre = r.take(r.len() - 1);
    assert(r =~= pre + seq![OpView::<L, E>::RemoveAt(cursor as u32)]);
    assert forall|i: int| 0 <= i < pre.len() implies #[trigger] pre[i] is NestedEffect by {}
    lemma_apply_effects(keys, pre);
    lemma_apply_concat(keys, pre, seq![OpView::<L, E>::RemoveAt(cursor as u32)]);
    lemma_apply_single(keys, OpView::<L, E>::RemoveAt(cursor as u32));
}

proof fn lemma_children_keys<L: ?Sized, E: ?Sized + PartialEq>(
    nc: Seq<(Seq<char>, NodeView<L, E>)>,
    oc: Seq<(Seq<char>, NodeView<L, E>)>,
    ni: int,
    oi: int,
    cursor: int,
    coord: Seq<CoordView>,
    path: Seq<u32>,
)
    requires
        0 <= cursor <= ni <= nc.len(),
        0 <= oi <= oc.len(),
        oi < oc.len() ==> cursor == ni,
        nc.len() <= u32::MAX,
    ensures
        apply_key_ops(
            child_keys(nc).take(ni) + child_keys(oc).skip(oi),
            spec_children(nc, oc, ni, oi, cursor, coord, path).1,
        ) == child_keys(nc),
    decreases nc.len() - ni + oc.len() - oi,
{
    let nk = child_keys(nc);
    let ok = child_keys(oc);
    let dom = nk.take(ni) + ok.skip(oi);
    let r = spec_children(nc, oc, ni, oi, cursor, coord, path);
    if ni >= nc.len() {
        if oi >= oc.len() {
            assert(dom =~= nk);
        } else {
            lemma_site_ops_effects(dom, oc[oi], cursor);
            let next = nk.take(ni) + ok.skip(oi + 1);
            assert(apply_key_op(dom, OpView::<L, E>::RemoveAt(cursor as u32)) =~= next);
            lemma_children_keys(nc, oc, ni, oi + 1, cursor, coord, path);
            lemma_apply_concat(dom, removal_ops(oc[oi], cursor), spec_children(nc, oc, ni, oi + 1, cursor, coord, path).1);
        }
    } else if oi >= oc.len() {
        let next = nk.take(ni + 1) + ok.skip(oi);
        let app = seq![OpView::Append(nc[ni].0, nc[ni].1)];
        assert(apply_key_ops(dom, app) =~= next) by {
            lemma_apply_single(dom, OpView::Append(nc[ni].0, nc[ni].1));
            assert(nk[ni] == nc[ni].0);
        }
        lemma_site_ops_effects(next, nc[ni], cursor);
        lemma_children_keys(nc, oc, ni + 1, oi, cursor, coord, path);
        let rest = spec_children(nc, oc, ni + 1, oi, cursor, coord, path).1;
        lemma_apply_concat(dom, app, mount_ops(nc[ni], cursor));
        lemma_apply_concat(dom, app + mount_ops(nc[ni], cursor), rest);
    } else if nc[ni].0 == oc[oi].0 {
        let next = nk.take(ni + 1) + ok.skip(oi + 1);
        assert(dom =~= next);
        lemma_children_keys(nc, oc, ni + 1, oi + 1, cursor + 1, coord, path);
    } else {
        let ins = insert_op(nc[ni], cursor);
        let after_remove = nk.take(ni) + ok.skip(oi + 1);
        let after_insert = nk.take(ni + 1) + ok.skip(oi);
        let both = nk.take(ni + 1) + ok.skip(oi + 1);
        assert(nk[ni] == nc[ni].0);
        assert(apply_key_ops(dom, ins) =~= after_insert) by {
            lemma_apply_single(dom, ins[0]);
            assert(ins =~= seq![ins[0]]);
        }
        assert(apply_key_ops(after_remove, ins) =~= both) by {
            lemma_apply_single(after_remove, ins[0]);
            assert(ins =~= seq![ins[0]]);
        }
        assert(apply_key_op(dom, OpView::<L, E>::RemoveAt(cursor as u32)) =~= after_remove);
        lemma_site_ops_effects(dom, oc[oi], cursor);
        lemma_site_ops_effects(after_insert, nc[ni], cursor);
        lemma_site_ops_effects(both, nc[ni], cursor);
        if crate::diff_spec::key_ahead(oc, oi, nc[ni].0) {
            lemma_children_keys(nc, oc, ni, oi + 1, cursor, coord, path);
            lemma_apply_concat(dom, removal_ops(oc[oi], cursor), spec_children(nc, oc, ni, oi + 1, cursor, coord, path).1);
        } else if crate::diff_spec::key_ahead(nc, ni, oc[oi].0) {
            let rest = spec_children(nc, oc, ni + 1, oi, cursor + 1, coord, path).1;
            lemma_children_keys(nc, oc, ni + 1, oi, cursor + 1, coord, path);
            lemma_apply_concat(dom, ins, mount_ops(nc[ni], cursor));
            lemma_apply_concat(dom, ins + mount_ops(nc[ni], cursor), rest);
        } else {
            let rest = spec_children(nc, oc, ni + 1, oi + 1, cursor + 1, coord, path).1;
            lemma_children_keys(nc, oc, ni + 1, oi + 1, cursor + 1, coord, path);
            lemma_apply_concat(dom, removal_ops(oc[oi], cursor), ins);
            lemma_apply_concat(dom, removal_ops(oc[oi], cursor) + ins, mount_ops(nc[ni], cursor));
            lemma_apply_concat(dom, removal_ops(oc[oi], cursor) + ins + mount_ops(nc[ni], cursor), rest);
        }
    }
}

/// Applying, in order, the operations that diffing records for the children of an element
/// to the keys of the old children yields the keys of the new children.
pub proof fn law_children_keys<L: ?Sized, E: ?Sized + PartialEq>(
    new_children: Seq<(Seq<char>, NodeView<L, E>)>,
    old_children: Seq<(Seq<char>, NodeView<L, E>)>,
    coord: Seq<CoordView>,
    dom_path: Seq<u32>,
)
    requires
        new_children.len() <= u32::MAX,
    ensures
        apply_key_ops(
            child_keys(old_children),
            spec_children(new_children, old_children, 0, 0, 0, coord, dom_path).1,
        ) == child_keys(new_children),
{
    assert(child_keys(new_children).take(0) + child_keys(old_children).skip(0) =~= child_keys(old_children));
    lemma_children_keys(new_children, old_children, 0, 0, 0, coord, dom_path);
}

/// The changes inside the children at equal positions of both lists, from position `i` on,
/// child `i` being diffed at the coordinate of its key and at DOM position `i`.
pub open spec fn matched_diffs<L: ?Sized, E: ?Sized + PartialEq>(
    nc: Seq<(Seq<char>, NodeView<L, E>)>,
    oc: Seq<(Seq<char>, NodeView<L, E>)>,
    i: int,
    coord: Seq<CoordView>,
    path: Seq<u32>,
) -> Seq<ChangeView<L, E>>
    decreases nc.len() - i,
{
    if i < 0 || i >= nc.len() || i >= oc.len() {
        Seq::empty()
    } else {
        spec_diff(nc[i].1, oc[i].1, coord.push(CoordView::Key(nc[i].0)), path.push(i as u32)) + matched_diffs(
            nc,
            oc,
            i + 1,
            coord,
            path,
        )
    }
}

proof fn lemma_same_keys<L: ?Sized, E: ?Sized + PartialEq>(
    nc: Seq<(Seq<char>, NodeView<L, E>)>,
    oc: Seq<(Seq<char>, NodeView<L, E>)>,
    i: int,
    coord: Seq<CoordView>,
    path: Seq<u32>,
)
    requires
        child_keys(nc) == child_keys(oc),
        0 <= i,
    ensures
        spec_children(nc, oc, i, i, i, coord, path) == (matched_diffs(nc, oc, i, coord, path), Seq::<
            OpView<L, E>,
        >::empty()),
    decreases nc.len() - i,
{
    assert(nc.len() == child_keys(nc).len());
    assert(oc.len() == child_keys(oc).len());
    if i < nc.len() {
        assert(child_keys(nc)[i] == nc[i].0);
        assert(child_keys(oc)[i] == oc[i].0);
        lemma_same_keys(nc, oc, i + 1, coord, path);
    }
}

/// Children with the same keys in the same order are only diffed one by one: the changes
/// are those inside each pair of children at equal positions, and no operation on the list
/// of children is recorded, for every effect type.
pub proof fn law_same_keys_no_list_change<L: ?Sized, E: ?Sized + PartialEq>(
    new_children: Seq<(Seq<char>, NodeView<L, E>)>,
    old_children: Seq<(Seq<char>, NodeView<L, E>)>,
    coord: Seq<CoordView>,
    dom_path: Seq<u32>,
)
    requires
        child_keys(new_children) == child_keys(old_children),
    ensures
        spec_children(new_children, old_children, 0, 0, 0, coord, dom_path).1 == Seq::<OpView<L, E>>::empty(),
        children_changes(new_children, old_children, coord, dom_path) == matched_diffs(
            new_children,
            old_children,
            0,
            coord,
            dom_path,
        ),
        forall|out: Seq<ChangeView<L, E>>|
            #[trigger] children_ok(new_children, old_children, coord, dom_path, out) ==> matched_ok(
                new_children,
                old_children,
                0,
                0,
                0,
                coord,
                dom_path,
                out,
            ),
{
    lemma_same_keys(new_children, old_children, 0, coord, dom_path);
    assert(list_change::<L, E>(Seq::<OpView<L, E>>::empty(), coord, dom_path) =~= Seq::<ChangeView<L, E>>::empty());
    assert forall|out: Seq<ChangeView<L, E>>|
        #[trigger] children_ok(new_children, old_children, coord, dom_path, out) implies matched_ok(
            new_children,
            old_children,
            0,
            0,
            0,
            coord,
            dom_path,
            out,
        ) by {
        assert(out.take(out.len() - 0) =~= out);
    }
    assert(children_changes(new_children, old_children, coord, dom_path) =~= matched_diffs(
        new_children,
        old_children,
        0,
        coord,
        dom_path,
    ) + Seq::<ChangeView<L, E>>::empty());
}

/// Where comparing effects computes `eq_spec`, a matched component records the changes
/// inside it, then exactly its effect updates: before and after the update, skipping the
/// positions whose effects are equal, where some effect changed; nothing otherwise.
pub proof fn law_component_effects<L: ?Sized, E: ?Sized + PartialEq>(
    name: Seq<char>,
    new_effects: Seq<Rc<E>>,
    new_tree: NodeView<L, E>,
    old_effects: Seq<Rc<E>>,
    old_tree: NodeView<L, E>,
    coord: Seq<CoordView>,
    dom_path: Seq<u32>,
    out: Seq<ChangeView<L, E>>,
)
    requires
        E::obeys_eq_spec(),
        diff_ok(
            NodeView::Component { name, effects: new_effects, tree: Box::new(new_tree) },
            NodeView::Component { name, effects: old_effects, tree: Box::new(old_tree) },
            coord,
            dom_path,
            out,
        ),
    ensures
        exists|k: int|
            0 <= k <= out.len() && diff_ok(
                new_tree,
                old_tree,
                coord.push(CoordView::Comp(name)),
                dom_path,
                #[trigger] out.take(k),
            ) && out.skip(k) == effect_updates::<L, E>(new_effects, old_effects, coord, dom_path),
{
    let inner_coord = coord.push(CoordView::Comp(name));
    if diff_ok(new_tree, old_tree, inner_coord, dom_path, out) && effect_part_ok(
        new_effects,
        old_effects,
        coord,
        dom_path,
        Seq::<ChangeView<L, E>>::empty(),
    ) {
        let k = out.len() as int;
        assert(out.take(k) =~= out);
        assert(out.skip(k) =~= Seq::<ChangeView<L, E>>::empty());
    } else {
        let k = out.len() - 2;
        assert(out.take(k) == out.take(out.len() - 2));
    }
}

/// Collecting the effects of a tree with components before or after their subtrees
/// visits the same places, only in another order.
pub proof fn law_effect_orders<L: ?Sized, E: ?Sized>(
    tree: NodeView<L, E>,
    coord: Seq<CoordView>,
    dom_path: Seq<u32>,
    extend_path: bool,
)
    ensures
        effect_sites(tree, coord, dom_path, true, extend_path).to_multiset() == effect_sites(
            tree,
            coord,
            dom_path,
            false,
            extend_path,
        ).to_multiset(),
    decreases size(tree), 0int,
{
    match tree {
        NodeView::Component { name, effects, tree: t } => {
            let here: Seq<EffectSite> = if effects.len() > 0 {
                seq![(coord, dom_path)]
            } else {
                Seq::empty()
            };
            let c2 = coord.push(CoordView::Comp(name));
            law_effect_orders(*t, c2, dom_path, extend_path);
            let a = effect_sites(*t, c2, dom_path, true, extend_path);
            let b = effect_sites(*t, c2, dom_path, false, extend_path);
            lemma_multiset_commutative(here, a);
            lemma_multiset_commutative(b, here);
            assert(here.to_multiset().add(a.to_multiset()) =~= b.to_multiset().add(here.to_multiset()));
        },
        NodeView::Element { children, .. } => {
            lemma_children_orders(children, 0, coord, dom_path, extend_path);
        },
        NodeView::Referenced(t) => {
            law_effect_orders(*t, coord, dom_path, extend_path);
        },
    }
}

proof fn lemma_children_orders<L: ?Sized, E: ?Sized>(
    ch: Seq<(Seq<char>, NodeView<L, E>)>,
    i: int,
    coord: Seq<CoordView>,
    dom_path: Seq<u32>,
    extend_path: bool,
)
    ensures
        children_effect_sites(ch, i, coord, dom_path, true, extend_path).to_multiset() == children_effect_sites(
            ch,
            i,
            coord,
            dom_path,
            false,
            extend_path,
        ).to_multiset(),
    decreases rest_size(ch, i), 1int,
{
    if 0 <= i < ch.len() {
        let child_path = if extend_path {
            dom_path.push(i as u32)
        } else {
            dom_path
        };
        let c2 = coord.push(CoordView::Key(ch[i].0));
        crate::node::lemma_size_positive(ch[i].1);
        law_effect_orders(ch[i].1, c2, child_path, extend_path);
        lemma_children_orders(ch, i + 1, coord, dom_path, extend_path);
        lemma_multiset_commutative(
            effect_sites(ch[i].1, c2, child_path, true, extend_path),
            children_effect_sites(ch, i + 1, coord, dom_path, true, extend_path),
        );
        lemma_multiset_commutative(
            effect_sites(ch[i].1, c2, child_path, false, extend_path),
            children_effect_sites(ch, i + 1, coord, dom_path, false, extend_path),
        );
    }
}

/// The children of every element have distinct keys, and no shared subtree directly holds
/// another shared subtree.
pub open spec fn well_keyed<L: ?Sized, E: ?Sized>(t: NodeView<L, E>) -> bool
    decreases t, 0int,
{
    match t {
        NodeView::Component { tree, .. } => well_keyed(*tree),
        NodeView::Element { children, .. } => keys_distinct(children) && children_well_keyed(children, 0),
        NodeView::Referenced(x) => !(*x is Referenced) && well_keyed(*x),
    }
}

/// The children from position `i` on are well keyed.
pub open spec fn children_well_keyed<L: ?Sized, E: ?Sized>(ch: Seq<(Seq<char>, NodeView<L, E>)>, i: int) -> bool
    decreases ch, ch.len() - i,
{
    if i < 0 || i >= ch.len() {
        true
    } else {
        well_keyed(ch[i].1) && children_well_keyed(ch, i + 1)
    }
}

/// No two children share a key.
pub open spec fn keys_distinct<L: ?Sized, E: ?Sized>(ch: Seq<(Seq<char>, NodeView<L, E>)>) -> bool {
    forall|i: int, j: int| 0 <= i < j < ch.len() ==> ch[i].0 != ch[j].0
}

/// The path `rel` leads from `t` to a component with effects.
pub open spec fn leads_to_effects<L: ?Sized, E: ?Sized>(t: NodeView<L, E>, rel: Seq<CoordView>) -> bool {
    match coord_target(t, rel) {
        Ok(NodeView::Component { effects, .. }) => effects.len() > 0,
        _ => false,
    }
}

/// The coordinate of an effect place starts with `c0` and leads on from `t` to a component
/// with effects.
pub open spec fn site_resolves<L: ?Sized, E: ?Sized>(t: NodeView<L, E>, c0: Seq<CoordView>, s: EffectSite) -> bool {
    &&& c0.len() <= s.0.len()
    &&& s.0.take(c0.len() as int) == c0
    &&& leads_to_effects(t, s.0.skip(c0.len() as int))
}

/// Where the effects of a tree are collected, their coordinate leads back to a component
/// with effects, as the renderer looks components up to run their effects; this holds when
/// sibling keys are distinct and shared subtrees are not nested directly.
pub proof fn law_effect_sites_resolve<L: ?Sized, E: ?Sized>(
    tree: NodeView<L, E>,
    coord: Seq<CoordView>,
    dom_path: Seq<u32>,
    outside_in: bool,
    extend_path: bool,
)
    requires
        well_keyed(tree),
    ensures
        forall|k: int|
            0 <= k < effect_sites(tree, coord, dom_path, outside_in, extend_path).len() ==> #[trigger] site_resolves(
                tree,
                coord,
                effect_sites(tree, coord, dom_path, outside_in, extend_path)[k],
            ),
    decreases size(tree), 0int,
{
    let sites = effect_sites(tree, coord, dom_path, outside_in, extend_path);
    match tree {
        NodeView::Component { name, effects, tree: t } => {
            let c1 = coord.push(CoordView::Comp(name));
            law_effect_sites_resolve(*t, c1, dom_path, outside_in, extend_path);
            let inner = effect_sites(*t, c1, dom_path, outside_in, extend_path);
            let here: Seq<EffectSite> = if effects.len() > 0 {
                seq![(coord, dom_path)]
            } else {
                Seq::empty()
            };
            assert forall|k: int| 0 <= k < sites.len() implies #[trigger] site_resolves(tree, coord, sites[k]) by {
                let in_here = if outside_in {
                    k < here.len()
                } else {
                    k >= inner.len()
                };
                if in_here {
                    assert(sites[k] == (coord, dom_path));
                    assert(coord.take(coord.len() as int) =~= coord);
                    assert(coord.skip(coord.len() as int) =~= Seq::<CoordView>::empty());
                } else {
                    let j = if outside_in {
                        k - here.len()
                    } else {
                        k
                    };
                    assert(sites[k] == inner[j]);
                    assert(site_resolves(*t, c1, inner[j]));
                    let s0 = sites[k].0;
                    let rel = s0.skip(coord.len() as int);
                    assert(s0.take(coord.len() as int) =~= c1.take(coord.len() as int));
                    assert(c1.take(coord.len() as int) =~= coord);
                    assert(s0.take(c1.len() as int)[coord.len() as int] == s0[coord.len() as int]);
                    assert(c1[coord.len() as int] == CoordView::Comp(name));
                    assert(rel[0] == CoordView::Comp(name));
                    assert(rel.drop_first() =~= s0.skip(c1.len() as int));
                }
            }
            assert(sites == effect_sites(tree, coord, dom_path, outside_in, extend_path));
        },
        NodeView::Element { children, .. } => {
            lemma_children_sites_resolve(tree, children, 0, coord, dom_path, outside_in, extend_path);
            assert(sites == children_effect_sites(children, 0, coord, dom_path, outside_in, extend_path));
            assert(forall|k: int| 0 <= k < sites.len() ==> #[trigger] site_resolves(tree, coord, sites[k]));
        },
        NodeView::Referenced(x) => {
            law_effect_sites_resolve(*x, coord, dom_path, outside_in, extend_path);
            assert(sites == effect_sites(*x, coord, dom_path, outside_in, extend_path));
            assert forall|k: int| 0 <= k < sites.len() implies #[trigger] site_resolves(tree, coord, sites[k]) by {
                assert(site_resolves(*x, coord, sites[k]));
                let rel = sites[k].0.skip(coord.len() as int);
                if rel.len() == 0 {
                    assert(coord_target(*x, rel) == Ok::<NodeView<L, E>, Seq<char>>(*x));
                }
            }
        },
    }
}

proof fn lemma_children_sites_resolve<L: ?Sized, E: ?Sized>(
    tree: NodeView<L, E>,
    ch: Seq<(Seq<char>, NodeView<L, E>)>,
    i: int,
    coord: Seq<CoordView>,
    dom_path: Seq<u32>,
    outside_in: bool,
    extend_path: bool,
)
    requires
        tree matches NodeView::Element { children, .. } && children == ch,
        keys_distinct(ch),
        children_well_keyed(ch, i),
        0 <= i,
    ensures
        forall|k: int|
            0 <= k < children_effect_sites(ch, i, coord, dom_path, outside_in, extend_path).len()
                ==> #[trigger] site_resolves(
                tree,
                coord,
                children_effect_sites(ch, i, coord, dom_path, outside_in, extend_path)[k],
            ),
    decreases rest_size(ch, i), 1int,
{
    if i < ch.len() {
        let child_path = if extend_path {
            dom_path.push(i as u32)
        } else {
            dom_path
        };
        let c1 = coord.push(CoordView::Key(ch[i].0));
        crate::node::lemma_size_positive(ch[i].1);
        law_effect_sites_resolve(ch[i].1, c1, child_path, outside_in, extend_path);
        lemma_children_sites_resolve(tree, ch, i + 1, coord, dom_path, outside_in, extend_path);
        let first = effect_sites(ch[i].1, c1, child_path, outside_in, extend_path);
        let rest = children_effect_sites(ch, i + 1, coord, dom_path, outside_in, extend_path);
        let all = children_effect_sites(ch, i, coord, dom_path, outside_in, extend_path);
        assert(all == first + rest);
        assert(first_key_at(ch, ch[i].0, i));
        assert forall|k: int| 0 <= k < all.len() implies #[trigger] site_resolves(tree, coord, all[k]) by {
            if k < first.len() {
                assert(all[k] == first[k]);
                assert(site_resolves(ch[i].1, c1, first[k]));
                let s0 = all[k].0;
                let rel = s0.skip(coord.len() as int);
                assert(s0.take(coord.len() as int) =~= c1.take(coord.len() as int));
                assert(c1.take(coord.len() as int) =~= coord);
                assert(s0.take(c1.len() as int)[coord.len() as int] == s0[coord.len() as int]);
                assert(c1[coord.len() as int] == CoordView::Key(ch[i].0));
                assert(rel[0] == CoordView::Key(ch[i].0));
                assert(rel.drop_first() =~= s0.skip(c1.len() as int));
                let j = choose|j: int| first_key_at(ch, ch[i].0, j);
                if j < i {
                    assert(ch[j].0 != ch[i].0);
                } else if i < j {
                    assert(ch[i].0 != ch[i].0);
                }
            } else {
                assert(all[k] == rest[k - first.len()]);
            }
        }
    }
}

} // verus!
