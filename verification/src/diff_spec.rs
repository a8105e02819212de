//! What diffing a new tree against an old tree yields, stated over tree views.

use std::rc::Rc;
use vstd::prelude::*;
use vstd::std_specs::cmp::PartialEqSpec;

use crate::dom_change::{ChangeView, OpView};
use crate::node::{lemma_size_positive, rest_size, size, CoordView, NodeView, RespoEffectType};
use crate::pairs::last_wins;

verus! {

/// A place where component effects run: the component's coordinate and DOM path.
pub type EffectSite = (Seq<CoordView>, Seq<u32>);

/// The places of all components with effects in a tree, visiting a component before
/// (`outside_in`) or after its subtree; children extend the DOM path by their index
/// when `extend_path` holds.
pub open spec fn effect_sites<L: ?Sized, E: ?Sized>(
    tree: NodeView<L, E>,
    coord: Seq<CoordView>,
    path: Seq<u32>,
    outside_in: bool,
    extend_path: bool,
) -> Seq<EffectSite>
    decreases tree, 0int,
{
    match tree {
        NodeView::Component { name, effects, tree: t } => {
            let here: Seq<EffectSite> = if effects.len() > 0 {
                seq![(coord, path)]
            } else {
                Seq::empty()
            };
            let inner = effect_sites(*t, coord.push(CoordView::Comp(name)), path, outside_in, extend_path);
            if outside_in {
                here + inner
            } else {
                inner + here
            }
        },
        NodeView::Element { children, .. } => children_effect_sites(
            children,
            0,
            coord,
            path,
            outside_in,
            extend_path,
        ),
        NodeView::Referenced(t) => effect_sites(*t, coord, path, outside_in, extend_path),
    }
}

/// The effect places of the children from position `i` on, in order.
pub open spec fn children_effect_sites<L: ?Sized, E: ?Sized>(
    ch: Seq<(Seq<char>, NodeView<L, E>)>,
    i: int,
    coord: Seq<CoordView>,
    path: Seq<u32>,
    outside_in: bool,
    extend_path: bool,
) -> Seq<EffectSite>
    decreases ch, ch.len() - i,
{
    if i < 0 || i >= ch.len() {
        Seq::empty()
    } else {
        let child_path = if extend_path {
            path.push(i as u32)
        } else {
            path
        };
        effect_sites(ch[i].1, coord.push(CoordView::Key(ch[i].0)), child_path, outside_in, extend_path)
            + children_effect_sites(ch, i + 1, coord, path, outside_in, extend_path)
    }
}

/// Effect changes for effect places, none skipped.
pub open spec fn site_changes<L: ?Sized, E: ?Sized>(
    sites: Seq<EffectSite>,
    effect_type: RespoEffectType,
) -> Seq<ChangeView<L, E>> {
    sites.map_values(
        |s: EffectSite|
            ChangeView::Effect { coord: s.0, dom_path: s.1, effect_type: effect_type, skip: Set::empty() },
    )
}

/// Nested effect operations for effect places, none skipped.
pub open spec fn site_ops<L: ?Sized, E: ?Sized>(
    sites: Seq<EffectSite>,
    effect_type: RespoEffectType,
) -> Seq<OpView<L, E>> {
    sites.map_values(
        |s: EffectSite|
            OpView::NestedEffect { coord: s.0, dom_path: s.1, effect_type: effect_type, skip: Set::empty() },
    )
}

/// The entries of `new` that are absent from `old` or have another value there.
pub open spec fn changed_entries<V>(new: Map<Seq<char>, V>, old: Map<Seq<char>, V>) -> Map<Seq<char>, V> {
    Map::new(|k: Seq<char>| new.contains_key(k) && !(old.contains_key(k) && old[k] == new[k]), |k: Seq<char>| new[k])
}

/// The keys of `old` that are absent from `new`.
pub open spec fn dropped_keys<V>(new: Map<Seq<char>, V>, old: Map<Seq<char>, V>) -> Set<Seq<char>> {
    old.dom().difference(new.dom())
}

/// The attribute change of an element, if any.
pub open spec fn attrs_changes<L: ?Sized, E: ?Sized>(
    new: Seq<(Seq<char>, Seq<char>)>,
    old: Seq<(Seq<char>, Seq<char>)>,
    coord: Seq<CoordView>,
    path: Seq<u32>,
) -> Seq<ChangeView<L, E>> {
    let set = changed_entries(last_wins(new), last_wins(old));
    let unset = dropped_keys(last_wins(new), last_wins(old));
    if set == Map::<Seq<char>, Seq<char>>::empty() && unset == Set::<Seq<char>>::empty() {
        Seq::empty()
    } else {
        seq![ChangeView::ModifyAttrs { coord, dom_path: path, set, unset }]
    }
}

/// The inline style change of an element, if any.
pub open spec fn style_changes<L: ?Sized, E: ?Sized>(
    new: Seq<(Seq<char>, Seq<char>)>,
    old: Seq<(Seq<char>, Seq<char>)>,
    coord: Seq<CoordView>,
    path: Seq<u32>,
) -> Seq<ChangeView<L, E>> {
    let set = changed_entries(last_wins(new), last_wins(old));
    let unset = dropped_keys(last_wins(new), last_wins(old));
    if set == Map::<Seq<char>, Seq<char>>::empty() && unset == Set::<Seq<char>>::empty() {
        Seq::empty()
    } else {
        seq![ChangeView::ModifyStyle { coord, dom_path: path, set, unset }]
    }
}

/// The change of listened event names of an element, if any.
pub open spec fn event_changes<L: ?Sized, E: ?Sized>(
    new: Seq<(Seq<char>, Rc<L>)>,
    old: Seq<(Seq<char>, Rc<L>)>,
    coord: Seq<CoordView>,
    path: Seq<u32>,
) -> Seq<ChangeView<L, E>> {
    let new_keys = last_wins(new).dom();
    let old_keys = last_wins(old).dom();
    if new_keys == old_keys {
        Seq::empty()
    } else {
        seq![
            ChangeView::ModifyEvent {
                coord,
                dom_path: path,
                add: new_keys.difference(old_keys),
                remove: old_keys.difference(new_keys),
            },
        ]
    }
}

/// The positions (up to `u32::MAX`) whose effects are equal in both lists.
pub open spec fn unchanged_effects<E: ?Sized + PartialEq>(new: Seq<Rc<E>>, old: Seq<Rc<E>>) -> Set<u32> {
    Set::new(|i: u32| i < new.len() && i < old.len() && (*new[i as int]).eq_spec(&*old[i as int]))
}

/// The effect at position `i` of the new list has no equal effect at its position in the old list.
pub open spec fn differs_at<E: ?Sized + PartialEq>(new: Seq<Rc<E>>, old: Seq<Rc<E>>, i: int) -> bool {
    !(i < old.len() && (*new[i]).eq_spec(&*old[i]))
}

/// Some effect among the first `n` of the new list has no equal effect at its position in the old list.
pub open spec fn differs_before<E: ?Sized + PartialEq>(new: Seq<Rc<E>>, old: Seq<Rc<E>>, n: int) -> bool {
    exists|i: int| 0 <= i < n && #[trigger] differs_at(new, old, i)
}

/// Some effect of the new list has no equal effect at its position in the old list.
pub open spec fn effects_changed<E: ?Sized + PartialEq>(new: Seq<Rc<E>>, old: Seq<Rc<E>>) -> bool {
    differs_before(new, old, new.len() as int)
}

/// The effect changes of a component whose effects are to run again: before the update,
/// then after it, both skipping the positions in `skip`.
pub open spec fn update_effects<L: ?Sized, E: ?Sized>(coord: Seq<CoordView>, path: Seq<u32>, skip: Set<u32>) -> Seq<
    ChangeView<L, E>,
> {
    seq![
        ChangeView::Effect { coord, dom_path: path, effect_type: RespoEffectType::BeforeUpdate, skip },
        ChangeView::Effect { coord, dom_path: path, effect_type: RespoEffectType::Updated, skip },
    ]
}

/// The effect changes of a matched component: where some effect changed, both updates
/// skipping the unchanged positions; otherwise none.
pub open spec fn effect_updates<L: ?Sized, E: ?Sized + PartialEq>(
    new: Seq<Rc<E>>,
    old: Seq<Rc<E>>,
    coord: Seq<CoordView>,
    path: Seq<u32>,
) -> Seq<ChangeView<L, E>> {
    if effects_changed(new, old) {
        update_effects(coord, path, unchanged_effects(new, old))
    } else {
        Seq::empty()
    }
}

/// What comparing the effects of a matched component may record. Where `==` on effects
/// computes `eq_spec`, exactly `effect_updates`. Otherwise the outcome of each comparison
/// is the effect type's own: no change, which needs every new effect to have an old one
/// at its position, or both updates skipping some positions that exist in both lists.
pub open spec fn effect_part_ok<L: ?Sized, E: ?Sized + PartialEq>(
    new: Seq<Rc<E>>,
    old: Seq<Rc<E>>,
    coord: Seq<CoordView>,
    path: Seq<u32>,
    part: Seq<ChangeView<L, E>>,
) -> bool {
    if E::obeys_eq_spec() {
        part == effect_updates::<L, E>(new, old, coord, path)
    } else {
        ||| part == Seq::<ChangeView<L, E>>::empty() && new.len() <= old.len()
        ||| exists|skip: Set<u32>|
            #[trigger] update_effects::<L, E>(coord, path, skip) == part && (forall|i: u32|
                skip.contains(i) ==> i < new.len() && i < old.len())
    }
}

/// Replacing the old tree: its effects before unmounting, the replacement, then the
/// new tree's effects after mounting.
pub open spec fn replace_changes<L: ?Sized, E: ?Sized>(
    new: NodeView<L, E>,
    old: NodeView<L, E>,
    coord: Seq<CoordView>,
    path: Seq<u32>,
    node: NodeView<L, E>,
) -> Seq<ChangeView<L, E>> {
    site_changes(effect_sites(old, coord, path, false, true), RespoEffectType::BeforeUnmount) + seq![
        ChangeView::ReplaceElement { coord, dom_path: path, node },
    ] + site_changes(effect_sites(new, coord, path, true, true), RespoEffectType::Mounted)
}

/// The changes that turn the DOM of `old` into the DOM of `new`.
pub open spec fn spec_diff<L: ?Sized, E: ?Sized + PartialEq>(
    new: NodeView<L, E>,
    old: NodeView<L, E>,
    coord: Seq<CoordView>,
    path: Seq<u32>,
) -> Seq<ChangeView<L, E>>
    decreases size(new) + size(old), 0int,
{
    match (new, old) {
        (
            NodeView::Component { name: n1, effects: e1, tree: t1 },
            NodeView::Component { name: n2, effects: e2, tree: t2 },
        ) => {
            if n1 == n2 {
                spec_diff(*t1, *t2, coord.push(CoordView::Comp(n1)), path) + effect_updates(e1, e2, coord, path)
            } else {
                replace_changes(new, old, coord, path, *t1)
            }
        },
        (NodeView::Component { .. }, _) => replace_changes(new, old, coord, path, new),
        (_, NodeView::Component { .. }) => replace_changes(new, old, coord, path, new),
        (
            NodeView::Element { name: n1, attrs: a1, events: v1, style: s1, children: c1 },
            NodeView::Element { name: n2, attrs: a2, events: v2, style: s2, children: c2 },
        ) => {
            if n1 != n2 {
                replace_changes(new, old, coord, path, new)
            } else {
                attrs_changes(a1, a2, coord, path) + style_changes(s1, s2, coord, path) + event_changes(
                    v1,
                    v2,
                    coord,
                    path,
                ) + children_changes(c1, c2, coord, path)
            }
        },
        (NodeView::Referenced(a), NodeView::Referenced(b)) => spec_diff(*a, *b, coord, path),
        (NodeView::Referenced(a), _) => spec_diff(*a, old, coord, path),
        (_, NodeView::Referenced(b)) => spec_diff(new, *b, coord, path),
    }
}

/// The key `k` is among the three children after position `i`.
pub open spec fn key_ahead<L: ?Sized, E: ?Sized>(ch: Seq<(Seq<char>, NodeView<L, E>)>, i: int, k: Seq<char>) -> bool {
    ||| i + 1 < ch.len() && ch[i + 1].0 == k
    ||| i + 2 < ch.len() && ch[i + 2].0 == k
    ||| i + 3 < ch.len() && ch[i + 3].0 == k
}

/// Removing an old child at `cursor`: its effects before unmounting, then the removal.
pub open spec fn removal_ops<L: ?Sized, E: ?Sized>(entry: (Seq<char>, NodeView<L, E>), cursor: int) -> Seq<
    OpView<L, E>,
> {
    site_ops(
        effect_sites(entry.1, seq![CoordView::Key(entry.0)], seq![cursor as u32], false, false),
        RespoEffectType::BeforeUnmount,
    ) + seq![OpView::RemoveAt(cursor as u32)]
}

/// Inserting a new child at `cursor`.
pub open spec fn insert_op<L: ?Sized, E: ?Sized>(entry: (Seq<char>, NodeView<L, E>), cursor: int) -> Seq<
    OpView<L, E>,
> {
    if cursor == 0 {
        seq![OpView::Prepend(entry.0, entry.1)]
    } else {
        seq![OpView::InsertAfter((cursor - 1) as u32, entry.0, entry.1)]
    }
}

/// The effects of a new child at `cursor` after mounting.
pub open spec fn mount_ops<L: ?Sized, E: ?Sized>(entry: (Seq<char>, NodeView<L, E>), cursor: int) -> Seq<
    OpView<L, E>,
> {
    site_ops(
        effect_sites(entry.1, seq![CoordView::Key(entry.0)], seq![cursor as u32], true, false),
        RespoEffectType::Mounted,
    )
}

/// Walking both child lists from `ni` and `oi`, with `cursor` the position in the DOM:
/// the changes inside matched children, and the operations on the list of children.
pub open spec fn spec_children<L: ?Sized, E: ?Sized + PartialEq>(
    nc: Seq<(Seq<char>, NodeView<L, E>)>,
    oc: Seq<(Seq<char>, NodeView<L, E>)>,
    ni: int,
    oi: int,
    cursor: int,
    coord: Seq<CoordView>,
    path: Seq<u32>,
) -> (Seq<ChangeView<L, E>>, Seq<OpView<L, E>>)
    decreases rest_size(nc, ni) + rest_size(oc, oi), 1int,
{
    if ni < 0 || oi < 0 {
        (Seq::empty(), Seq::empty())
    } else if ni >= nc.len() {
        if oi >= oc.len() {
            (Seq::empty(), Seq::empty())
        } else {
            proof {
                lemma_size_positive(oc[oi].1);
            }
            let rest = spec_children(nc, oc, ni, oi + 1, cursor, coord, path);
            (rest.0, removal_ops(oc[oi], cursor) + rest.1)
        }
    } else if oi >= oc.len() {
        proof {
            lemma_size_positive(nc[ni].1);
        }
        let rest = spec_children(nc, oc, ni + 1, oi, cursor, coord, path);
        (rest.0, seq![OpView::Append(nc[ni].0, nc[ni].1)] + mount_ops(nc[ni], cursor) + rest.1)
    } else if nc[ni].0 == oc[oi].0 {
        let inner = spec_diff(nc[ni].1, oc[oi].1, coord.push(CoordView::Key(nc[ni].0)), path.push(cursor as u32));
        let rest = spec_children(nc, oc, ni + 1, oi + 1, cursor + 1, coord, path);
        (inner + rest.0, rest.1)
    } else if key_ahead(oc, oi, nc[ni].0) {
        proof {
            lemma_size_positive(oc[oi].1);
        }
        let rest = spec_children(nc, oc, ni, oi + 1, cursor, coord, path);
        (rest.0, removal_ops(oc[oi], cursor) + rest.1)
    } else if key_ahead(nc, ni, oc[oi].0) {
        proof {
            lemma_size_positive(nc[ni].1);
        }
        let rest = spec_children(nc, oc, ni + 1, oi, cursor + 1, coord, path);
        (rest.0, insert_op(nc[ni], cursor) + mount_ops(nc[ni], cursor) + rest.1)
    } else {
        let rest = spec_children(nc, oc, ni + 1, oi + 1, cursor + 1, coord, path);
        (rest.0, removal_ops(oc[oi], cursor) + insert_op(nc[ni], cursor) + mount_ops(nc[ni], cursor) + rest.1)
    }
}

/// The changes for the children of a matched element: changes inside matched children,
/// then one change holding the operations on the list, if there are any.
pub open spec fn children_changes<L: ?Sized, E: ?Sized + PartialEq>(
    nc: Seq<(Seq<char>, NodeView<L, E>)>,
    oc: Seq<(Seq<char>, NodeView<L, E>)>,
    coord: Seq<CoordView>,
    path: Seq<u32>,
) -> Seq<ChangeView<L, E>>
    decreases rest_size(nc, 0) + rest_size(oc, 0), 2int,
{
    let r = spec_children(nc, oc, 0, 0, 0, coord, path);
    r.0 + if r.1.len() > 0 {
        seq![ChangeView::ModifyChildren { coord, dom_path: path, operations: r.1 }]
    } else {
        Seq::empty()
    }
}


/// The changes `out` are what diffing `new` against `old` may record for any effect type:
/// as `spec_diff`, except that a component's effect changes are as `effect_part_ok` allows,
/// and that two shared subtrees with equal contents may be skipped without a change, as
/// happens where they are one allocation.
pub open spec fn diff_ok<L: ?Sized, E: ?Sized + PartialEq>(
    new: NodeView<L, E>,
    old: NodeView<L, E>,
    coord: Seq<CoordView>,
    path: Seq<u32>,
    out: Seq<ChangeView<L, E>>,
) -> bool
    decreases size(new) + size(old), 0int,
{
    match (new, old) {
        (
            NodeView::Component { name: n1, effects: e1, tree: t1 },
            NodeView::Component { name: n2, effects: e2, tree: t2 },
        ) => {
            if n1 == n2 {
                let inner_coord = coord.push(CoordView::Comp(n1));
                ||| diff_ok(*t1, *t2, inner_coord, path, out) && effect_part_ok(
                    e1,
                    e2,
                    coord,
                    path,
                    Seq::<ChangeView<L, E>>::empty(),
                )
                ||| out.len() >= 2 && diff_ok(*t1, *t2, inner_coord, path, out.take(out.len() - 2))
                    && effect_part_ok(e1, e2, coord, path, out.skip(out.len() - 2))
            } else {
                out == replace_changes(new, old, coord, path, *t1)
            }
        },
        (NodeView::Component { .. }, _) => out == replace_changes(new, old, coord, path, new),
        (_, NodeView::Component { .. }) => out == replace_changes(new, old, coord, path, new),
        (
            NodeView::Element { name: n1, attrs: a1, events: v1, style: s1, children: c1 },
            NodeView::Element { name: n2, attrs: a2, events: v2, style: s2, children: c2 },
        ) => {
            if n1 != n2 {
                out == replace_changes(new, old, coord, path, new)
            } else {
                let pre = attrs_changes::<L, E>(a1, a2, coord, path) + style_changes::<L, E>(s1, s2, coord, path) + event_changes::<L, E>(
                    v1,
                    v2,
                    coord,
                    path,
                );
                &&& pre.len() <= out.len()
                &&& out.take(pre.len() as int) == pre
                &&& children_ok(c1, c2, coord, path, out.skip(pre.len() as int))
            }
        },
        (NodeView::Referenced(a), NodeView::Referenced(b)) => {
            ||| out == Seq::<ChangeView<L, E>>::empty() && *a == *b
            ||| diff_ok(*a, *b, coord, path, out)
        },
        (NodeView::Referenced(a), _) => diff_ok(*a, old, coord, path, out),
        (_, NodeView::Referenced(b)) => diff_ok(new, *b, coord, path, out),
    }
}

/// The changes inside matched children along the walk of `spec_children` from `ni`, `oi`
/// and `cursor`, each as `diff_ok` allows, in order.
pub open spec fn matched_ok<L: ?Sized, E: ?Sized + PartialEq>(
    nc: Seq<(Seq<char>, NodeView<L, E>)>,
    oc: Seq<(Seq<char>, NodeView<L, E>)>,
    ni: int,
    oi: int,
    cursor: int,
    coord: Seq<CoordView>,
    path: Seq<u32>,
    out: Seq<ChangeView<L, E>>,
) -> bool
    decreases rest_size(nc, ni) + rest_size(oc, oi), 1int,
{
    if ni < 0 || oi < 0 || ni >= nc.len() || oi >= oc.len() {
        out == Seq::<ChangeView<L, E>>::empty()
    } else if nc[ni].0 == oc[oi].0 {
        exists|k: int|
            0 <= k <= out.len() && diff_ok(
                nc[ni].1,
                oc[oi].1,
                coord.push(CoordView::Key(nc[ni].0)),
                path.push(cursor as u32),
                #[trigger] out.take(k),
            ) && matched_ok(nc, oc, ni + 1, oi + 1, cursor + 1, coord, path, out.skip(k))
    } else if key_ahead(oc, oi, nc[ni].0) {
        proof {
            lemma_size_positive(oc[oi].1);
        }
        matched_ok(nc, oc, ni, oi + 1, cursor, coord, path, out)
    } else if key_ahead(nc, ni, oc[oi].0) {
        proof {
            lemma_size_positive(nc[ni].1);
        }
        matched_ok(nc, oc, ni + 1, oi, cursor + 1, coord, path, out)
    } else {
        matched_ok(nc, oc, ni + 1, oi + 1, cursor + 1, coord, path, out)
    }
}

/// The change recording the operations on a list of children, if there are any.
pub open spec fn list_change<L: ?Sized, E: ?Sized>(
    ops: Seq<OpView<L, E>>,
    coord: Seq<CoordView>,
    path: Seq<u32>,
) -> Seq<ChangeView<L, E>> {
    if ops.len() > 0 {
        seq![ChangeView::ModifyChildren { coord, dom_path: path, operations: ops }]
    } else {
        Seq::empty()
    }
}

/// The changes for the children of a matched element, for any effect type: changes inside
/// matched children as `matched_ok` allows, then the operations on the list exactly.
pub open spec fn children_ok<L: ?Sized, E: ?Sized + PartialEq>(
    nc: Seq<(Seq<char>, NodeView<L, E>)>,
    oc: Seq<(Seq<char>, NodeView<L, E>)>,
    coord: Seq<CoordView>,
    path: Seq<u32>,
    out: Seq<ChangeView<L, E>>,
) -> bool
    decreases rest_size(nc, 0) + rest_size(oc, 0), 2int,
{
    let tail = list_change(spec_children(nc, oc, 0, 0, 0, coord, path).1, coord, path);
    &&& tail.len() <= out.len()
    &&& out.skip(out.len() - tail.len()) == tail
    &&& matched_ok(nc, oc, 0, 0, 0, coord, path, out.take(out.len() - tail.len()))
}

/// Every effect compares equal to itself.
pub open spec fn eq_reflexive<E: ?Sized + PartialEq>() -> bool {
    forall|e: Rc<E>| #[trigger] (*e).eq_spec(&*e)
}

/// Comparing effects with `==` computes `eq_spec`, and every effect equals itself.
pub open spec fn effects_well_behaved<E: ?Sized + PartialEq>() -> bool {
    E::obeys_eq_spec() && eq_reflexive::<E>()
}

/// Diffing a tree against itself yields no change, when every effect equals itself.
pub proof fn lemma_diff_self<L: ?Sized, E: ?Sized + PartialEq>(
    t: NodeView<L, E>,
    coord: Seq<CoordView>,
    path: Seq<u32>,
)
    requires
        eq_reflexive::<E>(),
    ensures
        spec_diff(t, t, coord, path) == Seq::<ChangeView<L, E>>::empty(),
    decreases size(t) + size(t), 0int,
{
    match t {
        NodeView::Component { name, effects, tree } => {
            lemma_diff_self(*tree, coord.push(CoordView::Comp(name)), path);
            if effects_changed(effects, effects) {
                let i = choose|i: int| 0 <= i < effects.len() && #[trigger] differs_at(effects, effects, i);
                assert((*effects[i]).eq_spec(&*effects[i]));
            }
            assert(spec_diff(t, t, coord, path) =~= Seq::<ChangeView<L, E>>::empty() + Seq::<ChangeView<L, E>>::empty());
        },
        NodeView::Element { name, attrs, events, style, children } => {
            assert(changed_entries(last_wins(attrs), last_wins(attrs)) =~= Map::<Seq<char>, Seq<char>>::empty());
            assert(dropped_keys(last_wins(attrs), last_wins(attrs)) =~= Set::<Seq<char>>::empty());
            assert(changed_entries(last_wins(style), last_wins(style)) =~= Map::<Seq<char>, Seq<char>>::empty());
            assert(dropped_keys(last_wins(style), last_wins(style)) =~= Set::<Seq<char>>::empty());
            lemma_children_self(children, 0, 0, coord, path);
            assert(attrs_changes::<L, E>(attrs, attrs, coord, path) =~= Seq::<ChangeView<L, E>>::empty());
            assert(style_changes::<L, E>(style, style, coord, path) =~= Seq::<ChangeView<L, E>>::empty());
            assert(event_changes::<L, E>(events, events, coord, path) =~= Seq::<ChangeView<L, E>>::empty());
            assert(children_changes(children, children, coord, path) =~= Seq::<ChangeView<L, E>>::empty());
            assert(spec_diff(t, t, coord, path) =~= Seq::<ChangeView<L, E>>::empty());
        },
        NodeView::Referenced(a) => {
            lemma_diff_self(*a, coord, path);
        },
    }
}

/// Walking a child list against itself yields no change and no operation.
pub proof fn lemma_children_self<L: ?Sized, E: ?Sized + PartialEq>(
    c: Seq<(Seq<char>, NodeView<L, E>)>,
    i: int,
    cursor: int,
    coord: Seq<CoordView>,
    path: Seq<u32>,
)
    requires
        eq_reflexive::<E>(),
        0 <= i,
    ensures
        spec_children(c, c, i, i, cursor, coord, path) == (
            Seq::<ChangeView<L, E>>::empty(),
            Seq::<OpView<L, E>>::empty(),
        ),
    decreases rest_size(c, i) + rest_size(c, i), 1int,
{
    if i < c.len() {
        lemma_size_positive(c[i].1);
        lemma_diff_self(c[i].1, coord.push(CoordView::Key(c[i].0)), path.push(cursor as u32));
        lemma_children_self(c, i + 1, cursor + 1, coord, path);
        let r = spec_children(c, c, i, i, cursor, coord, path);
        assert(r.0 =~= Seq::<ChangeView<L, E>>::empty());
        assert(r.1 =~= Seq::<OpView<L, E>>::empty());
    }
}

} // verus!
