//! Diffing a new tree against the previous one into DOM changes.

use std::rc::Rc;
use vstd::prelude::*;
use vstd::std_specs::cmp::PartialEqSpec;

use crate::diff_spec::{
    attrs_changes, children_changes, children_effect_sites, effect_sites, effects_changed, event_changes,
    key_ahead, site_changes, site_ops, spec_children, spec_diff, style_changes, unchanged_effects, changed_entries,
    dropped_keys, replace_changes, removal_ops, insert_op, mount_ops, EffectSite, effects_well_behaved, diff_ok, children_ok, matched_ok, list_change, update_effects, effect_updates, effect_part_ok, lemma_diff_self, differs_at, differs_before,
};
use crate::delta::{diff_attrs, diff_event, diff_style};
use crate::dom_change::{changes_view, ops_view, text_set, ChangeView, ChildDomOp, DomChange, OpView};
use crate::node::{
    attrs_view, children_view, clone_coords, clone_path, coord_view, coords_push, events_view, lemma_child_view,
    lemma_children_view, lemma_rest_size_ge, path_push, rest_size, same_allocation, size, CoordView, NodeView,
    RespoCoord, RespoEffectType, RespoIndexKey, RespoNode, node_view,
};
use crate::pairs::{find_last_key, is_last_key_at, last_wins, lemma_last_wins_contains, lemma_last_wins_value};

verus! {

/// The first component of a pair.
pub fn fst<T, U>(pair: &(T, U)) -> (r: &T)
    ensures
        *r == pair.0,
{
    &pair.0
}

/// The views of effect places.
pub open spec fn sites_view(s: Seq<(Vec<RespoCoord>, Vec<u32>)>) -> Seq<EffectSite> {
    s.map_values(|p: (Vec<RespoCoord>, Vec<u32>)| (coord_view(p.0@), p.1@))
}

fn effect_sites_into<L: ?Sized, E: ?Sized>(
    tree: &RespoNode<L, E>,
    coord: &[RespoCoord],
    path: &[u32],
    outside_in: bool,
    extend_path: bool,
    out: &mut Vec<(Vec<RespoCoord>, Vec<u32>)>,
)
    ensures
        sites_view(final(out)@) == sites_view(old(out)@) + effect_sites(
            tree@,
            coord_view(coord@),
            path@,
            outside_in,
            extend_path,
        ),
    decreases size(tree@),
{
    let ghost start = sites_view(out@);
    match tree {
        RespoNode::Component(c) => {
            let has = c.effects.len() > 0;
            let next = coords_push(coord, RespoCoord::Comp(c.name.clone()));
            if outside_in && has {
                let ghost before = out@;
                out.push((clone_coords(coord), clone_path(path)));
                assert(sites_view(out@) =~= sites_view(before).push((coord_view(coord@), path@)));
            }
            let ghost mid = sites_view(out@);
            effect_sites_into(&c.tree, next.as_slice(), path, outside_in, extend_path, out);
            if !outside_in && has {
                let ghost before = out@;
                out.push((clone_coords(coord), clone_path(path)));
                assert(sites_view(out@) =~= sites_view(before).push((coord_view(coord@), path@)));
            }
            proof {
                let inner = effect_sites(
                    node_view(*c.tree),
                    coord_view(coord@).push(CoordView::Comp(c.name@)),
                    path@,
                    outside_in,
                    extend_path,
                );
                let here: Seq<EffectSite> = if has {
                    seq![(coord_view(coord@), path@)]
                } else {
                    Seq::empty()
                };
                if outside_in {
                    assert(sites_view(out@) =~= start + (here + inner));
                } else {
                    assert(sites_view(out@) =~= start + (inner + here));
                }
            }
        },
        RespoNode::Element(e) => {
            let ghost cv = e@->children;
            let ghost cd = coord_view(coord@);
            proof {
                lemma_children_view(e.children@, e.children@.len() as int);
            }
            let mut i: usize = 0;
            while i < e.children.len()
                invariant
                    i <= e.children@.len(),
                    cv == e@->children,
                    cv.len() == e.children@.len(),
                    tree@ == node_view(RespoNode::Element(*e)),
                    forall|j: int| 0 <= j < cv.len() ==> #[trigger] cv[j] == (e.children@[j].0@, node_view(e.children@[j].1)),
                    cd == coord_view(coord@),
                    sites_view(out@) + children_effect_sites(cv, i as int, cd, path@, outside_in, extend_path)
                        == start + children_effect_sites(cv, 0, cd, path@, outside_in, extend_path),
                decreases e.children@.len() - i,
            {
                proof {
                    lemma_child_view(*e, i as int);
                }
                let next = coords_push(coord, RespoCoord::Key(RespoIndexKey(e.children[i].0.0.clone())));
                let ghost before = sites_view(out@);
                let ghost child_path = if extend_path {
                    path@.push(i as u32)
                } else {
                    path@
                };
                if extend_path {
                    let p = path_push(path, i as u32);
                    effect_sites_into(&e.children[i].1, next.as_slice(), p.as_slice(), outside_in, extend_path, out);
                } else {
                    effect_sites_into(&e.children[i].1, next.as_slice(), path, outside_in, extend_path, out);
                }
                proof {
                    let es = effect_sites(
                        cv[i as int].1,
                        cd.push(CoordView::Key(cv[i as int].0)),
                        child_path,
                        outside_in,
                        extend_path,
                    );
                    let r1 = children_effect_sites(cv, i + 1, cd, path@, outside_in, extend_path);
                    assert(children_effect_sites(cv, i as int, cd, path@, outside_in, extend_path) == es + r1);
                    assert(sites_view(out@) == before + es);
                    assert(before + (es + r1) =~= (before + es) + r1);
                }
                i = i + 1;
            }
            proof {
                assert(sites_view(out@) + Seq::<EffectSite>::empty() =~= sites_view(out@));
            }
        },
        RespoNode::Referenced(rc) => {
            effect_sites_into(&**rc, coord, path, outside_in, extend_path, out);
        },
    }
}


fn push_site_changes<L: ?Sized, E: ?Sized>(
    sites: &Vec<(Vec<RespoCoord>, Vec<u32>)>,
    effect_type: RespoEffectType,
    changes: &mut Vec<DomChange<L, E>>,
)
    ensures
        changes_view(final(changes)@) == changes_view(old(changes)@) + site_changes::<L, E>(
            sites_view(sites@),
            effect_type,
        ),
{
    let ghost start = changes_view(changes@);
    let ghost sv = sites_view(sites@);
    let mut i: usize = 0;
    while i < sites.len()
        invariant
            i <= sites@.len(),
            sv == sites_view(sites@),
            changes_view(changes@) == start + site_changes::<L, E>(sv.subrange(0, i as int), effect_type),
        decreases sites@.len() - i,
    {
        let c = DomChange::Effect {
            coord: clone_coords(sites[i].0.as_slice()),
            dom_path: clone_path(sites[i].1.as_slice()),
            effect_type,
            skip_indexes: Vec::new(),
        };
        let ghost before = changes@;
        changes.push(c);
        proof {
            assert(Seq::<u32>::empty().to_set() =~= Set::<u32>::empty());
            assert(changes_view(changes@) =~= changes_view(before).push(c@));
            assert(sv.subrange(0, i + 1) =~= sv.subrange(0, i as int).push(sv[i as int]));
            assert(site_changes::<L, E>(sv.subrange(0, i + 1), effect_type) =~= site_changes::<L, E>(
                sv.subrange(0, i as int),
                effect_type,
            ).push(c@));
        }
        i = i + 1;
    }
    assert(sv.subrange(0, sites@.len() as int) =~= sv);
}

fn push_site_ops<L: ?Sized, E: ?Sized>(
    sites: &Vec<(Vec<RespoCoord>, Vec<u32>)>,
    effect_type: RespoEffectType,
    operations: &mut Vec<ChildDomOp<L, E>>,
)
    ensures
        ops_view(final(operations)@) == ops_view(old(operations)@) + site_ops::<L, E>(
            sites_view(sites@),
            effect_type,
        ),
{
    let ghost start = ops_view(operations@);
    let ghost sv = sites_view(sites@);
    let mut i: usize = 0;
    while i < sites.len()
        invariant
            i <= sites@.len(),
            sv == sites_view(sites@),
            ops_view(operations@) == start + site_ops::<L, E>(sv.subrange(0, i as int), effect_type),
        decreases sites@.len() - i,
    {
        let c = ChildDomOp::NestedEffect {
            nested_coord: clone_coords(sites[i].0.as_slice()),
            nested_dom_path: clone_path(sites[i].1.as_slice()),
            effect_type,
            skip_indexes: Vec::new(),
        };
        let ghost before = operations@;
        operations.push(c);
        proof {
            assert(Seq::<u32>::empty().to_set() =~= Set::<u32>::empty());
            assert(ops_view(operations@) =~= ops_view(before).push(c@));
            assert(sv.subrange(0, i + 1) =~= sv.subrange(0, i as int).push(sv[i as int]));
            assert(site_ops::<L, E>(sv.subrange(0, i + 1), effect_type) =~= site_ops::<L, E>(
                sv.subrange(0, i as int),
                effect_type,
            ).push(c@));
        }
        i = i + 1;
    }
    assert(sv.subrange(0, sites@.len() as int) =~= sv);
}

/// Collects the effects of all components of a tree, a component's before those inside it;
/// children extend the DOM path by their index.
pub fn collect_effects_outside_in_as<L: ?Sized, E: ?Sized>(
    tree: &RespoNode<L, E>,
    coord: &[RespoCoord],
    dom_path: &[u32],
    effect_type: RespoEffectType,
    changes: &mut Vec<DomChange<L, E>>,
) -> (r: Result<(), String>)
    ensures
        r is Ok,
        changes_view(final(changes)@) == changes_view(old(changes)@) + site_changes::<L, E>(
            effect_sites(tree@, coord_view(coord@), dom_path@, true, true),
            effect_type,
        ),
{
    let mut sites: Vec<(Vec<RespoCoord>, Vec<u32>)> = Vec::new();
    effect_sites_into(tree, coord, dom_path, true, true, &mut sites);
    assert(sites_view(sites@) =~= Seq::<EffectSite>::empty() + effect_sites(tree@, coord_view(coord@), dom_path@, true, true));
    push_site_changes(&sites, effect_type, changes);
    Ok(())
}

/// Collects the effects of all components of a tree, those inside a component before its own;
/// children extend the DOM path by their index.
pub fn collect_effects_inside_out_as<L: ?Sized, E: ?Sized>(
    tree: &RespoNode<L, E>,
    coord: &[RespoCoord],
    dom_path: &[u32],
    effect_type: RespoEffectType,
    changes: &mut Vec<DomChange<L, E>>,
) -> (r: Result<(), String>)
    ensures
        r is Ok,
        changes_view(final(changes)@) == changes_view(old(changes)@) + site_changes::<L, E>(
            effect_sites(tree@, coord_view(coord@), dom_path@, false, true),
            effect_type,
        ),
{
    let mut sites: Vec<(Vec<RespoCoord>, Vec<u32>)> = Vec::new();
    effect_sites_into(tree, coord, dom_path, false, true, &mut sites);
    assert(sites_view(sites@) =~= Seq::<EffectSite>::empty() + effect_sites(tree@, coord_view(coord@), dom_path@, false, true));
    push_site_changes(&sites, effect_type, changes);
    Ok(())
}

/// Collects the effects of all components of a child tree as child operations, a component's
/// before those inside it; all of them keep the DOM path given.
pub fn nested_effects_outside_in_as<L: ?Sized, E: ?Sized>(
    tree: &RespoNode<L, E>,
    coord: &[RespoCoord],
    dom_path: &[u32],
    effect_type: RespoEffectType,
    operations: &mut Vec<ChildDomOp<L, E>>,
) -> (r: Result<(), String>)
    ensures
        r is Ok,
        ops_view(final(operations)@) == ops_view(old(operations)@) + site_ops::<L, E>(
            effect_sites(tree@, coord_view(coord@), dom_path@, true, false),
            effect_type,
        ),
{
    let mut sites: Vec<(Vec<RespoCoord>, Vec<u32>)> = Vec::new();
    effect_sites_into(tree, coord, dom_path, true, false, &mut sites);
    assert(sites_view(sites@) =~= Seq::<EffectSite>::empty() + effect_sites(tree@, coord_view(coord@), dom_path@, true, false));
    push_site_ops(&sites, effect_type, operations);
    Ok(())
}

/// Collects the effects of all components of a child tree as child operations, those inside a
/// component before its own; all of them keep the DOM path given.
pub fn nested_effects_inside_out_as<L: ?Sized, E: ?Sized>(
    tree: &RespoNode<L, E>,
    coord: &[RespoCoord],
    dom_path: &[u32],
    effect_type: RespoEffectType,
    operations: &mut Vec<ChildDomOp<L, E>>,
) -> (r: Result<(), String>)
    ensures
        r is Ok,
        ops_view(final(operations)@) == ops_view(old(operations)@) + site_ops::<L, E>(
            effect_sites(tree@, coord_view(coord@), dom_path@, false, false),
            effect_type,
        ),
{
    let mut sites: Vec<(Vec<RespoCoord>, Vec<u32>)> = Vec::new();
    effect_sites_into(tree, coord, dom_path, false, false, &mut sites);
    assert(sites_view(sites@) =~= Seq::<EffectSite>::empty() + effect_sites(tree@, coord_view(coord@), dom_path@, false, false));
    push_site_ops(&sites, effect_type, operations);
    Ok(())
}


/// Whether `key` is the key of one of the three children after position `i`.
fn key_within_three<L: ?Sized, E: ?Sized>(
    ch: &Vec<(RespoIndexKey, RespoNode<L, E>)>,
    i: usize,
    key: &RespoIndexKey,
) -> (r: bool)
    requires
        i < ch@.len(),
    ensures
        r == key_ahead(children_view(ch@, ch@.len() as int), i as int, key@),
{
    proof {
        lemma_children_view(ch@, ch@.len() as int);
    }
    let n = ch.len();
    let r = (n - i > 1 && fst(&ch[i + 1]).0 == key.0) || (n - i > 2 && fst(&ch[i + 2]).0 == key.0) || (n - i > 3
        && fst(&ch[i + 3]).0 == key.0);
    r
}

/// Records replacing the old tree by `node`: effects of the old tree before unmounting,
/// the replacement, then effects of the new tree after mounting.
/// A matched component: the changes inside it, then its effect changes.
proof fn lemma_component_ok<L: ?Sized, E: ?Sized + PartialEq>(
    new: NodeView<L, E>,
    old: NodeView<L, E>,
    coord: Seq<CoordView>,
    path: Seq<u32>,
    inner: Seq<ChangeView<L, E>>,
    part: Seq<ChangeView<L, E>>,
)
    requires
        new matches NodeView::Component { name: n1, effects: e1, tree: t1 } && old matches NodeView::Component {
            name: n2,
            effects: e2,
            tree: t2,
        } && n1 == n2 && diff_ok(*t1, *t2, coord.push(CoordView::Comp(n1)), path, inner) && effect_part_ok(
            e1,
            e2,
            coord,
            path,
            part,
        ),
        part.len() == 0 || part.len() == 2,
    ensures
        diff_ok(new, old, coord, path, inner + part),
{
    let out = inner + part;
    if part.len() == 0 {
        assert(out =~= inner);
        assert(part =~= Seq::<ChangeView<L, E>>::empty());
    } else {
        assert(out.take(out.len() - 2) =~= inner);
        assert(out.skip(out.len() - 2) =~= part);
    }
}

/// A matched element: its attribute, style and event changes, then those of its children.
proof fn lemma_element_ok<L: ?Sized, E: ?Sized + PartialEq>(
    new: NodeView<L, E>,
    old: NodeView<L, E>,
    coord: Seq<CoordView>,
    path: Seq<u32>,
    pre: Seq<ChangeView<L, E>>,
    rest: Seq<ChangeView<L, E>>,
)
    requires
        new matches NodeView::Element { name: n1, attrs: a1, events: v1, style: s1, children: c1 }
            && old matches NodeView::Element { name: n2, attrs: a2, events: v2, style: s2, children: c2 } && n1 == n2
            && children_ok(c1, c2, coord, path, rest) && pre == attrs_changes::<L, E>(a1, a2, coord, path)
            + style_changes::<L, E>(s1, s2, coord, path) + event_changes::<L, E>(v1, v2, coord, path),
    ensures
        diff_ok(new, old, coord, path, pre + rest),
{
    let out = pre + rest;
    assert(out.take(pre.len() as int) =~= pre);
    assert(out.skip(pre.len() as int) =~= rest);
}

/// Changes that extend `before` by `part` keep `before` in front and append exactly `part`.
proof fn lemma_appended<L: ?Sized, E: ?Sized>(
    before: Seq<DomChange<L, E>>,
    after: Seq<DomChange<L, E>>,
    part: Seq<ChangeView<L, E>>,
)
    requires
        changes_view(after) == changes_view(before) + part,
    ensures
        before.len() <= after.len(),
        changes_view(after).take(before.len() as int) == changes_view(before),
        changes_view(after).skip(before.len() as int) == part,
{
    assert(changes_view(after).len() == after.len());
    assert(changes_view(before).len() == before.len());
    assert(changes_view(after).take(before.len() as int) =~= changes_view(before));
    assert(changes_view(after).skip(before.len() as int) =~= part);
}

fn replace_tree<L: ?Sized, E: ?Sized>(
    new_tree: &RespoNode<L, E>,
    old_tree: &RespoNode<L, E>,
    coord: &[RespoCoord],
    dom_path: &[u32],
    node: RespoNode<L, E>,
    changes: &mut Vec<DomChange<L, E>>,
) -> (r: Result<(), String>)
    ensures
        r is Ok,
        changes_view(final(changes)@) == changes_view(old(changes)@) + replace_changes(
            new_tree@,
            old_tree@,
            coord_view(coord@),
            dom_path@,
            node@,
        ),
        old(changes)@.len() <= final(changes)@.len(),
        changes_view(final(changes)@).take(old(changes)@.len() as int) == changes_view(old(changes)@),
        changes_view(final(changes)@).skip(old(changes)@.len() as int) == replace_changes(
            new_tree@,
            old_tree@,
            coord_view(coord@),
            dom_path@,
            node@,
        ),
{
    let ghost start = changes_view(changes@);
    let ghost before = changes@;
    let ghost cd = coord_view(coord@);
    collect_effects_inside_out_as(old_tree, coord, dom_path, RespoEffectType::BeforeUnmount, changes)?;
    let ghost mid = changes@;
    let c = DomChange::ReplaceElement { coord: clone_coords(coord), dom_path: clone_path(dom_path), node };
    changes.push(c);
    assert(changes_view(changes@) =~= changes_view(mid).push(c@));
    collect_effects_outside_in_as(new_tree, coord, dom_path, RespoEffectType::Mounted, changes)?;
    assert(changes_view(changes@) =~= start + replace_changes(new_tree@, old_tree@, cd, dom_path@, node@));
    proof {
        lemma_appended(before, changes@, replace_changes(new_tree@, old_tree@, cd, dom_path@, node@));
    }
    Ok(())
}

/// Records the changes that turn the DOM of `old_tree` into the DOM of `new_tree`.
///
/// For every effect type the changes appended are as `diff_ok` allows: replacements,
/// attribute, style, event and child-list changes exactly as `spec_diff` has them; the
/// effect changes of a matched component exactly as `effect_updates` has them where `==`
/// on effects computes `eq_spec`, and otherwise as the effect type's `PartialEq` decides;
/// and two shared subtrees that are one allocation are skipped. Where moreover every
/// effect equals itself (`effects_well_behaved`), the changes are exactly `spec_diff`.
#[verifier::rlimit(40)]
pub fn diff_tree<L: ?Sized, E: ?Sized + PartialEq>(
    new_tree: &RespoNode<L, E>,
    old_tree: &RespoNode<L, E>,
    coord: &[RespoCoord],
    dom_path: &[u32],
    changes: &mut Vec<DomChange<L, E>>,
) -> (r: Result<(), String>)
    ensures
        r is Ok,
        effects_well_behaved::<E>() ==> changes_view(final(changes)@) == changes_view(old(changes)@) + spec_diff(
            new_tree@,
            old_tree@,
            coord_view(coord@),
            dom_path@,
        ),
        old(changes)@.len() <= final(changes)@.len(),
        changes_view(final(changes)@).take(old(changes)@.len() as int) == changes_view(old(changes)@),
        diff_ok(
            new_tree@,
            old_tree@,
            coord_view(coord@),
            dom_path@,
            changes_view(final(changes)@).skip(old(changes)@.len() as int),
        ),
    decreases size(new_tree@) + size(old_tree@), 0int,
{
    let ghost start = changes_view(changes@);
    let ghost slen = changes@.len() as int;
    let ghost cd = coord_view(coord@);
    match new_tree {
        RespoNode::Component(c1) => {
            match old_tree {
                RespoNode::Component(c2) => {
                    if c1.name == c2.name {
                        let next = coords_push(coord, RespoCoord::Comp(c1.name.clone()));
                        diff_tree(&c1.tree, &c2.tree, next.as_slice(), dom_path, changes)?;
                        let ghost mid = changes_view(changes@);
                        let ghost mid_len = changes@.len() as int;
                        let ghost inner_out = mid.skip(slen);
                        let mut skipped: Vec<u32> = Vec::new();
                        let mut changed = false;
                        let mut idx: usize = 0;
                        while idx < c1.effects.len()
                            invariant
                                idx <= c1.effects@.len(),
                                E::obeys_eq_spec() ==> forall|k: u32|
                                    skipped@.contains(k) <==> k < idx && k < c2.effects@.len() && (
                                    *c1.effects@[k as int]).eq_spec(&*c2.effects@[k as int]),
                                E::obeys_eq_spec() ==> (changed <==> differs_before(
                                    c1.effects@,
                                    c2.effects@,
                                    idx as int,
                                )),
                                forall|k: u32| skipped@.contains(k) ==> k < idx && k < c2.effects@.len(),
                                !changed ==> idx <= c2.effects@.len(),
                            decreases c1.effects@.len() - idx,
                        {
                            let same = if idx < c2.effects.len() {
                                let b = (*c1.effects[idx]).eq(&*c2.effects[idx]);
                                b
                            } else {
                                false
                            };
                            let ghost before = skipped@;
                            let ghost was = changed;
                            proof {
                                if E::obeys_eq_spec() {
                                    assert(same == (idx < c2.effects@.len() && (*c1.effects@[idx as int]).eq_spec(
                                        &*c2.effects@[idx as int],
                                    )));
                                }
                            }
                            if same {
                                if idx <= 0xffff_ffffusize {
                                    skipped.push(idx as u32);
                                }
                            } else {
                                changed = true;
                            }
                            proof {
                                assert forall|k: u32| skipped@.contains(k) implies k < idx + 1 && k < c2.effects@.len() by {
                                    if same && idx <= 0xffff_ffffusize {
                                        if k != idx as u32 {
                                            let t = choose|t: int| 0 <= t < skipped@.len() && skipped@[t] == k;
                                            assert(before[t] == k);
                                            assert(before.contains(k));
                                        }
                                    } else {
                                        assert(skipped@ == before);
                                    }
                                }
                            }
                            proof { if E::obeys_eq_spec() {
                                assert forall|k: u32|
                                    skipped@.contains(k) <==> k < idx + 1 && k < c2.effects@.len() && (
                                    *c1.effects@[k as int]).eq_spec(&*c2.effects@[k as int]) by {
                                    if same && idx <= 0xffff_ffffusize {
                                        assert(skipped@ == before.push(idx as u32));
                                        if skipped@.contains(k) && k != idx as u32 {
                                            let t = choose|t: int| 0 <= t < skipped@.len() && skipped@[t] == k;
                                            assert(before[t] == k);
                                        }
                                        if before.contains(k) {
                                            let t = choose|t: int| 0 <= t < before.len() && before[t] == k;
                                            assert(skipped@[t] == k);
                                        }
                                        if k == idx as u32 {
                                            assert(skipped@[before.len() as int] == k);
                                        }
                                    } else {
                                        assert(skipped@ == before);
                                    }
                                }
                                assert(changed <==> differs_before(c1.effects@, c2.effects@, idx + 1)) by {
                                    if was {
                                        let t = choose|t: int| 0 <= t < idx && #[trigger] differs_at(c1.effects@, c2.effects@, t);
                                        assert(differs_at(c1.effects@, c2.effects@, t));
                                    }
                                    if !same {
                                        assert(differs_at(c1.effects@, c2.effects@, idx as int));
                                    }
                                    if differs_before(c1.effects@, c2.effects@, idx + 1) {
                                        let t = choose|t: int| 0 <= t < idx + 1 && #[trigger] differs_at(c1.effects@, c2.effects@, t);
                                        if t < idx {
                                            assert(differs_before(c1.effects@, c2.effects@, idx as int));
                                        }
                                    }
                                }
                            } }
                            idx = idx + 1;
                        }
                        proof {
                            if E::obeys_eq_spec() {
                                assert(skipped@.to_set() =~= unchanged_effects(c1.effects@, c2.effects@));
                            }
                        }
                        let ghost part: Seq<ChangeView<L, E>> = if changed {
                            update_effects(cd, dom_path@, skipped@.to_set())
                        } else {
                            Seq::empty()
                        };
                        proof {
                            if E::obeys_eq_spec() {
                                assert(changed == effects_changed(c1.effects@, c2.effects@));
                                assert(part =~= effect_updates::<L, E>(c1.effects@, c2.effects@, cd, dom_path@));
                            } else if changed {
                                assert(update_effects::<L, E>(cd, dom_path@, skipped@.to_set()) == part);
                                assert forall|i: u32| skipped@.to_set().contains(i) implies i < c1.effects@.len() && i
                                    < c2.effects@.len() by {
                                    assert(skipped@.contains(i));
                                }
                            } else {
                                assert(part =~= Seq::<ChangeView<L, E>>::empty());
                            }
                            assert(effect_part_ok(c1.effects@, c2.effects@, cd, dom_path@, part));
                        }
                        let ghost pre_push = changes@;
                        if changed {
                            let ghost before = changes@;
                            let c = DomChange::Effect {
                                coord: clone_coords(coord),
                                dom_path: clone_path(dom_path),
                                effect_type: RespoEffectType::BeforeUpdate,
                                skip_indexes: clone_path(skipped.as_slice()),
                            };
                            changes.push(c);
                            let d = DomChange::Effect {
                                coord: clone_coords(coord),
                                dom_path: clone_path(dom_path),
                                effect_type: RespoEffectType::Updated,
                                skip_indexes: skipped,
                            };
                            changes.push(d);
                            assert(changes_view(changes@) =~= changes_view(before).push(c@).push(d@));
                            assert(c@ == ChangeView::<L, E>::Effect {
                                coord: cd,
                                dom_path: dom_path@,
                                effect_type: RespoEffectType::BeforeUpdate,
                                skip: skipped@.to_set(),
                            });
                            assert(changes_view(changes@) =~= mid + part);
                        } else {
                            assert(changes_view(changes@) =~= mid + part);
                        }
                        proof {
                            let fv = changes_view(changes@);
                            let out = fv.skip(slen);
                            assert(fv.len() == changes@.len());
                            assert(mid.len() == mid_len);
                            assert(fv.take(slen) =~= mid.take(slen));
                            assert(out =~= inner_out + part);
                            lemma_component_ok(new_tree@, old_tree@, cd, dom_path@, inner_out, part);
                        }
                        proof {
                            if effects_well_behaved::<E>() {
                                assert(changes_view(changes@) =~= start + spec_diff(
                                    new_tree@,
                                    old_tree@,
                                    cd,
                                    dom_path@,
                                ));
                            }
                        }
                        Ok(())
                    } else {
                        replace_tree(new_tree, old_tree, coord, dom_path, c1.tree.clone_node(), changes)
                    }
                },
                _ => replace_tree(new_tree, old_tree, coord, dom_path, new_tree.clone_node(), changes),
            }
        },
        RespoNode::Element(e1) => {
            match old_tree {
                RespoNode::Component(_) => replace_tree(
                    new_tree,
                    old_tree,
                    coord,
                    dom_path,
                    new_tree.clone_node(),
                    changes,
                ),
                RespoNode::Element(e2) => {
                    if e1.name != e2.name {
                        replace_tree(new_tree, old_tree, coord, dom_path, new_tree.clone_node(), changes)
                    } else {
                        let ghost before_attrs = changes@;
                        diff_attrs(&e1.attributes, &e2.attributes, coord, dom_path, changes);
                        let ghost a = changes_view(changes@);
                        diff_style(&e1.style.0, &e2.style.0, coord, dom_path, changes);
                        let ghost b = changes_view(changes@);
                        diff_event(&e1.event, &e2.event, coord, dom_path, changes);
                        let ghost c = changes_view(changes@);
                        proof {
                            lemma_children_view(e1.children@, e1.children@.len() as int);
                            lemma_children_view(e2.children@, e2.children@.len() as int);
                        }
                        let ghost before_children = changes@;
                        diff_children(&e1.children, &e2.children, coord, dom_path, changes)?;
                        proof {
                            assert(e1.style.rules() == attrs_view(e1.style.0@));
                            assert(e2.style.rules() == attrs_view(e2.style.0@));
                            let pre = attrs_changes::<L, E>(attrs_view(e1.attributes@), attrs_view(e2.attributes@), cd, dom_path@)
                                + style_changes::<L, E>(e1.style.rules(), e2.style.rules(), cd, dom_path@)
                                + event_changes::<L, E>(events_view(e1.event@), events_view(e2.event@), cd, dom_path@);
                            assert(c =~= start + pre);
                            let fv = changes_view(changes@);
                            let out = fv.skip(slen);
                            assert(fv.len() == changes@.len());
                            assert(c.len() == before_children.len());
                            assert(fv.take(slen) =~= start);
                            assert(e1.style.rules() == attrs_view(e1.style.0@));
                            assert(e2.style.rules() == attrs_view(e2.style.0@));
                            let rest = fv.skip(before_children.len() as int);
                            assert(changes_view(before_children) == c);
                            assert(fv.take(before_children.len() as int) == c);
                            assert(fv =~= fv.take(before_children.len() as int) + rest);
                            assert(fv =~= start + (pre + rest));
                            assert(out =~= pre + rest);
                            lemma_element_ok(new_tree@, old_tree@, cd, dom_path@, pre, rest);
                        }
                        proof {
                            assert(e1.style.rules() == attrs_view(e1.style.0@));
                            assert(e2.style.rules() == attrs_view(e2.style.0@));
                            if effects_well_behaved::<E>() {
                                assert(changes_view(changes@) =~= start + spec_diff(
                                    new_tree@,
                                    old_tree@,
                                    cd,
                                    dom_path@,
                                ));
                            }
                        }
                        Ok(())
                    }
                },
                RespoNode::Referenced(b) => diff_tree(new_tree, &**b, coord, dom_path, changes),
            }
        },
        RespoNode::Referenced(a) => {
            match old_tree {
                RespoNode::Component(_) => replace_tree(
                    new_tree,
                    old_tree,
                    coord,
                    dom_path,
                    new_tree.clone_node(),
                    changes,
                ),
                RespoNode::Referenced(b) => {
                    if same_allocation(a, b) {
                        proof {
                            assert(changes_view(changes@).take(slen) =~= start);
                            assert(changes_view(changes@).skip(slen) =~= Seq::<ChangeView<L, E>>::empty());
                            assert(node_view(**a) == node_view(**b));
                            if effects_well_behaved::<E>() {
                                lemma_diff_self((**a)@, cd, dom_path@);
                                assert(changes_view(changes@) =~= start + Seq::<ChangeView<L, E>>::empty());
                            }
                        }
                        Ok(())
                    } else {
                        diff_tree(&**a, &**b, coord, dom_path, changes)
                    }
                },
                RespoNode::Element(_) => diff_tree(&**a, old_tree, coord, dom_path, changes),
            }
        },
    }
}

/// Records removing the old child `entry` at `cursor`, after its effects before unmounting.
fn push_removal<L: ?Sized, E: ?Sized>(
    entry: &(RespoIndexKey, RespoNode<L, E>),
    cursor: usize,
    operations: &mut Vec<ChildDomOp<L, E>>,
) -> (r: Result<(), String>)
    ensures
        r is Ok,
        ops_view(final(operations)@) == ops_view(old(operations)@) + removal_ops((entry.0@, entry.1@), cursor as int),
{
    let ghost start = ops_view(operations@);
    let child_coord = vec![RespoCoord::Key(RespoIndexKey(entry.0.0.clone()))];
    let child_path = vec![cursor as u32];
    assert(child_path@ == seq![cursor as u32]);
    assert(coord_view(child_coord@) =~= seq![CoordView::Key(entry.0@)]);
    nested_effects_inside_out_as(
        &entry.1,
        child_coord.as_slice(),
        child_path.as_slice(),
        RespoEffectType::BeforeUnmount,
        operations,
    )?;
    let ghost mid = operations@;
    operations.push(ChildDomOp::RemoveAt(cursor as u32));
    assert(ops_view(operations@) =~= ops_view(mid).push(OpView::RemoveAt(cursor as u32)));
    assert(ops_view(operations@) =~= start + removal_ops((entry.0@, entry.1@), cursor as int));
    Ok(())
}

/// Records the effects of the new child `entry` at `cursor` after mounting.
fn push_mounted<L: ?Sized, E: ?Sized>(
    entry: &(RespoIndexKey, RespoNode<L, E>),
    cursor: usize,
    operations: &mut Vec<ChildDomOp<L, E>>,
) -> (r: Result<(), String>)
    ensures
        r is Ok,
        ops_view(final(operations)@) == ops_view(old(operations)@) + mount_ops((entry.0@, entry.1@), cursor as int),
{
    let child_coord = vec![RespoCoord::Key(RespoIndexKey(entry.0.0.clone()))];
    let child_path = vec![cursor as u32];
    assert(child_path@ == seq![cursor as u32]);
    assert(coord_view(child_coord@) =~= seq![CoordView::Key(entry.0@)]);
    nested_effects_outside_in_as(
        &entry.1,
        child_coord.as_slice(),
        child_path.as_slice(),
        RespoEffectType::Mounted,
        operations,
    )
}

/// Records inserting the new child `entry` at `cursor`, then its effects after mounting.
fn push_insertion<L: ?Sized, E: ?Sized>(
    entry: &(RespoIndexKey, RespoNode<L, E>),
    cursor: usize,
    operations: &mut Vec<ChildDomOp<L, E>>,
) -> (r: Result<(), String>)
    ensures
        r is Ok,
        ops_view(final(operations)@) == ops_view(old(operations)@) + insert_op((entry.0@, entry.1@), cursor as int)
            + mount_ops((entry.0@, entry.1@), cursor as int),
{
    let ghost start = ops_view(operations@);
    let op = if cursor == 0 {
        ChildDomOp::Prepend(RespoIndexKey(entry.0.0.clone()), entry.1.clone_node())
    } else {
        ChildDomOp::InsertAfter((cursor - 1) as u32, RespoIndexKey(entry.0.0.clone()), entry.1.clone_node())
    };
    let ghost before = operations@;
    operations.push(op);
    proof {
        assert(ops_view(operations@) =~= ops_view(before).push(op@));
        assert(ops_view(operations@) =~= start + insert_op((entry.0@, entry.1@), cursor as int));
    }
    push_mounted(entry, cursor, operations)
}

/// Records appending the new child `entry`, then its effects after mounting at `cursor`.
fn push_append<L: ?Sized, E: ?Sized>(
    entry: &(RespoIndexKey, RespoNode<L, E>),
    cursor: usize,
    operations: &mut Vec<ChildDomOp<L, E>>,
) -> (r: Result<(), String>)
    ensures
        r is Ok,
        ops_view(final(operations)@) == ops_view(old(operations)@) + seq![OpView::Append(entry.0@, entry.1@)]
            + mount_ops((entry.0@, entry.1@), cursor as int),
{
    let ghost start = ops_view(operations@);
    let op = ChildDomOp::Append(RespoIndexKey(entry.0.0.clone()), entry.1.clone_node());
    let ghost before = operations@;
    operations.push(op);
    assert(ops_view(operations@) =~= ops_view(before).push(op@));
    push_mounted(entry, cursor, operations)
}

/// A matched pair of children followed by the rest of the walk.
proof fn lemma_matched_step<L: ?Sized, E: ?Sized + PartialEq>(
    nc: Seq<(Seq<char>, NodeView<L, E>)>,
    oc: Seq<(Seq<char>, NodeView<L, E>)>,
    ni: int,
    oi: int,
    cursor: int,
    coord: Seq<CoordView>,
    path: Seq<u32>,
    d: Seq<ChangeView<L, E>>,
    r: Seq<ChangeView<L, E>>,
)
    requires
        0 <= ni < nc.len(),
        0 <= oi < oc.len(),
        nc[ni].0 == oc[oi].0,
        diff_ok(nc[ni].1, oc[oi].1, coord.push(CoordView::Key(nc[ni].0)), path.push(cursor as u32), d),
        matched_ok(nc, oc, ni + 1, oi + 1, cursor + 1, coord, path, r),
    ensures
        matched_ok(nc, oc, ni, oi, cursor, coord, path, d + r),
{
    let dr = d + r;
    assert(dr.take(d.len() as int) =~= d);
    assert(dr.skip(d.len() as int) =~= r);
    assert(diff_ok(
        nc[ni].1,
        oc[oi].1,
        coord.push(CoordView::Key(nc[ni].0)),
        path.push(cursor as u32),
        dr.take(d.len() as int),
    ));
}

/// Records the changes for the keyed children of a matched element: changes inside
/// children with equal keys, and one change holding the operations on the list.
/// Keys are compared with the next three children on the other side to tell
/// removals and insertions from replacements. The operations on the list are exact for
/// every effect type (`children_ok`); as with `diff_tree`, the whole list of changes is
/// exactly `children_changes` where `effects_well_behaved` holds.
#[verifier::rlimit(40)]
pub fn diff_children<L: ?Sized, E: ?Sized + PartialEq>(
    new_children: &Vec<(RespoIndexKey, RespoNode<L, E>)>,
    old_children: &Vec<(RespoIndexKey, RespoNode<L, E>)>,
    coord: &[RespoCoord],
    dom_path: &[u32],
    changes: &mut Vec<DomChange<L, E>>,
) -> (r: Result<(), String>)
    ensures
        r is Ok,
        effects_well_behaved::<E>() ==> changes_view(final(changes)@) == changes_view(old(changes)@) + children_changes(
            children_view(new_children@, new_children@.len() as int),
            children_view(old_children@, old_children@.len() as int),
            coord_view(coord@),
            dom_path@,
        ),
        old(changes)@.len() <= final(changes)@.len(),
        changes_view(final(changes)@).take(old(changes)@.len() as int) == changes_view(old(changes)@),
        children_ok(
            children_view(new_children@, new_children@.len() as int),
            children_view(old_children@, old_children@.len() as int),
            coord_view(coord@),
            dom_path@,
            changes_view(final(changes)@).skip(old(changes)@.len() as int),
        ),
    decreases rest_size(children_view(new_children@, new_children@.len() as int), 0) + rest_size(
        children_view(old_children@, old_children@.len() as int),
        0,
    ),
        1int,
{
    let ghost nv = children_view(new_children@, new_children@.len() as int);
    let ghost ov = children_view(old_children@, old_children@.len() as int);
    let ghost cd = coord_view(coord@);
    let ghost start = changes_view(changes@);
    let ghost total = spec_children(nv, ov, 0, 0, 0, cd, dom_path@);
    let ghost slen = changes@.len() as int;
    let ghost mut done: Seq<ChangeView<L, E>> = Seq::empty();
    proof {
        assert forall|r: Seq<ChangeView<L, E>>| #[trigger] matched_ok(nv, ov, 0, 0, 0, cd, dom_path@, r) implies matched_ok(
            nv,
            ov,
            0,
            0,
            0,
            cd,
            dom_path@,
            done + r,
        ) by {
            assert(done + r =~= r);
        }
        assert(changes_view(changes@) =~= start + done);
    }
    proof {
        lemma_children_view(new_children@, new_children@.len() as int);
        lemma_children_view(old_children@, old_children@.len() as int);
    }
    let mut operations: Vec<ChildDomOp<L, E>> = Vec::new();
    let mut cursor: usize = 0;
    let mut ni: usize = 0;
    let mut oi: usize = 0;
    loop
        invariant
            ni <= new_children@.len(),
            oi <= old_children@.len(),
            cursor <= ni,
            nv == children_view(new_children@, new_children@.len() as int),
            ov == children_view(old_children@, old_children@.len() as int),
            nv.len() == new_children@.len(),
            ov.len() == old_children@.len(),
            forall|j: int| 0 <= j < nv.len() ==> #[trigger] nv[j] == (new_children@[j].0@, node_view(new_children@[j].1)),
            forall|j: int| 0 <= j < ov.len() ==> #[trigger] ov[j] == (old_children@[j].0@, node_view(old_children@[j].1)),
            cd == coord_view(coord@),
            start == changes_view(old(changes)@),
            total == spec_children(nv, ov, 0, 0, 0, cd, dom_path@),
            effects_well_behaved::<E>() ==> changes_view(changes@) + spec_children(
                nv,
                ov,
                ni as int,
                oi as int,
                cursor as int,
                cd,
                dom_path@,
            ).0 == start + total.0,
            ops_view(operations@) + spec_children(nv, ov, ni as int, oi as int, cursor as int, cd, dom_path@).1
                == total.1,
            slen == old(changes)@.len(),
            changes_view(changes@) == start + done,
            forall|r: Seq<ChangeView<L, E>>|
                #[trigger] matched_ok(nv, ov, ni as int, oi as int, cursor as int, cd, dom_path@, r) ==> matched_ok(
                    nv,
                    ov,
                    0,
                    0,
                    0,
                    cd,
                    dom_path@,
                    done + r,
                ),
        decreases new_children@.len() - ni + old_children@.len() - oi,
    {
        let ghost rest = spec_children(nv, ov, ni as int, oi as int, cursor as int, cd, dom_path@);
        let ghost ops0 = ops_view(operations@);
        let ghost ch0 = changes_view(changes@);
        if ni >= new_children.len() {
            if oi >= old_children.len() {
                proof {
                    assert(rest.0 =~= Seq::<ChangeView<L, E>>::empty());
                    assert(rest.1 =~= Seq::<OpView<L, E>>::empty());
                    if effects_well_behaved::<E>() {
                        assert(ch0 =~= start + total.0);
                    }
                    assert(ops0 =~= total.1);
                }
                proof {
                    assert(matched_ok(nv, ov, ni as int, oi as int, cursor as int, cd, dom_path@, Seq::<ChangeView<L, E>>::empty()));
                    assert(done + Seq::<ChangeView<L, E>>::empty() =~= done);
                    assert(matched_ok(nv, ov, 0, 0, 0, cd, dom_path@, done));
                }
                let ghost tail = list_change(total.1, cd, dom_path@);
                if operations.len() > 0 {
                    let c = DomChange::ModifyChildren {
                        coord: clone_coords(coord),
                        dom_path: clone_path(dom_path),
                        operations,
                    };
                    let ghost before = changes@;
                    changes.push(c);
                    proof {
                        assert(changes_view(changes@) =~= changes_view(before).push(c@));
                        if effects_well_behaved::<E>() {
                            assert(changes_view(changes@) =~= start + children_changes(nv, ov, cd, dom_path@));
                        }
                        assert(c@ == ChangeView::<L, E>::ModifyChildren { coord: cd, dom_path: dom_path@, operations: total.1 });
                        assert(changes_view(changes@) =~= start + (done + tail));
                    }
                } else {
                    assert(changes_view(changes@) =~= start + (done + tail));
                    proof {
                        if effects_well_behaved::<E>() {
                            assert(changes_view(changes@) =~= start + children_changes(nv, ov, cd, dom_path@));
                        }
                    }
                }
                proof {
                    lemma_appended(old(changes)@, changes@, done + tail);
                    let out = changes_view(changes@).skip(slen);
                    assert(out.skip(out.len() - tail.len()) =~= tail);
                    assert(out.take(out.len() - tail.len()) =~= done);
                }
                return Ok(());
            } else {
                push_removal(&old_children[oi], cursor, &mut operations)?;
                proof {
                    assert(ops_view(operations@) + spec_children(nv, ov, ni as int, oi + 1, cursor as int, cd, dom_path@).1
                        =~= total.1);
                    assert forall|r: Seq<ChangeView<L, E>>|
                        #[trigger] matched_ok(nv, ov, ni as int, oi + 1, cursor as int, cd, dom_path@, r) implies matched_ok(
                            nv,
                            ov,
                            0,
                            0,
                            0,
                            cd,
                            dom_path@,
                            done + r,
                        ) by {
                        assert(matched_ok(nv, ov, ni as int, oi as int, cursor as int, cd, dom_path@, r));
                    }
                }
                oi = oi + 1;
            }
        } else if oi >= old_children.len() {
            push_append(&new_children[ni], cursor, &mut operations)?;
            proof {
                assert(ops_view(operations@) + spec_children(nv, ov, ni + 1, oi as int, cursor as int, cd, dom_path@).1
                    =~= total.1);
                assert forall|r: Seq<ChangeView<L, E>>|
                    #[trigger] matched_ok(nv, ov, ni + 1, oi as int, cursor as int, cd, dom_path@, r) implies matched_ok(
                        nv,
                        ov,
                        0,
                        0,
                        0,
                        cd,
                        dom_path@,
                        done + r,
                    ) by {
                    assert(matched_ok(nv, ov, ni as int, oi as int, cursor as int, cd, dom_path@, r));
                }
            }
            ni = ni + 1;
        } else if new_children[ni].0.0 == old_children[oi].0.0 {
            let next_coord = coords_push(coord, RespoCoord::Key(RespoIndexKey(new_children[ni].0.0.clone())));
            let next_path = path_push(dom_path, cursor as u32);
            proof {
                lemma_rest_size_ge(nv, 0, ni as int);
                lemma_rest_size_ge(ov, 0, oi as int);
            }
            let ghost before_child = changes@;
            diff_tree(&new_children[ni].1, &old_children[oi].1, next_coord.as_slice(), next_path.as_slice(), changes)?;
            proof {
                let d = changes_view(changes@).skip(before_child.len() as int);
                assert(changes_view(changes@) =~= changes_view(before_child) + d);
                assert(nv[ni as int].0 == ov[oi as int].0);
                assert(nv[ni as int] == (new_children@[ni as int].0@, node_view(new_children@[ni as int].1)));
                assert(ov[oi as int] == (old_children@[oi as int].0@, node_view(old_children@[oi as int].1)));
                assert forall|r: Seq<ChangeView<L, E>>|
                    #[trigger] matched_ok(nv, ov, ni + 1, oi + 1, cursor + 1, cd, dom_path@, r) implies matched_ok(
                        nv,
                        ov,
                        0,
                        0,
                        0,
                        cd,
                        dom_path@,
                        (done + d) + r,
                    ) by {
                    let dr = d + r;
                    lemma_matched_step(nv, ov, ni as int, oi as int, cursor as int, cd, dom_path@, d, r);
                    assert(done + dr =~= (done + d) + r);
                }
                done = done + d;
                assert(changes_view(changes@) =~= start + done);
            }
            proof {
                if effects_well_behaved::<E>() {
                    assert(changes_view(changes@) + spec_children(nv, ov, ni + 1, oi + 1, cursor + 1, cd, dom_path@).0
                        =~= start + total.0);
                }
            }
            cursor = cursor + 1;
            ni = ni + 1;
            oi = oi + 1;
        } else if key_within_three(old_children, oi, &new_children[ni].0) {
            push_removal(&old_children[oi], cursor, &mut operations)?;
            proof {
                assert(ops_view(operations@) + spec_children(nv, ov, ni as int, oi + 1, cursor as int, cd, dom_path@).1
                    =~= total.1);
                assert forall|r: Seq<ChangeView<L, E>>|
                    #[trigger] matched_ok(nv, ov, ni as int, oi + 1, cursor as int, cd, dom_path@, r) implies matched_ok(
                        nv,
                        ov,
                        0,
                        0,
                        0,
                        cd,
                        dom_path@,
                        done + r,
                    ) by {
                    assert(matched_ok(nv, ov, ni as int, oi as int, cursor as int, cd, dom_path@, r));
                }
            }
            oi = oi + 1;
        } else if key_within_three(new_children, ni, &old_children[oi].0) {
            push_insertion(&new_children[ni], cursor, &mut operations)?;
            proof {
                assert(ops_view(operations@) + spec_children(nv, ov, ni + 1, oi as int, cursor + 1, cd, dom_path@).1
                    =~= total.1);
                assert forall|r: Seq<ChangeView<L, E>>|
                    #[trigger] matched_ok(nv, ov, ni + 1, oi as int, cursor + 1, cd, dom_path@, r) implies matched_ok(
                        nv,
                        ov,
                        0,
                        0,
                        0,
                        cd,
                        dom_path@,
                        done + r,
                    ) by {
                    assert(matched_ok(nv, ov, ni as int, oi as int, cursor as int, cd, dom_path@, r));
                }
            }
            cursor = cursor + 1;
            ni = ni + 1;
        } else {
            push_removal(&old_children[oi], cursor, &mut operations)?;
            push_insertion(&new_children[ni], cursor, &mut operations)?;
            proof {
                assert(ops_view(operations@) + spec_children(nv, ov, ni + 1, oi + 1, cursor + 1, cd, dom_path@).1
                    =~= total.1);
                assert forall|r: Seq<ChangeView<L, E>>|
                    #[trigger] matched_ok(nv, ov, ni + 1, oi + 1, cursor + 1, cd, dom_path@, r) implies matched_ok(
                        nv,
                        ov,
                        0,
                        0,
                        0,
                        cd,
                        dom_path@,
                        done + r,
                    ) by {
                    assert(matched_ok(nv, ov, ni as int, oi as int, cursor as int, cd, dom_path@, r));
                }
            }
            cursor = cursor + 1;
            ni = ni + 1;
            oi = oi + 1;
        }
    }
}

} // verus!
