//! DOM operations produced by diffing, used to patch the real DOM.

use vstd::prelude::*;

use crate::node::{attrs_view, coord_view, CoordView, NodeView, RespoCoord, RespoEffectType, RespoIndexKey, RespoNode};
use crate::pairs::last_wins;

verus! {

/// DOM operations used for diff/patching.
pub enum DomChange<L: ?Sized, E: ?Sized> {
    ReplaceElement { coord: Vec<RespoCoord>, dom_path: Vec<u32>, node: RespoNode<L, E> },
    ModifyChildren { coord: Vec<RespoCoord>, dom_path: Vec<u32>, operations: Vec<ChildDomOp<L, E>> },
    ModifyAttrs { coord: Vec<RespoCoord>, dom_path: Vec<u32>, set: Vec<(String, String)>, unset: Vec<String> },
    ModifyStyle { coord: Vec<RespoCoord>, dom_path: Vec<u32>, set: Vec<(String, String)>, unset: Vec<String> },
    ModifyEvent { coord: Vec<RespoCoord>, dom_path: Vec<u32>, add: Vec<String>, remove: Vec<String> },
    /// effects of the component at `coord` to run; those at `skip_indexes` did not change
    Effect { coord: Vec<RespoCoord>, dom_path: Vec<u32>, effect_type: RespoEffectType, skip_indexes: Vec<u32> },
}

/// Operations on the children of one element, applied in order.
pub enum ChildDomOp<L: ?Sized, E: ?Sized> {
    InsertAfter(u32, RespoIndexKey, RespoNode<L, E>),
    RemoveAt(u32),
    Append(RespoIndexKey, RespoNode<L, E>),
    Prepend(RespoIndexKey, RespoNode<L, E>),
    /// order is required in operating children elements, so put effect inside
    NestedEffect {
        nested_coord: Vec<RespoCoord>,
        nested_dom_path: Vec<u32>,
        effect_type: RespoEffectType,
        skip_indexes: Vec<u32>,
    },
}

/// A child operation as text, trees and sets.
pub ghost enum OpView<L: ?Sized, E: ?Sized> {
    InsertAfter(u32, Seq<char>, NodeView<L, E>),
    RemoveAt(u32),
    Append(Seq<char>, NodeView<L, E>),
    Prepend(Seq<char>, NodeView<L, E>),
    NestedEffect { coord: Seq<CoordView>, dom_path: Seq<u32>, effect_type: RespoEffectType, skip: Set<u32> },
}

/// A DOM change as text, trees, maps and sets.
pub ghost enum ChangeView<L: ?Sized, E: ?Sized> {
    ReplaceElement { coord: Seq<CoordView>, dom_path: Seq<u32>, node: NodeView<L, E> },
    ModifyChildren { coord: Seq<CoordView>, dom_path: Seq<u32>, operations: Seq<OpView<L, E>> },
    ModifyAttrs {
        coord: Seq<CoordView>,
        dom_path: Seq<u32>,
        set: Map<Seq<char>, Seq<char>>,
        unset: Set<Seq<char>>,
    },
    ModifyStyle {
        coord: Seq<CoordView>,
        dom_path: Seq<u32>,
        set: Map<Seq<char>, Seq<char>>,
        unset: Set<Seq<char>>,
    },
    ModifyEvent { coord: Seq<CoordView>, dom_path: Seq<u32>, add: Set<Seq<char>>, remove: Set<Seq<char>> },
    Effect { coord: Seq<CoordView>, dom_path: Seq<u32>, effect_type: RespoEffectType, skip: Set<u32> },
}

/// The texts of strings, as a set.
pub open spec fn text_set(v: Seq<String>) -> Set<Seq<char>> {
    v.map_values(|s: String| s@).to_set()
}

impl<L: ?Sized, E: ?Sized> View for ChildDomOp<L, E> {
    type V = OpView<L, E>;

    open spec fn view(&self) -> OpView<L, E> {
        match self {
            ChildDomOp::InsertAfter(i, k, n) => OpView::InsertAfter(*i, k@, n@),
            ChildDomOp::RemoveAt(i) => OpView::RemoveAt(*i),
            ChildDomOp::Append(k, n) => OpView::Append(k@, n@),
            ChildDomOp::Prepend(k, n) => OpView::Prepend(k@, n@),
            ChildDomOp::NestedEffect { nested_coord, nested_dom_path, effect_type, skip_indexes } => {
                OpView::NestedEffect {
                    coord: coord_view(nested_coord@),
                    dom_path: nested_dom_path@,
                    effect_type: *effect_type,
                    skip: skip_indexes@.to_set(),
                }
            },
        }
    }
}

/// The views of child operations.
pub open spec fn ops_view<L: ?Sized, E: ?Sized>(ops: Seq<ChildDomOp<L, E>>) -> Seq<OpView<L, E>> {
    ops.map_values(|o: ChildDomOp<L, E>| o@)
}

impl<L: ?Sized, E: ?Sized> View for DomChange<L, E> {
    type V = ChangeView<L, E>;

    open spec fn view(&self) -> ChangeView<L, E> {
        match self {
            DomChange::ReplaceElement { coord, dom_path, node } => ChangeView::ReplaceElement {
                coord: coord_view(coord@),
                dom_path: dom_path@,
                node: node@,
            },
            DomChange::ModifyChildren { coord, dom_path, operations } => ChangeView::ModifyChildren {
                coord: coord_view(coord@),
                dom_path: dom_path@,
                operations: ops_view(operations@),
            },
            DomChange::ModifyAttrs { coord, dom_path, set, unset } => ChangeView::ModifyAttrs {
                coord: coord_view(coord@),
                dom_path: dom_path@,
                set: last_wins(attrs_view(set@)),
                unset: text_set(unset@),
            },
            DomChange::ModifyStyle { coord, dom_path, set, unset } => ChangeView::ModifyStyle {
                coord: coord_view(coord@),
                dom_path: dom_path@,
                set: last_wins(attrs_view(set@)),
                unset: text_set(unset@),
            },
            DomChange::ModifyEvent { coord, dom_path, add, remove } => ChangeView::ModifyEvent {
                coord: coord_view(coord@),
                dom_path: dom_path@,
                add: text_set(add@),
                remove: text_set(remove@),
            },
            DomChange::Effect { coord, dom_path, effect_type, skip_indexes } => ChangeView::Effect {
                coord: coord_view(coord@),
                dom_path: dom_path@,
                effect_type: *effect_type,
                skip: skip_indexes@.to_set(),
            },
        }
    }
}

/// The views of DOM changes.
pub open spec fn changes_view<L: ?Sized, E: ?Sized>(cs: Seq<DomChange<L, E>>) -> Seq<ChangeView<L, E>> {
    cs.map_values(|c: DomChange<L, E>| c@)
}

impl<L: ?Sized, E: ?Sized> DomChange<L, E> {
    /// The DOM path of the element a change is about.
    pub open spec fn spec_dom_path(&self) -> Seq<u32> {
        match self {
            DomChange::ReplaceElement { dom_path, .. } => dom_path@,
            DomChange::ModifyChildren { dom_path, .. } => dom_path@,
            DomChange::ModifyAttrs { dom_path, .. } => dom_path@,
            DomChange::ModifyStyle { dom_path, .. } => dom_path@,
            DomChange::ModifyEvent { dom_path, .. } => dom_path@,
            DomChange::Effect { dom_path, .. } => dom_path@,
        }
    }

    /// The DOM path of the element a change is about.
    pub fn get_dom_path(&self) -> (r: &Vec<u32>)
        ensures
            r@ == self.spec_dom_path(),
    {
        match self {
            DomChange::ReplaceElement { dom_path, .. } => dom_path,
            DomChange::ModifyChildren { dom_path, .. } => dom_path,
            DomChange::ModifyAttrs { dom_path, .. } => dom_path,
            DomChange::ModifyStyle { dom_path, .. } => dom_path,
            DomChange::ModifyEvent { dom_path, .. } => dom_path,
            DomChange::Effect { dom_path, .. } => dom_path,
        }
    }
}

} // verus!
