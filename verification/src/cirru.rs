//! Trees and DOM changes written as Cirru data (leaves and lists), for inspecting them.

use vstd::prelude::*;

use crate::dom_change::{ChildDomOp, DomChange};
use crate::node::{
    attrs_view, children_view, coord_view, lemma_child_view, lemma_children_view, CoordView, NodeView, RespoCoord,
    RespoEffectType, RespoIndexKey, RespoNode,
};
use crate::text::{decimal, decimal_string};

verus! {

/// A Cirru expression: a leaf of text or a list of expressions.
pub enum CirruNode {
    Leaf(String),
    List(Vec<CirruNode>),
}

/// A Cirru expression as text and sequences.
pub ghost enum CirruView {
    Leaf(Seq<char>),
    List(Seq<CirruView>),
}

/// The view of a Cirru expression.
pub open spec fn cirru_view(c: CirruNode) -> CirruView
    decreases c, 0int,
{
    match c {
        CirruNode::Leaf(s) => CirruView::Leaf(s@),
        CirruNode::List(xs) => CirruView::List(items_view(xs@, xs@.len() as int)),
    }
}

/// The views of the first `k` expressions of a list.
pub open spec fn items_view(xs: Seq<CirruNode>, k: int) -> Seq<CirruView>
    decreases xs, k,
{
    if k <= 0 || k > xs.len() {
        Seq::empty()
    } else {
        items_view(xs, k - 1).push(cirru_view(xs[k - 1]))
    }
}

impl View for CirruNode {
    type V = CirruView;

    open spec fn view(&self) -> CirruView {
        cirru_view(*self)
    }
}

pub proof fn lemma_items_view(xs: Seq<CirruNode>, k: int)
    requires
        0 <= k <= xs.len(),
    ensures
        items_view(xs, k).len() == k,
        forall|i: int| 0 <= i < k ==> #[trigger] items_view(xs, k)[i] == cirru_view(xs[i]),
    decreases k,
{
    if k > 0 {
        lemma_items_view(xs, k - 1);
        assert forall|i: int| 0 <= i < k implies #[trigger] items_view(xs, k)[i] == cirru_view(xs[i]) by {
            if i < k - 1 {
                assert(items_view(xs, k)[i] == items_view(xs, k - 1)[i]);
            }
        }
    }
}

/// A leaf with the given text.
pub open spec fn leaf(s: Seq<char>) -> CirruView {
    CirruView::Leaf(s)
}

/// A list expression holding `xs`.
fn list_of(xs: Vec<CirruNode>, expected: Ghost<Seq<CirruView>>) -> (r: CirruNode)
    requires
        xs@.len() == expected@.len(),
        forall|i: int| 0 <= i < xs@.len() ==> #[trigger] cirru_view(xs@[i]) == expected@[i],
    ensures
        r@ == CirruView::List(expected@),
{
    proof {
        lemma_items_view(xs@, xs@.len() as int);
        assert(items_view(xs@, xs@.len() as int) =~= expected@);
    }
    CirruNode::List(xs)
}

/// A leaf holding a copy of `s`.
fn leaf_of(s: &str) -> (r: CirruNode)
    ensures
        r@ == leaf(s@),
{
    CirruNode::Leaf(s.to_owned())
}

/// An effect moment as Cirru.
pub open spec fn effect_type_cirru(t: RespoEffectType) -> CirruView {
    match t {
        RespoEffectType::Mounted => leaf("::mounted"@),
        RespoEffectType::BeforeUpdate => leaf("::before-update"@),
        RespoEffectType::Updated => leaf("::updated"@),
        RespoEffectType::BeforeUnmount => leaf("::before-unmount"@),
    }
}

/// An effect moment as Cirru.
pub fn effect_type_to_cirru(t: RespoEffectType) -> (r: CirruNode)
    ensures
        r@ == effect_type_cirru(t),
{
    match t {
        RespoEffectType::Mounted => leaf_of("::mounted"),
        RespoEffectType::BeforeUpdate => leaf_of("::before-update"),
        RespoEffectType::Updated => leaf_of("::updated"),
        RespoEffectType::BeforeUnmount => leaf_of("::before-unmount"),
    }
}

/// A child key as Cirru: a leaf of its text.
pub fn key_to_cirru(k: &RespoIndexKey) -> (r: CirruNode)
    ensures
        r@ == leaf(k@),
{
    leaf_of(k.0.as_str())
}

/// A coordinate step as Cirru.
pub open spec fn step_cirru(c: CoordView) -> CirruView {
    match c {
        CoordView::Key(k) => leaf(k),
        CoordView::Comp(n) => CirruView::List(seq![leaf("::Comp"@), leaf(n)]),
    }
}

/// A coordinate path as Cirru, headed by `::coord`.
pub open spec fn coord_cirru(c: Seq<CoordView>) -> CirruView {
    CirruView::List(seq![leaf("::coord"@)] + c.map_values(|x: CoordView| step_cirru(x)))
}

/// A coordinate path as Cirru, headed by `::coord`.
pub fn coord_path_to_cirru(coord: &[RespoCoord]) -> (r: CirruNode)
    ensures
        r@ == coord_cirru(coord_view(coord@)),
{
    let ghost expected = seq![leaf("::coord"@)] + coord_view(coord@).map_values(|x: CoordView| step_cirru(x));
    let mut xs: Vec<CirruNode> = Vec::new();
    xs.push(leaf_of("::coord"));
    let mut i: usize = 0;
    while i < coord.len()
        invariant
            i <= coord@.len(),
            expected == seq![leaf("::coord"@)] + coord_view(coord@).map_values(|x: CoordView| step_cirru(x)),
            expected.len() == coord@.len() + 1,
            xs@.len() == i + 1,
            forall|j: int| 0 <= j < xs@.len() ==> #[trigger] cirru_view(xs@[j]) == expected[j],
        decreases coord@.len() - i,
    {
        let x = match &coord[i] {
            RespoCoord::Key(k) => key_to_cirru(k),
            RespoCoord::Comp(n) => {
                let mut ys: Vec<CirruNode> = Vec::new();
                ys.push(leaf_of("::Comp"));
                ys.push(leaf_of(n.as_str()));
                let ghost expected_items = seq![leaf("::Comp"@), leaf(n@)];
                list_of(ys, Ghost(expected_items))
            },
        };
        assert(expected[i + 1] == step_cirru(coord@[i as int]@));
        xs.push(x);
        i = i + 1;
    }
    list_of(xs, Ghost(expected))
}

/// A DOM path as Cirru, headed by `::dom-path`, indexes in decimal.
pub open spec fn dom_path_cirru(p: Seq<u32>) -> CirruView {
    CirruView::List(seq![leaf("::dom-path"@)] + p.map_values(|x: u32| leaf(decimal(x as nat))))
}

/// Numbers as Cirru leaves in decimal, after a head.
fn numbers_to_cirru(head: Option<&str>, p: &[u32], expected: Ghost<Seq<CirruView>>) -> (r: CirruNode)
    requires
        expected@ == match head {
            Some(h) => seq![leaf(h@)],
            None => Seq::<CirruView>::empty(),
        } + p@.map_values(|x: u32| leaf(decimal(x as nat))),
    ensures
        r@ == CirruView::List(expected@),
{
    let ghost pre = match head {
        Some(h) => seq![leaf(h@)],
        None => Seq::<CirruView>::empty(),
    };
    let mut xs: Vec<CirruNode> = Vec::new();
    match head {
        Some(h) => xs.push(leaf_of(h)),
        None => {},
    }
    let mut i: usize = 0;
    while i < p.len()
        invariant
            i <= p@.len(),
            expected@ == pre + p@.map_values(|x: u32| leaf(decimal(x as nat))),
            expected@.len() == pre.len() + p@.len(),
            xs@.len() == pre.len() + i,
            forall|j: int| 0 <= j < xs@.len() ==> #[trigger] cirru_view(xs@[j]) == expected@[j],
        decreases p@.len() - i,
    {
        let x = CirruNode::Leaf(decimal_string(p[i] as u64));
        assert(expected@[pre.len() + i] == leaf(decimal(p@[i as int] as nat)));
        xs.push(x);
        i = i + 1;
    }
    list_of(xs, expected)
}

/// A DOM path as Cirru, headed by `::dom-path`, indexes in decimal.
pub fn dom_path_to_cirru(dom_path: &[u32]) -> (r: CirruNode)
    ensures
        r@ == dom_path_cirru(dom_path@),
{
    numbers_to_cirru(
        Some("::dom-path"),
        dom_path,
        Ghost(seq![leaf("::dom-path"@)] + dom_path@.map_values(|x: u32| leaf(decimal(x as nat)))),
    )
}

/// Texts as a Cirru list of leaves.
pub open spec fn texts_cirru(v: Seq<String>) -> CirruView {
    CirruView::List(v.map_values(|s: String| leaf(s@)))
}

fn texts_to_cirru(v: &Vec<String>) -> (r: CirruNode)
    ensures
        r@ == texts_cirru(v@),
{
    let ghost expected = v@.map_values(|s: String| leaf(s@));
    let mut xs: Vec<CirruNode> = Vec::new();
    let mut i: usize = 0;
    while i < v.len()
        invariant
            i <= v@.len(),
            expected == v@.map_values(|s: String| leaf(s@)),
            xs@.len() == i,
            forall|j: int| 0 <= j < xs@.len() ==> #[trigger] cirru_view(xs@[j]) == expected[j],
        decreases v@.len() - i,
    {
        xs.push(leaf_of(v[i].as_str()));
        i = i + 1;
    }
    list_of(xs, Ghost(expected))
}

/// Pairs of texts as a Cirru list of two-leaf lists.
pub open spec fn str_dict_cirru(pairs: Seq<(Seq<char>, Seq<char>)>) -> CirruView {
    CirruView::List(pairs.map_values(|p: (Seq<char>, Seq<char>)| CirruView::List(seq![leaf(p.0), leaf(p.1)])))
}

/// Pairs of texts as a Cirru list of two-leaf lists.
pub fn str_dict_to_cirrus_dict(dict: &Vec<(String, String)>) -> (r: CirruNode)
    ensures
        r@ == str_dict_cirru(attrs_view(dict@)),
{
    let ghost expected = attrs_view(dict@).map_values(
        |p: (Seq<char>, Seq<char>)| CirruView::List(seq![leaf(p.0), leaf(p.1)]),
    );
    let mut xs: Vec<CirruNode> = Vec::new();
    let mut i: usize = 0;
    while i < dict.len()
        invariant
            i <= dict@.len(),
            expected == attrs_view(dict@).map_values(
                |p: (Seq<char>, Seq<char>)| CirruView::List(seq![leaf(p.0), leaf(p.1)]),
            ),
            xs@.len() == i,
            forall|j: int| 0 <= j < xs@.len() ==> #[trigger] cirru_view(xs@[j]) == expected[j],
        decreases dict@.len() - i,
    {
        let mut ys: Vec<CirruNode> = Vec::new();
        ys.push(leaf_of(dict[i].0.as_str()));
        ys.push(leaf_of(dict[i].1.as_str()));
        let ghost expected_items = seq![leaf(dict@[i as int].0@), leaf(dict@[i as int].1@)];
        let x = list_of(ys, Ghost(expected_items));
        xs.push(x);
        i = i + 1;
    }
    list_of(xs, Ghost(expected))
}

/// A tree as Cirru: a component as `::Component`, its name and its tree; an element as its
/// tag name followed by a two-item list for each child, its key and its tree; a shared
/// subtree as the tree it holds.
pub open spec fn node_cirru<L: ?Sized, E: ?Sized>(n: NodeView<L, E>) -> CirruView
    decreases n, 0int,
{
    match n {
        NodeView::Component { name, tree, .. } => CirruView::List(
            seq![leaf("::Component"@), leaf(name), node_cirru(*tree)],
        ),
        NodeView::Element { name, children, .. } => CirruView::List(
            seq![leaf(name)] + children_cirru(children, children.len() as int),
        ),
        NodeView::Referenced(t) => node_cirru(*t),
    }
}

/// The first `k` children as Cirru, each a list of its key and its tree.
pub open spec fn children_cirru<L: ?Sized, E: ?Sized>(ch: Seq<(Seq<char>, NodeView<L, E>)>, k: int) -> Seq<
    CirruView,
>
    decreases ch, k,
{
    if k <= 0 || k > ch.len() {
        Seq::empty()
    } else {
        children_cirru(ch, k - 1).push(CirruView::List(seq![leaf(ch[k - 1].0), node_cirru(ch[k - 1].1)]))
    }
}

proof fn lemma_children_cirru<L: ?Sized, E: ?Sized>(ch: Seq<(Seq<char>, NodeView<L, E>)>, k: int)
    requires
        0 <= k <= ch.len(),
    ensures
        children_cirru(ch, k).len() == k,
        forall|i: int|
            0 <= i < k ==> #[trigger] children_cirru(ch, k)[i] == CirruView::List(
                seq![leaf(ch[i].0), node_cirru(ch[i].1)],
            ),
    decreases k,
{
    if k > 0 {
        lemma_children_cirru(ch, k - 1);
        assert forall|i: int| 0 <= i < k implies #[trigger] children_cirru(ch, k)[i] == CirruView::List(
            seq![leaf(ch[i].0), node_cirru(ch[i].1)],
        ) by {
            if i < k - 1 {
                assert(children_cirru(ch, k)[i] == children_cirru(ch, k - 1)[i]);
            }
        }
    }
}

/// A tree as Cirru.
pub fn node_to_cirru<L: ?Sized, E: ?Sized>(n: &RespoNode<L, E>) -> (r: CirruNode)
    ensures
        r@ == node_cirru(n@),
    decreases crate::node::size(n@),
{
    match n {
        RespoNode::Component(c) => {
            let mut xs: Vec<CirruNode> = Vec::new();
            xs.push(leaf_of("::Component"));
            xs.push(leaf_of(c.name.as_str()));
            xs.push(node_to_cirru(&c.tree));
            let ghost expected_items = seq![leaf("::Component"@), leaf(c.name@), node_cirru((*c.tree)@)];
            list_of(xs, Ghost(expected_items))
        },
        RespoNode::Element(e) => {
            let ghost ch = e@->children;
            let ghost expected = seq![leaf(e.name@)] + children_cirru(ch, ch.len() as int);
            proof {
                lemma_children_view(e.children@, e.children@.len() as int);
                lemma_children_cirru(ch, ch.len() as int);
            }
            let mut xs: Vec<CirruNode> = Vec::new();
            xs.push(leaf_of(e.name.as_str()));
            let mut i: usize = 0;
            while i < e.children.len()
                invariant
                    i <= e.children@.len(),
                    ch == e@->children,
                    ch.len() == e.children@.len(),
                    n@ == crate::node::node_view(RespoNode::Element(*e)),
                    expected == seq![leaf(e.name@)] + children_cirru(ch, ch.len() as int),
                    expected.len() == ch.len() + 1,
                    forall|j: int|
                        0 <= j < ch.len() ==> #[trigger] children_cirru(ch, ch.len() as int)[j] == CirruView::List(
                            seq![leaf(ch[j].0), node_cirru(ch[j].1)],
                        ),
                    xs@.len() == i + 1,
                    forall|j: int| 0 <= j < xs@.len() ==> #[trigger] cirru_view(xs@[j]) == expected[j],
                decreases e.children@.len() - i,
            {
                proof {
                    lemma_child_view(*e, i as int);
                }
                let mut ys: Vec<CirruNode> = Vec::new();
                ys.push(key_to_cirru(&e.children[i].0));
                ys.push(node_to_cirru(&e.children[i].1));
                let ghost expected_items = seq![leaf(ch[i as int].0), node_cirru(ch[i as int].1)];
                let x = list_of(ys, Ghost(expected_items));
                assert(expected[i + 1] == children_cirru(ch, ch.len() as int)[i as int]);
                xs.push(x);
                i = i + 1;
            }
            list_of(xs, Ghost(expected))
        },
        RespoNode::Referenced(rc) => node_to_cirru(&**rc),
    }
}

/// A child operation as Cirru.
pub open spec fn op_cirru<L: ?Sized, E: ?Sized>(op: ChildDomOp<L, E>) -> CirruView {
    match op {
        ChildDomOp::InsertAfter(i, k, n) => CirruView::List(
            seq![leaf("::insert-after"@), leaf(decimal(i as nat)), leaf(k@), node_cirru(n@)],
        ),
        ChildDomOp::RemoveAt(i) => CirruView::List(seq![leaf("::remove-at"@), leaf(decimal(i as nat))]),
        ChildDomOp::Append(k, n) => CirruView::List(seq![leaf("::append"@), leaf(k@), node_cirru(n@)]),
        ChildDomOp::Prepend(k, n) => CirruView::List(seq![leaf("::prepend"@), leaf(k@), node_cirru(n@)]),
        ChildDomOp::NestedEffect { nested_coord, nested_dom_path, effect_type, skip_indexes } => CirruView::List(
            seq![
                leaf("::effect"@),
                effect_type_cirru(effect_type),
                coord_cirru(coord_view(nested_coord@)),
                CirruView::List(nested_dom_path@.map_values(|x: u32| leaf(decimal(x as nat)))),
                CirruView::List(skip_indexes@.map_values(|x: u32| leaf(decimal(x as nat)))),
            ],
        ),
    }
}

/// A child operation as Cirru.
pub fn op_to_cirru<L: ?Sized, E: ?Sized>(op: &ChildDomOp<L, E>) -> (r: CirruNode)
    ensures
        r@ == op_cirru(*op),
{
    match op {
        ChildDomOp::InsertAfter(i, k, n) => {
            let mut xs: Vec<CirruNode> = Vec::new();
            xs.push(leaf_of("::insert-after"));
            xs.push(CirruNode::Leaf(decimal_string(*i as u64)));
            xs.push(key_to_cirru(k));
            xs.push(node_to_cirru(n));
            let ghost expected_items = seq![leaf("::insert-after"@), leaf(decimal(*i as nat)), leaf(k@), node_cirru(n@)];
            list_of(xs, Ghost(expected_items))
        },
        ChildDomOp::RemoveAt(i) => {
            let mut xs: Vec<CirruNode> = Vec::new();
            xs.push(leaf_of("::remove-at"));
            xs.push(CirruNode::Leaf(decimal_string(*i as u64)));
            let ghost expected_items = seq![leaf("::remove-at"@), leaf(decimal(*i as nat))];
            list_of(xs, Ghost(expected_items))
        },
        ChildDomOp::Append(k, n) => {
            let mut xs: Vec<CirruNode> = Vec::new();
            xs.push(leaf_of("::append"));
            xs.push(key_to_cirru(k));
            xs.push(node_to_cirru(n));
            let ghost expected_items = seq![leaf("::append"@), leaf(k@), node_cirru(n@)];
            list_of(xs, Ghost(expected_items))
        },
        ChildDomOp::Prepend(k, n) => {
            let mut xs: Vec<CirruNode> = Vec::new();
            xs.push(leaf_of("::prepend"));
            xs.push(key_to_cirru(k));
            xs.push(node_to_cirru(n));
            let ghost expected_items = seq![leaf("::prepend"@), leaf(k@), node_cirru(n@)];
            list_of(xs, Ghost(expected_items))
        },
        ChildDomOp::NestedEffect { nested_coord, nested_dom_path, effect_type, skip_indexes } => {
            let mut xs: Vec<CirruNode> = Vec::new();
            xs.push(leaf_of("::effect"));
            xs.push(effect_type_to_cirru(*effect_type));
            xs.push(coord_path_to_cirru(nested_coord.as_slice()));
            xs.push(
                numbers_to_cirru(
                    None,
                    nested_dom_path.as_slice(),
                    Ghost(Seq::<CirruView>::empty() + nested_dom_path@.map_values(|x: u32| leaf(decimal(x as nat)))),
                ),
            );
            xs.push(
                numbers_to_cirru(
                    None,
                    skip_indexes.as_slice(),
                    Ghost(Seq::<CirruView>::empty() + skip_indexes@.map_values(|x: u32| leaf(decimal(x as nat)))),
                ),
            );
            proof {
                assert(Seq::<CirruView>::empty() + nested_dom_path@.map_values(|x: u32| leaf(decimal(x as nat)))
                    =~= nested_dom_path@.map_values(|x: u32| leaf(decimal(x as nat))));
                assert(Seq::<CirruView>::empty() + skip_indexes@.map_values(|x: u32| leaf(decimal(x as nat)))
                    =~= skip_indexes@.map_values(|x: u32| leaf(decimal(x as nat))));
            }
            list_of(xs, Ghost(op_cirru(*op)->List_0))
        },
    }
}

/// A DOM change as Cirru, headed by the kind of change.
pub open spec fn change_cirru<L: ?Sized, E: ?Sized>(c: DomChange<L, E>) -> CirruView {
    match c {
        DomChange::Effect { coord, dom_path, effect_type, skip_indexes } => CirruView::List(
            seq![
                leaf("::effect"@),
                effect_type_cirru(effect_type),
                coord_cirru(coord_view(coord@)),
                dom_path_cirru(dom_path@),
                CirruView::List(skip_indexes@.map_values(|x: u32| leaf(decimal(x as nat)))),
            ],
        ),
        DomChange::ReplaceElement { coord, dom_path, node } => CirruView::List(
            seq![
                leaf("::replace-element"@),
                coord_cirru(coord_view(coord@)),
                dom_path_cirru(dom_path@),
                node_cirru(node@),
            ],
        ),
        DomChange::ModifyChildren { coord, dom_path, operations } => CirruView::List(
            seq![
                leaf("::modify-children"@),
                coord_cirru(coord_view(coord@)),
                dom_path_cirru(dom_path@),
                CirruView::List(
                    seq![leaf("::operations"@)] + operations@.map_values(|o: ChildDomOp<L, E>| op_cirru(o)),
                ),
            ],
        ),
        DomChange::ModifyAttrs { coord, dom_path, set, unset } => CirruView::List(
            seq![
                leaf("::modify-attrs"@),
                coord_cirru(coord_view(coord@)),
                dom_path_cirru(dom_path@),
                str_dict_cirru(attrs_view(set@)),
                texts_cirru(unset@),
            ],
        ),
        DomChange::ModifyStyle { coord, dom_path, set, unset } => CirruView::List(
            seq![
                leaf("::modify-style"@),
                coord_cirru(coord_view(coord@)),
                dom_path_cirru(dom_path@),
                str_dict_cirru(attrs_view(set@)),
                texts_cirru(unset@),
            ],
        ),
        DomChange::ModifyEvent { coord, dom_path, add, remove } => CirruView::List(
            seq![
                leaf("::modify-event"@),
                coord_cirru(coord_view(coord@)),
                dom_path_cirru(dom_path@),
                texts_cirru(add@),
                texts_cirru(remove@),
            ],
        ),
    }
}

/// A DOM change as Cirru, headed by the kind of change.
pub fn change_to_cirru<L: ?Sized, E: ?Sized>(change: &DomChange<L, E>) -> (r: CirruNode)
    ensures
        r@ == change_cirru(*change),
{
    match change {
        DomChange::Effect { coord, dom_path, effect_type, skip_indexes } => {
            let mut xs: Vec<CirruNode> = Vec::new();
            xs.push(leaf_of("::effect"));
            xs.push(effect_type_to_cirru(*effect_type));
            xs.push(coord_path_to_cirru(coord.as_slice()));
            xs.push(dom_path_to_cirru(dom_path.as_slice()));
            xs.push(
                numbers_to_cirru(
                    None,
                    skip_indexes.as_slice(),
                    Ghost(Seq::<CirruView>::empty() + skip_indexes@.map_values(|x: u32| leaf(decimal(x as nat)))),
                ),
            );
            proof {
                assert(Seq::<CirruView>::empty() + skip_indexes@.map_values(|x: u32| leaf(decimal(x as nat)))
                    =~= skip_indexes@.map_values(|x: u32| leaf(decimal(x as nat))));
            }
            list_of(xs, Ghost(change_cirru(*change)->List_0))
        },
        DomChange::ReplaceElement { coord, dom_path, node } => {
            let mut xs: Vec<CirruNode> = Vec::new();
            xs.push(leaf_of("::replace-element"));
            xs.push(coord_path_to_cirru(coord.as_slice()));
            xs.push(dom_path_to_cirru(dom_path.as_slice()));
            xs.push(node_to_cirru(node));
            list_of(xs, Ghost(change_cirru(*change)->List_0))
        },
        DomChange::ModifyChildren { coord, dom_path, operations } => {
            let mut xs: Vec<CirruNode> = Vec::new();
            xs.push(leaf_of("::modify-children"));
            xs.push(coord_path_to_cirru(coord.as_slice()));
            xs.push(dom_path_to_cirru(dom_path.as_slice()));
            let ghost expected = seq![leaf("::operations"@)] + operations@.map_values(
                |o: ChildDomOp<L, E>| op_cirru(o),
            );
            let mut ys: Vec<CirruNode> = Vec::new();
            ys.push(leaf_of("::operations"));
            let mut i: usize = 0;
            while i < operations.len()
                invariant
                    i <= operations@.len(),
                    expected == seq![leaf("::operations"@)] + operations@.map_values(
                        |o: ChildDomOp<L, E>| op_cirru(o),
                    ),
                    expected.len() == operations@.len() + 1,
                    ys@.len() == i + 1,
                    forall|j: int| 0 <= j < ys@.len() ==> #[trigger] cirru_view(ys@[j]) == expected[j],
                decreases operations@.len() - i,
            {
                let x = op_to_cirru(&operations[i]);
                assert(expected[i + 1] == op_cirru(operations@[i as int]));
                ys.push(x);
                i = i + 1;
            }
            xs.push(list_of(ys, Ghost(expected)));
            list_of(xs, Ghost(change_cirru(*change)->List_0))
        },
        DomChange::ModifyAttrs { coord, dom_path, set, unset } => {
            let mut xs: Vec<CirruNode> = Vec::new();
            xs.push(leaf_of("::modify-attrs"));
            xs.push(coord_path_to_cirru(coord.as_slice()));
            xs.push(dom_path_to_cirru(dom_path.as_slice()));
            xs.push(str_dict_to_cirrus_dict(set));
            xs.push(texts_to_cirru(unset));
            list_of(xs, Ghost(change_cirru(*change)->List_0))
        },
        DomChange::ModifyStyle { coord, dom_path, set, unset } => {
            let mut xs: Vec<CirruNode> = Vec::new();
            xs.push(leaf_of("::modify-style"));
            xs.push(coord_path_to_cirru(coord.as_slice()));
            xs.push(dom_path_to_cirru(dom_path.as_slice()));
            xs.push(str_dict_to_cirrus_dict(set));
            xs.push(texts_to_cirru(unset));
            list_of(xs, Ghost(change_cirru(*change)->List_0))
        },
        DomChange::ModifyEvent { coord, dom_path, add, remove } => {
            let mut xs: Vec<CirruNode> = Vec::new();
            xs.push(leaf_of("::modify-event"));
            xs.push(coord_path_to_cirru(coord.as_slice()));
            xs.push(dom_path_to_cirru(dom_path.as_slice()));
            xs.push(texts_to_cirru(add));
            xs.push(texts_to_cirru(remove));
            list_of(xs, Ghost(change_cirru(*change)->List_0))
        },
    }
}

/// DOM changes as Cirru, headed by `::changes`.
pub open spec fn changes_cirru<L: ?Sized, E: ?Sized>(cs: Seq<DomChange<L, E>>) -> CirruView {
    CirruView::List(seq![leaf("::changes"@)] + cs.map_values(|c: DomChange<L, E>| change_cirru(c)))
}

/// DOM changes as Cirru, headed by `::changes`.
pub fn changes_to_cirru<L: ?Sized, E: ?Sized>(changes: &[DomChange<L, E>]) -> (r: CirruNode)
    ensures
        r@ == changes_cirru(changes@),
{
    let ghost expected = seq![leaf("::changes"@)] + changes@.map_values(|c: DomChange<L, E>| change_cirru(c));
    let mut xs: Vec<CirruNode> = Vec::new();
    xs.push(leaf_of("::changes"));
    let mut i: usize = 0;
    while i < changes.len()
        invariant
            i <= changes@.len(),
            expected == seq![leaf("::changes"@)] + changes@.map_values(|c: DomChange<L, E>| change_cirru(c)),
            expected.len() == changes@.len() + 1,
            xs@.len() == i + 1,
            forall|j: int| 0 <= j < xs@.len() ==> #[trigger] cirru_view(xs@[j]) == expected[j],
        decreases changes@.len() - i,
    {
        let x = change_to_cirru(&changes[i]);
        assert(expected[i + 1] == change_cirru(changes@[i as int]));
        xs.push(x);
        i = i + 1;
    }
    list_of(xs, Ghost(expected))
}

} // verus!
