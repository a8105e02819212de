//! The virtual DOM: elements, components and shared subtrees.
//!
//! A tree is generic over the listener type `L` stored for each event name and over
//! the effect type `E` attached to components. Both are held behind `Rc`, so the tree
//! can be copied without copying listeners or effects.

use std::rc::Rc;
use vstd::prelude::*;
use vstd::string::*;

use crate::css::RespoStyle;
use crate::pairs::{find_last_key, is_last_key_at, last_wins, lemma_last_wins_update};
use crate::text::{decimal, decimal_string};

verus! {

/// Another handle to the value behind an `Rc` (`Rc::clone`): the same value.
#[verifier::external_body]
pub(crate) fn share<T: ?Sized>(r: &Rc<T>) -> (res: Rc<T>)
    ensures
        res == *r,
{
    Rc::clone(r)
}

/// Whether two `Rc`s point to one allocation (`Rc::ptr_eq`); when they do, they hold
/// the same value. When they do not, nothing is said: equal values may live apart.
#[verifier::external_body]
pub(crate) fn same_allocation<T: ?Sized>(a: &Rc<T>, b: &Rc<T>) -> (res: bool)
    ensures
        res ==> *a == *b,
{
    Rc::ptr_eq(a, b)
}

/// A key for a child node, compared as text; generated from the index by default.
#[derive(PartialEq, Eq, Debug, Clone)]
pub struct RespoIndexKey(pub String);

impl View for RespoIndexKey {
    type V = Seq<char>;

    open spec fn view(&self) -> Seq<char> {
        self.0@
    }
}

impl RespoIndexKey {
    /// A key with the given text.
    pub fn new(s: &str) -> (r: Self)
        ensures
            r@ == s@,
    {
        RespoIndexKey(s.to_owned())
    }

    /// A key from an index: its decimal numeral.
    pub fn from_index(i: usize) -> (r: Self)
        ensures
            r@ == decimal(i as nat),
    {
        RespoIndexKey(decimal_string(i as u64))
    }

    /// The text of the key.
    pub fn to_key_string(&self) -> (s: String)
        ensures
            s@ == self@,
    {
        self.0.clone()
    }
}

/// A step of a coordinate: a child key of an element, or the name of a component.
#[derive(Debug, Clone, PartialEq, Eq)]
pub enum RespoCoord {
    Key(RespoIndexKey),
    /// for indexing by component name, even though there's only one of that
    Comp(String),
}

/// A coordinate step as text.
pub ghost enum CoordView {
    Key(Seq<char>),
    Comp(Seq<char>),
}

impl View for RespoCoord {
    type V = CoordView;

    open spec fn view(&self) -> CoordView {
        match self {
            RespoCoord::Key(k) => CoordView::Key(k@),
            RespoCoord::Comp(n) => CoordView::Comp(n@),
        }
    }
}

/// The view of a coordinate path.
pub open spec fn coord_view(c: Seq<RespoCoord>) -> Seq<CoordView> {
    c.map_values(|x: RespoCoord| x@)
}

impl RespoCoord {
    pub fn clone_coord(&self) -> (r: Self)
        ensures
            r@ == self@,
    {
        match self {
            RespoCoord::Key(k) => RespoCoord::Key(RespoIndexKey(k.0.clone())),
            RespoCoord::Comp(n) => RespoCoord::Comp(n.clone()),
        }
    }
}

/// A copy of a coordinate path.
pub fn clone_coords(c: &[RespoCoord]) -> (r: Vec<RespoCoord>)
    ensures
        coord_view(r@) == coord_view(c@),
{
    let mut r: Vec<RespoCoord> = Vec::new();
    let mut i: usize = 0;
    while i < c.len()
        invariant
            i <= c@.len(),
            coord_view(r@) == coord_view(c@).subrange(0, i as int),
        decreases c@.len() - i,
    {
        let x = c[i].clone_coord();
        let ghost before = r@;
        r.push(x);
        assert(coord_view(r@) =~= coord_view(before).push(x@));
        assert(coord_view(c@).subrange(0, i + 1) =~= coord_view(c@).subrange(0, i as int).push(
            c@[i as int]@,
        ));
        i = i + 1;
    }
    assert(coord_view(c@).subrange(0, c@.len() as int) =~= coord_view(c@));
    r
}

/// A coordinate path extended by one step.
pub fn coords_push(c: &[RespoCoord], step: RespoCoord) -> (r: Vec<RespoCoord>)
    ensures
        coord_view(r@) == coord_view(c@).push(step@),
{
    let mut r = clone_coords(c);
    let ghost before = r@;
    r.push(step);
    assert(coord_view(r@) =~= coord_view(before).push(step@));
    r
}

/// A DOM path extended by one index.
pub fn path_push(p: &[u32], i: u32) -> (r: Vec<u32>)
    ensures
        r@ == p@.push(i),
{
    let mut r = clone_path(p);
    r.push(i);
    r
}

/// A copy of a DOM path.
pub fn clone_path(p: &[u32]) -> (r: Vec<u32>)
    ensures
        r@ == p@,
{
    let mut r: Vec<u32> = Vec::new();
    let mut i: usize = 0;
    while i < p.len()
        invariant
            i <= p@.len(),
            r@ == p@.subrange(0, i as int),
        decreases p@.len() - i,
    {
        r.push(p[i]);
        assert(p@.subrange(0, i + 1) =~= p@.subrange(0, i as int).push(p@[i as int]));
        i = i + 1;
    }
    assert(p@.subrange(0, p@.len() as int) =~= p@);
    r
}

/// Lifecycle moments at which component effects run.
#[derive(Debug, Clone, Copy, PartialEq, Eq)]
pub enum RespoEffectType {
    /// called after mounting happened, use effect handlers from new trees
    Mounted,
    /// called before effect arguments changed, use effect hanles from new trees
    BeforeUpdate,
    /// called after effect arguments changed, use effect handles from new trees
    Updated,
    /// called before unmounting, use effect handles from **old** trees
    BeforeUnmount,
}

/// An element or a component, or a shared subtree that diffing may skip.
pub enum RespoNode<L: ?Sized, E: ?Sized> {
    Component(RespoComponent<L, E>),
    /// corresponding to DOM elements
    Element(RespoElement<L, E>),
    Referenced(Rc<RespoNode<L, E>>),
}

/// A named component: its effects and the tree it renders.
pub struct RespoComponent<L: ?Sized, E: ?Sized> {
    pub name: String,
    pub effects: Vec<Rc<E>>,
    pub tree: Box<RespoNode<L, E>>,
}

/// An element: tag name, attributes, event listeners, inline style and keyed children.
/// Attributes and listeners are read as maps in which a later entry overrides an earlier one.
pub struct RespoElement<L: ?Sized, E: ?Sized> {
    /// tagName
    pub name: String,
    pub attributes: Vec<(String, String)>,
    pub event: Vec<(String, Rc<L>)>,
    /// inlines styles, partially typed.
    pub style: RespoStyle,
    /// each child as a key like a string, by default generated from index,
    /// they are used in diffing, so it's better to be distinct, although not required to be.
    pub children: Vec<(RespoIndexKey, RespoNode<L, E>)>,
}

/// A tree as text and shared handles.
pub ghost enum NodeView<L: ?Sized, E: ?Sized> {
    Component { name: Seq<char>, effects: Seq<Rc<E>>, tree: Box<NodeView<L, E>> },
    Element {
        name: Seq<char>,
        attrs: Seq<(Seq<char>, Seq<char>)>,
        events: Seq<(Seq<char>, Rc<L>)>,
        style: Seq<(Seq<char>, Seq<char>)>,
        children: Seq<(Seq<char>, NodeView<L, E>)>,
    },
    Referenced(Box<NodeView<L, E>>),
}

pub open spec fn attrs_view(a: Seq<(String, String)>) -> Seq<(Seq<char>, Seq<char>)> {
    a.map_values(|p: (String, String)| (p.0@, p.1@))
}

pub open spec fn events_view<L: ?Sized>(e: Seq<(String, Rc<L>)>) -> Seq<(Seq<char>, Rc<L>)> {
    e.map_values(|p: (String, Rc<L>)| (p.0@, p.1))
}

/// The view of a tree.
pub open spec fn node_view<L: ?Sized, E: ?Sized>(n: RespoNode<L, E>) -> NodeView<L, E>
    decreases n, 0int,
{
    match n {
        RespoNode::Component(c) => NodeView::Component {
            name: c.name@,
            effects: c.effects@,
            tree: Box::new(node_view(*c.tree)),
        },
        RespoNode::Element(e) => NodeView::Element {
            name: e.name@,
            attrs: attrs_view(e.attributes@),
            events: events_view(e.event@),
            style: e.style.rules(),
            children: children_view(e.children@, e.children@.len() as int),
        },
        RespoNode::Referenced(rc) => NodeView::Referenced(Box::new(node_view(*rc))),
    }
}

/// The views of the first `k` children.
pub open spec fn children_view<L: ?Sized, E: ?Sized>(
    ch: Seq<(RespoIndexKey, RespoNode<L, E>)>,
    k: int,
) -> Seq<(Seq<char>, NodeView<L, E>)>
    decreases ch, k,
{
    if k <= 0 || k > ch.len() {
        Seq::empty()
    } else {
        children_view(ch, k - 1).push((ch[k - 1].0@, node_view(ch[k - 1].1)))
    }
}

impl<L: ?Sized, E: ?Sized> View for RespoNode<L, E> {
    type V = NodeView<L, E>;

    open spec fn view(&self) -> NodeView<L, E> {
        node_view(*self)
    }
}

impl<L: ?Sized, E: ?Sized> View for RespoElement<L, E> {
    type V = NodeView<L, E>;

    open spec fn view(&self) -> NodeView<L, E> {
        NodeView::Element {
            name: self.name@,
            attrs: attrs_view(self.attributes@),
            events: events_view(self.event@),
            style: self.style.rules(),
            children: children_view(self.children@, self.children@.len() as int),
        }
    }
}

impl<L: ?Sized, E: ?Sized> View for RespoComponent<L, E> {
    type V = NodeView<L, E>;

    open spec fn view(&self) -> NodeView<L, E> {
        NodeView::Component { name: self.name@, effects: self.effects@, tree: Box::new(node_view(*self.tree)) }
    }
}

/// The number of nodes of a tree, counting each shared subtree where it is referenced.
pub open spec fn size<L: ?Sized, E: ?Sized>(n: NodeView<L, E>) -> nat
    decreases n, 0int,
{
    match n {
        NodeView::Component { tree, .. } => 1 + size(*tree),
        NodeView::Element { children, .. } => 1 + rest_size(children, 0),
        NodeView::Referenced(t) => 1 + size(*t),
    }
}

/// The number of nodes of the children from position `i` on.
pub open spec fn rest_size<L: ?Sized, E: ?Sized>(ch: Seq<(Seq<char>, NodeView<L, E>)>, i: int) -> nat
    decreases ch, ch.len() - i,
{
    if i < 0 || i >= ch.len() {
        0
    } else {
        size(ch[i].1) + rest_size(ch, i + 1)
    }
}

pub proof fn lemma_size_positive<L: ?Sized, E: ?Sized>(n: NodeView<L, E>)
    ensures
        size(n) >= 1,
{
}

pub proof fn lemma_children_view<L: ?Sized, E: ?Sized>(
    ch: Seq<(RespoIndexKey, RespoNode<L, E>)>,
    k: int,
)
    requires
        0 <= k <= ch.len(),
    ensures
        children_view(ch, k).len() == k,
        forall|i: int| 0 <= i < k ==> #[trigger] children_view(ch, k)[i] == (ch[i].0@, node_view(ch[i].1)),
    decreases k,
{
    if k > 0 {
        lemma_children_view(ch, k - 1);
        assert forall|i: int| 0 <= i < k implies #[trigger] children_view(ch, k)[i] == (
            ch[i].0@,
            node_view(ch[i].1),
        ) by {
            if i < k - 1 {
                assert(children_view(ch, k)[i] == children_view(ch, k - 1)[i]);
            }
        }
    }
}

pub proof fn lemma_rest_size_ge<L: ?Sized, E: ?Sized>(ch: Seq<(Seq<char>, NodeView<L, E>)>, i: int, j: int)
    requires
        0 <= i <= j < ch.len(),
    ensures
        rest_size(ch, i) >= size(ch[j].1) + rest_size(ch, j + 1),
    decreases j - i,
{
    if i < j {
        lemma_rest_size_ge(ch, i + 1, j);
    }
}

/// The view of a child of an element, and its size is below the element's.
pub proof fn lemma_child_view<L: ?Sized, E: ?Sized>(e: RespoElement<L, E>, i: int)
    requires
        0 <= i < e.children@.len(),
    ensures
        e@->children.len() == e.children@.len(),
        e@->children[i] == (e.children@[i].0@, node_view(e.children@[i].1)),
        size(node_view(e.children@[i].1)) < size(e@),
{
    lemma_children_view(e.children@, e.children@.len() as int);
    lemma_rest_size_ge(e@->children, 0, i);
}

fn clone_pairs(v: &Vec<(String, String)>) -> (r: Vec<(String, String)>)
    ensures
        attrs_view(r@) == attrs_view(v@),
{
    let mut r: Vec<(String, String)> = Vec::new();
    let mut i: usize = 0;
    while i < v.len()
        invariant
            i <= v@.len(),
            attrs_view(r@) == attrs_view(v@).subrange(0, i as int),
        decreases v@.len() - i,
    {
        let ghost before = r@;
        r.push((v[i].0.clone(), v[i].1.clone()));
        assert(attrs_view(r@) =~= attrs_view(before).push((v@[i as int].0@, v@[i as int].1@)));
        assert(attrs_view(v@).subrange(0, i + 1) =~= attrs_view(v@).subrange(0, i as int).push(
            attrs_view(v@)[i as int],
        ));
        i = i + 1;
    }
    assert(attrs_view(v@).subrange(0, v@.len() as int) =~= attrs_view(v@));
    r
}

fn clone_listeners<L: ?Sized>(v: &Vec<(String, Rc<L>)>) -> (r: Vec<(String, Rc<L>)>)
    ensures
        events_view(r@) == events_view(v@),
{
    let mut r: Vec<(String, Rc<L>)> = Vec::new();
    let mut i: usize = 0;
    while i < v.len()
        invariant
            i <= v@.len(),
            events_view(r@) == events_view(v@).subrange(0, i as int),
        decreases v@.len() - i,
    {
        let ghost before = r@;
        r.push((v[i].0.clone(), share(&v[i].1)));
        assert(events_view(r@) =~= events_view(before).push((v@[i as int].0@, v@[i as int].1)));
        assert(events_view(v@).subrange(0, i + 1) =~= events_view(v@).subrange(0, i as int).push(
            events_view(v@)[i as int],
        ));
        i = i + 1;
    }
    assert(events_view(v@).subrange(0, v@.len() as int) =~= events_view(v@));
    r
}

fn clone_effects<E: ?Sized>(v: &Vec<Rc<E>>) -> (r: Vec<Rc<E>>)
    ensures
        r@ == v@,
{
    let mut r: Vec<Rc<E>> = Vec::new();
    let mut i: usize = 0;
    while i < v.len()
        invariant
            i <= v@.len(),
            r@ == v@.subrange(0, i as int),
        decreases v@.len() - i,
    {
        r.push(share(&v[i]));
        assert(v@.subrange(0, i + 1) =~= v@.subrange(0, i as int).push(v@[i as int]));
        i = i + 1;
    }
    assert(v@.subrange(0, v@.len() as int) =~= v@);
    r
}

impl<L: ?Sized, E: ?Sized> RespoNode<L, E> {
    /// A copy of the tree, sharing listeners, effects and referenced subtrees.
    pub fn clone_node(&self) -> (r: Self)
        ensures
            r@ == self@,
        decreases size(self@),
    {
        match self {
            RespoNode::Component(c) => {
                let t = c.tree.clone_node();
                RespoNode::Component(
                    RespoComponent { name: c.name.clone(), effects: clone_effects(&c.effects), tree: Box::new(t) },
                )
            },
            RespoNode::Element(e) => RespoNode::Element(e.clone_element()),
            RespoNode::Referenced(rc) => RespoNode::Referenced(share(rc)),
        }
    }

    /// A node for an element with the given tag name and nothing else.
    pub fn new_tag(name: &str) -> (r: Self)
        ensures
            r@ == (NodeView::<L, E>::Element {
                name: name@,
                attrs: Seq::empty(),
                events: Seq::empty(),
                style: Seq::empty(),
                children: Seq::empty(),
            }),
    {
        RespoNode::Element(RespoElement::named(name))
    }

    /// A component with the given name rendering `tree`, without effects.
    pub fn new_component(name: &str, tree: RespoNode<L, E>) -> (r: Self)
        ensures
            r@ == (NodeView::<L, E>::Component { name: name@, effects: Seq::empty(), tree: Box::new(tree@) }),
    {
        RespoNode::Component(RespoComponent { name: name.to_owned(), effects: Vec::new(), tree: Box::new(tree) })
    }

    /// A shared copy of the tree, which diffing skips when it meets the same allocation again.
    pub fn rc(&self) -> (r: Self)
        ensures
            r@ == NodeView::<L, E>::Referenced(Box::new(self@)),
    {
        RespoNode::Referenced(Rc::new(self.clone_node()))
    }
}

impl<L: ?Sized, E: ?Sized> RespoElement<L, E> {
    /// A copy of the element, sharing listeners and effects.
    pub fn clone_element(&self) -> (r: Self)
        ensures
            r@ == self@,
        decreases size(self@), 1int,
    {
        let mut children: Vec<(RespoIndexKey, RespoNode<L, E>)> = Vec::new();
        let mut i: usize = 0;
        proof {
            lemma_children_view(self.children@, self.children@.len() as int);
        }
        while i < self.children.len()
            invariant
                i <= self.children@.len(),
                children@.len() == i,
                forall|j: int|
                    0 <= j < i ==> #[trigger] children@[j].0@ == self.children@[j].0@ && node_view(
                        children@[j].1,
                    ) == node_view(self.children@[j].1),
            decreases self.children@.len() - i,
        {
            proof {
                lemma_child_view(*self, i as int);
            }
            let c = self.children[i].1.clone_node();
            children.push((RespoIndexKey(self.children[i].0.0.clone()), c));
            i = i + 1;
        }
        let r = RespoElement {
            name: self.name.clone(),
            attributes: clone_pairs(&self.attributes),
            event: clone_listeners(&self.event),
            style: RespoStyle(clone_pairs(&self.style.0)),
            children,
        };
        proof {
            lemma_children_view(children@, children@.len() as int);
            assert(children_view(children@, children@.len() as int) =~= children_view(
                self.children@,
                self.children@.len() as int,
            ));
            assert(r.style.rules() == attrs_view(r.style.0@));
        }
        r
    }
}


/// Sets `key` to `val` in a list of string pairs read as a map.
pub fn set_string_pair(v: &mut Vec<(String, String)>, key: String, val: String)
    ensures
        last_wins(attrs_view(final(v)@)) == last_wins(attrs_view(old(v)@)).insert(key@, val@),
{
    match find_last_key(v, &key) {
        Some(i) => {
            let ghost before = v@;
            let ghost k = key@;
            let ghost x = val@;
            v.set(i, (key, val));
            proof {
                assert(attrs_view(v@) =~= attrs_view(before).update(i as int, (k, x)));
                assert(is_last_key_at(attrs_view(before), k, i as int));
                lemma_last_wins_update(attrs_view(before), k, i as int, x);
            }
        },
        None => {
            let ghost before = v@;
            let ghost k = key@;
            let ghost x = val@;
            v.push((key, val));
            proof {
                assert(attrs_view(v@) =~= attrs_view(before).push((k, x)));
                assert(attrs_view(v@).drop_last() =~= attrs_view(before));
            }
        },
    }
}

/// Sets the listener of `key` in a list of listeners read as a map.
pub fn set_listener<L: ?Sized>(v: &mut Vec<(String, Rc<L>)>, key: String, handler: Rc<L>)
    ensures
        last_wins(events_view(final(v)@)) == last_wins(events_view(old(v)@)).insert(key@, handler),
{
    match find_last_key(v, &key) {
        Some(i) => {
            let ghost before = v@;
            let ghost k = key@;
            let ghost h = handler;
            v.set(i, (key, handler));
            proof {
                assert(events_view(v@) =~= events_view(before).update(i as int, (k, h)));
                assert(is_last_key_at(events_view(before), k, i as int));
                lemma_last_wins_update(events_view(before), k, i as int, h);
            }
        },
        None => {
            let ghost before = v@;
            let ghost k = key@;
            let ghost h = handler;
            v.push((key, handler));
            proof {
                assert(events_view(v@) =~= events_view(before).push((k, h)));
                assert(events_view(v@).drop_last() =~= events_view(before));
            }
        },
    }
}

/// Texts joined with a separator between consecutive ones.
pub open spec fn join_texts(xs: Seq<Seq<char>>, sep: Seq<char>) -> Seq<char>
    decreases xs.len(),
{
    if xs.len() == 0 {
        Seq::empty()
    } else if xs.len() == 1 {
        xs[0]
    } else {
        join_texts(xs.drop_last(), sep) + sep + xs.last()
    }
}

/// The texts of string slices.
pub open spec fn strs_view(xs: Seq<&str>) -> Seq<Seq<char>> {
    xs.map_values(|x: &str| x@)
}

/// The element view of a tag with nothing in it.
pub open spec fn bare_element<L: ?Sized, E: ?Sized>(name: Seq<char>) -> NodeView<L, E> {
    NodeView::Element {
        name: name,
        attrs: Seq::empty(),
        events: Seq::empty(),
        style: Seq::empty(),
        children: Seq::empty(),
    }
}

impl<L: ?Sized, E: ?Sized> RespoElement<L, E> {
    /// The attributes read as a map.
    pub open spec fn attrs_map(&self) -> Map<Seq<char>, Seq<char>> {
        last_wins(attrs_view(self.attributes@))
    }

    /// The listeners read as a map from event name.
    pub open spec fn listeners_map(&self) -> Map<Seq<char>, Rc<L>> {
        last_wins(events_view(self.event@))
    }

    /// An element with the given tag name and nothing else.
    pub fn named(name: &str) -> (r: Self)
        ensures
            r@ == bare_element::<L, E>(name@),
    {
        let r = RespoElement {
            name: name.to_owned(),
            attributes: Vec::new(),
            event: Vec::new(),
            style: RespoStyle(Vec::new()),
            children: Vec::new(),
        };
        assert(attrs_view(r.attributes@) =~= Seq::empty());
        assert(events_view(r.event@) =~= Seq::empty());
        assert(r.style.rules() =~= Seq::empty());
        r
    }

    /// The element as a node.
    pub fn to_node(self) -> (r: RespoNode<L, E>)
        ensures
            r == RespoNode::Element(self),
    {
        RespoNode::Element(self)
    }

    /// Appends inline style declarations.
    pub fn style(self, more: RespoStyle) -> (r: Self)
        ensures
            r.style.rules() == self.style.rules() + more.rules(),
            r.name == self.name,
            r.attributes == self.attributes,
            r.event == self.event,
            r.children == self.children,
    {
        let style = self.style.extend(more);
        RespoElement { name: self.name, attributes: self.attributes, event: self.event, style, children: self.children }
    }

    /// Sets an attribute.
    pub fn attr(self, property: &str, value: &str) -> (r: Self)
        ensures
            r.attrs_map() == self.attrs_map().insert(property@, value@),
            r.name == self.name,
            r.event == self.event,
            r.style == self.style,
            r.children == self.children,
    {
        let mut attrs = self.attributes;
        set_string_pair(&mut attrs, property.to_owned(), value.to_owned());
        RespoElement { name: self.name, attributes: attrs, event: self.event, style: self.style, children: self.children }
    }

    /// Sets an attribute when a value is given; otherwise leaves the element as it is.
    pub fn maybe_attr(self, property: &str, value: Option<&str>) -> (r: Self)
        ensures
            value matches Some(v) ==> r.attrs_map() == self.attrs_map().insert(property@, v@),
            value is None ==> r.attrs_map() == self.attrs_map(),
            r.name == self.name,
            r.event == self.event,
            r.style == self.style,
            r.children == self.children,
    {
        match value {
            Some(v) => self.attr(property, v),
            None => self,
        }
    }

    /// Sets attributes from a list of pairs, in order.
    pub fn attrs(self, list: &[(&str, &str)]) -> (r: Self)
        ensures
            r.attrs_map() == self.attrs_map().union_prefer_right(
                last_wins(list@.map_values(|p: (&str, &str)| (p.0@, p.1@))),
            ),
            r.name == self.name,
            r.event == self.event,
            r.style == self.style,
            r.children == self.children,
    {
        let ghost pairs = list@.map_values(|p: (&str, &str)| (p.0@, p.1@));
        let mut attrs = self.attributes;
        let mut i: usize = 0;
        while i < list.len()
            invariant
                i <= list@.len(),
                pairs == list@.map_values(|p: (&str, &str)| (p.0@, p.1@)),
                last_wins(attrs_view(attrs@)) == last_wins(attrs_view(self.attributes@)).union_prefer_right(
                    last_wins(pairs.subrange(0, i as int)),
                ),
            decreases list@.len() - i,
        {
            let (k, v) = list[i];
            set_string_pair(&mut attrs, k.to_owned(), v.to_owned());
            proof {
                assert(pairs.subrange(0, i + 1).drop_last() =~= pairs.subrange(0, i as int));
                assert(last_wins(attrs_view(self.attributes@)).union_prefer_right(
                    last_wins(pairs.subrange(0, i as int)),
                ).insert(k@, v@) =~= last_wins(attrs_view(self.attributes@)).union_prefer_right(
                    last_wins(pairs.subrange(0, i + 1)),
                ));
            }
            i = i + 1;
        }
        proof {
            assert(pairs.subrange(0, list@.len() as int) =~= pairs);
        }
        RespoElement { name: self.name, attributes: attrs, event: self.event, style: self.style, children: self.children }
    }

    /// Attaches a listener for the event `name`, replacing an earlier one for that name.
    pub fn on_named_event(self, name: &str, handler: Rc<L>) -> (r: Self)
        ensures
            r.listeners_map() == self.listeners_map().insert(name@, handler),
            r.name == self.name,
            r.attributes == self.attributes,
            r.style == self.style,
            r.children == self.children,
    {
        let mut e = self.event;
        set_listener(&mut e, name.to_owned(), handler);
        RespoElement { name: self.name, attributes: self.attributes, event: e, style: self.style, children: self.children }
    }

    /// Attaches a listener for the `click` event.
    pub fn on_click(self, handler: Rc<L>) -> (r: Self)
        ensures
            r.listeners_map() == self.listeners_map().insert("click"@, handler),
            r.name == self.name,
            r.attributes == self.attributes,
            r.style == self.style,
            r.children == self.children,
    {
        self.on_named_event("click", handler)
    }

    /// Attaches a listener for the `input` event.
    pub fn on_input(self, handler: Rc<L>) -> (r: Self)
        ensures
            r.listeners_map() == self.listeners_map().insert("input"@, handler),
            r.name == self.name,
            r.attributes == self.attributes,
            r.style == self.style,
            r.children == self.children,
    {
        self.on_named_event("input", handler)
    }

    /// Attaches a listener for the `keydown` event.
    pub fn on_keydown(self, handler: Rc<L>) -> (r: Self)
        ensures
            r.listeners_map() == self.listeners_map().insert("keydown"@, handler),
            r.name == self.name,
            r.attributes == self.attributes,
            r.style == self.style,
            r.children == self.children,
    {
        self.on_named_event("keydown", handler)
    }

    /// Attaches a listener for the `focus` event.
    pub fn on_focus(self, handler: Rc<L>) -> (r: Self)
        ensures
            r.listeners_map() == self.listeners_map().insert("focus"@, handler),
            r.name == self.name,
            r.attributes == self.attributes,
            r.style == self.style,
            r.children == self.children,
    {
        self.on_named_event("focus", handler)
    }

    /// Attaches a listener for the `change` event.
    pub fn on_change(self, handler: Rc<L>) -> (r: Self)
        ensures
            r.listeners_map() == self.listeners_map().insert("change"@, handler),
            r.name == self.name,
            r.attributes == self.attributes,
            r.style == self.style,
            r.children == self.children,
    {
        self.on_named_event("change", handler)
    }

    /// Appends children; their keys are their positions in `more`, as decimal numerals.
    pub fn children(self, more: Vec<RespoNode<L, E>>) -> (r: Self)
        ensures
            r.children@.len() == self.children@.len() + more@.len(),
            forall|i: int| 0 <= i < self.children@.len() ==> #[trigger] r.children@[i] == self.children@[i],
            forall|j: int|
                0 <= j < more@.len() ==> #[trigger] r.children@[self.children@.len() + j].0@ == decimal(
                    j as nat,
                ) && r.children@[self.children@.len() + j].1 == more@[j],
            r.name == self.name,
            r.attributes == self.attributes,
            r.event == self.event,
            r.style == self.style,
    {
        let mut children = self.children;
        let mut more = more;
        let ghost start = children@;
        let ghost all = more@;
        let total = more.len();
        let mut rest: Vec<RespoNode<L, E>> = Vec::new();
        while more.len() > 0
            invariant
                rest@.len() + more@.len() == all.len(),
                forall|j: int| 0 <= j < more@.len() ==> more@[j] == all[j],
                forall|j: int| 0 <= j < rest@.len() ==> rest@[j] == all[all.len() - 1 - j],
            decreases more@.len(),
        {
            let x = more.pop().unwrap();
            rest.push(x);
        }
        let mut idx: usize = 0;
        while rest.len() > 0
            invariant
                idx + rest@.len() == all.len(),
                all.len() == total,
                children@.len() == start.len() + idx,
                forall|i: int| 0 <= i < start.len() ==> #[trigger] children@[i] == start[i],
                forall|j: int|
                    0 <= j < idx ==> #[trigger] children@[start.len() + j].0@ == decimal(j as nat)
                        && children@[start.len() + j].1 == all[j],
                forall|j: int| 0 <= j < rest@.len() ==> rest@[j] == all[all.len() - 1 - j],
            decreases rest@.len(),
        {
            let x = rest.pop().unwrap();
            children.push((RespoIndexKey::from_index(idx), x));
            idx = idx + 1;
        }
        RespoElement { name: self.name, attributes: self.attributes, event: self.event, style: self.style, children }
    }

    /// Appends elements as children; their keys are their positions in `more`.
    pub fn elements(self, more: Vec<RespoElement<L, E>>) -> (r: Self)
        ensures
            r.children@.len() == self.children@.len() + more@.len(),
            forall|i: int| 0 <= i < self.children@.len() ==> #[trigger] r.children@[i] == self.children@[i],
            forall|j: int|
                0 <= j < more@.len() ==> #[trigger] r.children@[self.children@.len() + j].0@ == decimal(
                    j as nat,
                ) && r.children@[self.children@.len() + j].1 == RespoNode::Element(more@[j]),
            r.name == self.name,
            r.attributes == self.attributes,
            r.event == self.event,
            r.style == self.style,
    {
        let mut more = more;
        let ghost all = more@;
        let mut rest: Vec<RespoElement<L, E>> = Vec::new();
        while more.len() > 0
            invariant
                rest@.len() + more@.len() == all.len(),
                forall|j: int| 0 <= j < more@.len() ==> more@[j] == all[j],
                forall|j: int| 0 <= j < rest@.len() ==> rest@[j] == all[all.len() - 1 - j],
            decreases more@.len(),
        {
            let x = more.pop().unwrap();
            rest.push(x);
        }
        let mut nodes: Vec<RespoNode<L, E>> = Vec::new();
        while rest.len() > 0
            invariant
                nodes@.len() + rest@.len() == all.len(),
                forall|j: int| 0 <= j < nodes@.len() ==> nodes@[j] == RespoNode::Element(all[j]),
                forall|j: int| 0 <= j < rest@.len() ==> rest@[j] == all[all.len() - 1 - j],
            decreases rest@.len(),
        {
            let x = rest.pop().unwrap();
            nodes.push(RespoNode::Element(x));
        }
        self.children(nodes)
    }

    /// Appends children with the given keys.
    pub fn children_indexed(self, more: Vec<(RespoIndexKey, RespoNode<L, E>)>) -> (r: Self)
        ensures
            r.children@ == self.children@ + more@,
            r.name == self.name,
            r.attributes == self.attributes,
            r.event == self.event,
            r.style == self.style,
    {
        let mut children = self.children;
        let mut more = more;
        children.append(&mut more);
        RespoElement { name: self.name, attributes: self.attributes, event: self.event, style: self.style, children }
    }

    /// Sets the `class` attribute.
    pub fn class(self, name: &str) -> (r: Self)
        ensures
            r.attrs_map() == self.attrs_map().insert("class"@, name@),
            r.name == self.name,
            r.event == self.event,
            r.style == self.style,
            r.children == self.children,
    {
        self.attr("class", name)
    }

    /// Sets the `class` attribute when a name is given.
    pub fn maybe_class(self, name: Option<&str>) -> (r: Self)
        ensures
            name matches Some(n) ==> r.attrs_map() == self.attrs_map().insert("class"@, n@),
            name is None ==> r.attrs_map() == self.attrs_map(),
            r.name == self.name,
            r.event == self.event,
            r.style == self.style,
            r.children == self.children,
    {
        match name {
            Some(n) => self.attr("class", n),
            None => self,
        }
    }

    /// Sets the `class` attribute when `on` holds.
    pub fn toggle_class(self, name: &str, on: bool) -> (r: Self)
        ensures
            on ==> r.attrs_map() == self.attrs_map().insert("class"@, name@),
            !on ==> r.attrs_map() == self.attrs_map(),
            r.name == self.name,
            r.event == self.event,
            r.style == self.style,
            r.children == self.children,
    {
        if on {
            self.attr("class", name)
        } else {
            self
        }
    }

    /// Sets the `class` attribute to the names joined by spaces.
    pub fn class_list(self, names: &[&str]) -> (r: Self)
        ensures
            r.attrs_map() == self.attrs_map().insert("class"@, join_texts(strs_view(names@), " "@)),
            r.name == self.name,
            r.event == self.event,
            r.style == self.style,
            r.children == self.children,
    {
        let mut joined = String::new();
        let mut i: usize = 0;
        while i < names.len()
            invariant
                i <= names@.len(),
                joined@ == join_texts(strs_view(names@).subrange(0, i as int), " "@),
            decreases names@.len() - i,
        {
            if i > 0 {
                joined.append(" ");
            }
            joined.append(names[i]);
            proof {
                let sub = strs_view(names@).subrange(0, i + 1);
                assert(sub.drop_last() =~= strs_view(names@).subrange(0, i as int));
                if i == 0 {
                    assert(Seq::<char>::empty() + names@[0]@ == sub[0]);
                }
            }
            i = i + 1;
        }
        proof {
            assert(strs_view(names@).subrange(0, names@.len() as int) =~= strs_view(names@));
        }
        self.attr("class", joined.as_str())
    }

    /// Sets the `innerText` attribute.
    pub fn inner_text(self, content: &str) -> (r: Self)
        ensures
            r.attrs_map() == self.attrs_map().insert("innerText"@, content@),
            r.name == self.name,
            r.event == self.event,
            r.style == self.style,
            r.children == self.children,
    {
        self.attr("innerText", content)
    }

    /// Sets the `innerHTML` attribute.
    pub fn inner_html(self, content: &str) -> (r: Self)
        ensures
            r.attrs_map() == self.attrs_map().insert("innerHTML"@, content@),
            r.name == self.name,
            r.event == self.event,
            r.style == self.style,
            r.children == self.children,
    {
        self.attr("innerHTML", content)
    }

    /// Sets the `value` attribute.
    pub fn value(self, content: &str) -> (r: Self)
        ensures
            r.attrs_map() == self.attrs_map().insert("value"@, content@),
            r.name == self.name,
            r.event == self.event,
            r.style == self.style,
            r.children == self.children,
    {
        self.attr("value", content)
    }
}

impl<L: ?Sized, E: ?Sized> RespoComponent<L, E> {
    /// A component with the given name rendering an element, without effects.
    pub fn named(name: &str, tree: RespoElement<L, E>) -> (r: Self)
        ensures
            r.name@ == name@,
            r.effects@ == Seq::<Rc<E>>::empty(),
            *r.tree == RespoNode::Element(tree),
    {
        RespoComponent { name: name.to_owned(), effects: Vec::new(), tree: Box::new(RespoNode::Element(tree)) }
    }

    /// The component as a node.
    pub fn to_node(self) -> (r: RespoNode<L, E>)
        ensures
            r == RespoNode::Component(self),
    {
        RespoNode::Component(self)
    }

    /// Adds an effect.
    pub fn effect(self, eff: Rc<E>) -> (r: Self)
        ensures
            r.effects@ == self.effects@.push(eff),
            r.name == self.name,
            r.tree == self.tree,
    {
        let mut effects = self.effects;
        effects.push(eff);
        RespoComponent { name: self.name, effects, tree: self.tree }
    }

    /// Adds an effect whose arguments never change.
    pub fn stable_effect(self, eff: Rc<E>) -> (r: Self)
        ensures
            r.effects@ == self.effects@.push(eff),
            r.name == self.name,
            r.tree == self.tree,
    {
        self.effect(eff)
    }

    /// Adds effects, in order.
    pub fn effects(self, more: Vec<Rc<E>>) -> (r: Self)
        ensures
            r.effects@ == self.effects@ + more@,
            r.name == self.name,
            r.tree == self.tree,
    {
        let mut effects = self.effects;
        let mut more = more;
        effects.append(&mut more);
        RespoComponent { name: self.name, effects, tree: self.tree }
    }
}

/// A `<div/>` element.
pub fn div<L: ?Sized, E: ?Sized>() -> (r: RespoElement<L, E>)
    ensures
        r@ == bare_element::<L, E>("div"@),
{
    RespoElement::named("div")
}

/// A `<header/>` element.
pub fn header<L: ?Sized, E: ?Sized>() -> (r: RespoElement<L, E>)
    ensures
        r@ == bare_element::<L, E>("header"@),
{
    RespoElement::named("header")
}

/// A `<section/>` element.
pub fn section<L: ?Sized, E: ?Sized>() -> (r: RespoElement<L, E>)
    ensures
        r@ == bare_element::<L, E>("section"@),
{
    RespoElement::named("section")
}

/// A `<footer/>` element.
pub fn footer<L: ?Sized, E: ?Sized>() -> (r: RespoElement<L, E>)
    ensures
        r@ == bare_element::<L, E>("footer"@),
{
    RespoElement::named("footer")
}

/// A `<br/>` element.
pub fn br<L: ?Sized, E: ?Sized>() -> (r: RespoElement<L, E>)
    ensures
        r@ == bare_element::<L, E>("br"@),
{
    RespoElement::named("br")
}

/// A `<span/>` element.
pub fn span<L: ?Sized, E: ?Sized>() -> (r: RespoElement<L, E>)
    ensures
        r@ == bare_element::<L, E>("span"@),
{
    RespoElement::named("span")
}

/// A `<input/>` element.
pub fn input<L: ?Sized, E: ?Sized>() -> (r: RespoElement<L, E>)
    ensures
        r@ == bare_element::<L, E>("input"@),
{
    RespoElement::named("input")
}

/// A `<textarea/>` element.
pub fn textarea<L: ?Sized, E: ?Sized>() -> (r: RespoElement<L, E>)
    ensures
        r@ == bare_element::<L, E>("textarea"@),
{
    RespoElement::named("textarea")
}

/// A `<link/>` element.
pub fn link<L: ?Sized, E: ?Sized>() -> (r: RespoElement<L, E>)
    ensures
        r@ == bare_element::<L, E>("link"@),
{
    RespoElement::named("link")
}

/// A `<button/>` element.
pub fn button<L: ?Sized, E: ?Sized>() -> (r: RespoElement<L, E>)
    ensures
        r@ == bare_element::<L, E>("button"@),
{
    RespoElement::named("button")
}

/// A `<pre/>` element.
pub fn pre<L: ?Sized, E: ?Sized>() -> (r: RespoElement<L, E>)
    ensures
        r@ == bare_element::<L, E>("pre"@),
{
    RespoElement::named("pre")
}

/// A `<img/>` element.
pub fn img<L: ?Sized, E: ?Sized>() -> (r: RespoElement<L, E>)
    ensures
        r@ == bare_element::<L, E>("img"@),
{
    RespoElement::named("img")
}

/// A `<video/>` element.
pub fn video<L: ?Sized, E: ?Sized>() -> (r: RespoElement<L, E>)
    ensures
        r@ == bare_element::<L, E>("video"@),
{
    RespoElement::named("video")
}

/// A `<code/>` element.
pub fn code<L: ?Sized, E: ?Sized>() -> (r: RespoElement<L, E>)
    ensures
        r@ == bare_element::<L, E>("code"@),
{
    RespoElement::named("code")
}

/// A `<a/>` element.
pub fn a<L: ?Sized, E: ?Sized>() -> (r: RespoElement<L, E>)
    ensures
        r@ == bare_element::<L, E>("a"@),
{
    RespoElement::named("a")
}

/// A `<h1/>` element.
pub fn h1<L: ?Sized, E: ?Sized>() -> (r: RespoElement<L, E>)
    ensures
        r@ == bare_element::<L, E>("h1"@),
{
    RespoElement::named("h1")
}

/// A `<h2/>` element.
pub fn h2<L: ?Sized, E: ?Sized>() -> (r: RespoElement<L, E>)
    ensures
        r@ == bare_element::<L, E>("h2"@),
{
    RespoElement::named("h2")
}

/// A `<h3/>` element.
pub fn h3<L: ?Sized, E: ?Sized>() -> (r: RespoElement<L, E>)
    ensures
        r@ == bare_element::<L, E>("h3"@),
{
    RespoElement::named("h3")
}

/// A `<h4/>` element.
pub fn h4<L: ?Sized, E: ?Sized>() -> (r: RespoElement<L, E>)
    ensures
        r@ == bare_element::<L, E>("h4"@),
{
    RespoElement::named("h4")
}

/// A `<blockquote/>` element.
pub fn blockquote<L: ?Sized, E: ?Sized>() -> (r: RespoElement<L, E>)
    ensures
        r@ == bare_element::<L, E>("blockquote"@),
{
    RespoElement::named("blockquote")
}

/// A `<ul/>` element.
pub fn ul<L: ?Sized, E: ?Sized>() -> (r: RespoElement<L, E>)
    ensures
        r@ == bare_element::<L, E>("ul"@),
{
    RespoElement::named("ul")
}

/// A `<li/>` element.
pub fn li<L: ?Sized, E: ?Sized>() -> (r: RespoElement<L, E>)
    ensures
        r@ == bare_element::<L, E>("li"@),
{
    RespoElement::named("li")
}

/// A `<label/>` element.
pub fn label<L: ?Sized, E: ?Sized>() -> (r: RespoElement<L, E>)
    ensures
        r@ == bare_element::<L, E>("label"@),
{
    RespoElement::named("label")
}

/// A `<canvas/>` element.
pub fn canvas<L: ?Sized, E: ?Sized>() -> (r: RespoElement<L, E>)
    ensures
        r@ == bare_element::<L, E>("canvas"@),
{
    RespoElement::named("canvas")
}

} // verus!
