//! Finding the node and the listener an event is meant for, and the flag that asks the
//! render loop for another pass.

use std::rc::Rc;
use vstd::prelude::*;

use crate::node::{
    children_view, coord_view, events_view, join_texts, lemma_child_view, lemma_children_view, lemma_rest_size_ge,
    share, size, CoordView, NodeView, RespoCoord, RespoElement, RespoNode,
};
use crate::pairs::{find_last_key, is_last_key_at, last_wins, lemma_last_wins_contains, lemma_last_wins_value};
use crate::text::{append_str, debug_str, debug_text};

verus! {

/// The text `{:?}` gives for a child key.
pub open spec fn key_debug(k: Seq<char>) -> Seq<char> {
    "RespoIndexKey("@ + debug_text(k) + ")"@
}

/// The text `{:?}` gives for a coordinate step.
pub open spec fn step_debug(c: CoordView) -> Seq<char> {
    match c {
        CoordView::Key(k) => "Key("@ + key_debug(k) + ")"@,
        CoordView::Comp(n) => "Comp("@ + debug_text(n) + ")"@,
    }
}

/// The text `{:?}` gives for a list of texts, each rendered by `f`.
pub open spec fn list_debug(items: Seq<Seq<char>>) -> Seq<char> {
    "["@ + join_texts(items, ", "@) + "]"@
}

/// The text `{:?}` gives for a coordinate path.
pub open spec fn coord_debug(c: Seq<CoordView>) -> Seq<char> {
    list_debug(c.map_values(|x: CoordView| step_debug(x)))
}

/// `i` is the first position of a child with key `k`.
pub open spec fn first_key_at<L: ?Sized, E: ?Sized>(ch: Seq<(Seq<char>, NodeView<L, E>)>, k: Seq<char>, i: int) -> bool {
    &&& 0 <= i < ch.len()
    &&& ch[i].0 == k
    &&& forall|j: int| 0 <= j < i ==> ch[j].0 != k
}

/// The message for a component met where another component name is expected.
pub open spec fn name_mismatch_message(expected: Seq<char>, found: Seq<char>) -> Seq<char> {
    "Mismatch in expected component name: expected "@ + expected + ", found "@ + found
}

/// The node a coordinate path leads to from `tree`, or the message telling why it leads nowhere.
/// A shared subtree is entered without taking a step.
pub open spec fn coord_target<L: ?Sized, E: ?Sized>(tree: NodeView<L, E>, coord: Seq<CoordView>) -> Result<
    NodeView<L, E>,
    Seq<char>,
>
    decreases coord.len(), size(tree),
{
    if coord.len() == 0 {
        match tree {
            NodeView::Referenced(c) => Ok(*c),
            _ => Ok(tree),
        }
    } else {
        match tree {
            NodeView::Component { name, tree: t, .. } => match coord[0] {
                CoordView::Comp(target) => if name == target {
                    coord_target(*t, coord.drop_first())
                } else {
                    Err(name_mismatch_message(target, name))
                },
                CoordView::Key(_) => Err("Type mismatch: expected a DOM element, but found a component"@),
            },
            NodeView::Element { children, .. } => match coord[0] {
                CoordView::Key(idx) => if exists|i: int| first_key_at(children, idx, i) {
                    let i = choose|i: int| first_key_at(children, idx, i);
                    coord_target(children[i].1, coord.drop_first())
                } else {
                    Err("no child at index key "@ + key_debug(idx))
                },
                CoordView::Comp(_) => Err(
                    "expected component at "@ + coord_debug(coord) + ", found target being an element"@,
                ),
            },
            NodeView::Referenced(c) => coord_target(*c, coord),
        }
    }
}

/// A node a coordinate path leads to is no larger than the tree.
pub proof fn lemma_target_size<L: ?Sized, E: ?Sized>(tree: NodeView<L, E>, coord: Seq<CoordView>)
    ensures
        coord_target(tree, coord) matches Ok(n) ==> size(n) <= size(tree),
    decreases coord.len(), size(tree),
{
    if coord.len() > 0 {
        match tree {
            NodeView::Component { name, tree: t, .. } => {
                lemma_target_size(*t, coord.drop_first());
            },
            NodeView::Element { children, .. } => {
                if let CoordView::Key(idx) = coord[0] {
                    if exists|i: int| first_key_at(children, idx, i) {
                        let i = choose|i: int| first_key_at(children, idx, i);
                        lemma_rest_size_ge(children, 0, i);
                        lemma_target_size(children[i].1, coord.drop_first());
                    }
                }
            },
            NodeView::Referenced(c) => {
                lemma_target_size(*c, coord);
            },
        }
    }
}

/// The names of the events of a list of listeners, as `{:?}` gives them.
pub open spec fn event_names_debug<L: ?Sized>(events: Seq<(Seq<char>, Rc<L>)>) -> Seq<char> {
    list_debug(events.map_values(|e: (Seq<char>, Rc<L>)| debug_text(e.0)))
}

/// The listener for the event `name` of the element a coordinate path leads to, or the
/// message telling why there is none. When the path leads to a shared subtree behind a
/// shared subtree, the same path is followed again from the inner one.
pub open spec fn target_handler<L: ?Sized, E: ?Sized>(
    tree: NodeView<L, E>,
    name: Seq<char>,
    coord: Seq<CoordView>,
) -> Result<Rc<L>, Seq<char>>
    decreases size(tree),
{
    match coord_target(tree, coord) {
        Err(e) => Err(e),
        Ok(NodeView::Component { name: n, .. }) => Err("expected element, found target being a component: "@ + n),
        Ok(NodeView::Element { name: tag, events, .. }) => if last_wins(events).contains_key(name) {
            Ok(last_wins(events)[name])
        } else {
            Err(
                "No event handler found for event '"@ + name + "' on element '"@ + tag + "', available events: "@
                    + event_names_debug(events),
            )
        },
        Ok(NodeView::Referenced(c)) => {
            proof {
                lemma_target_size(tree, coord);
            }
            target_handler(*c, name, coord)
        },
    }
}

/// Appends the `{:?}` text of a child key.
fn append_key_debug(s: &mut String, k: &str)
    ensures
        final(s)@ == old(s)@ + key_debug(k@),
{
    let ghost s0 = s@;
    append_str(s, "RespoIndexKey(");
    let d = debug_str(k);
    append_str(s, d.as_str());
    append_str(s, ")");
    assert(s@ =~= s0 + key_debug(k@));
}

/// The `{:?}` text of the coordinate steps from position `from` on.
fn coord_debug_string(coord: &[RespoCoord], from: usize) -> (r: String)
    requires
        from <= coord@.len(),
    ensures
        r@ == coord_debug(coord_view(coord@).skip(from as int)),
{
    let ghost steps = coord_view(coord@).skip(from as int).map_values(|x: CoordView| step_debug(x));
    let mut joined = String::new();
    let mut i: usize = from;
    while i < coord.len()
        invariant
            from <= i <= coord@.len(),
            steps == coord_view(coord@).skip(from as int).map_values(|x: CoordView| step_debug(x)),
            steps.len() == coord@.len() - from,
            joined@ == join_texts(steps.subrange(0, i - from), ", "@),
        decreases coord@.len() - i,
    {
        let ghost before = joined@;
        if i > from {
            append_str(&mut joined, ", ");
        }
        let ghost mid = joined@;
        match &coord[i] {
            RespoCoord::Key(k) => {
                append_str(&mut joined, "Key(");
                append_key_debug(&mut joined, k.0.as_str());
                append_str(&mut joined, ")");
            },
            RespoCoord::Comp(n) => {
                append_str(&mut joined, "Comp(");
                let d = debug_str(n.as_str());
                append_str(&mut joined, d.as_str());
                append_str(&mut joined, ")");
            },
        }
        proof {
            assert(steps[i - from] == step_debug(coord@[i as int]@));
            assert(joined@ =~= mid + steps[i - from]);
            let sub = steps.subrange(0, i - from + 1);
            assert(sub.drop_last() =~= steps.subrange(0, i - from));
            assert(sub.last() == steps[i - from]);
            if i == from {
                assert(before == Seq::<char>::empty());
                assert(join_texts(sub, ", "@) == sub[0]);
                assert(joined@ =~= sub[0]);
            }
        }
        i = i + 1;
    }
    let mut r = String::new();
    append_str(&mut r, "[");
    append_str(&mut r, joined.as_str());
    append_str(&mut r, "]");
    proof {
        assert(steps.subrange(0, coord@.len() - from) =~= steps);
        assert(r@ =~= coord_debug(coord_view(coord@).skip(from as int)));
    }
    r
}

/// The `{:?}` text of the event names of a list of listeners.
fn event_names_string<L: ?Sized>(events: &Vec<(String, Rc<L>)>) -> (r: String)
    ensures
        r@ == event_names_debug(events_view(events@)),
{
    let ghost names = events_view(events@).map_values(|e: (Seq<char>, Rc<L>)| debug_text(e.0));
    let mut joined = String::new();
    let mut i: usize = 0;
    while i < events.len()
        invariant
            i <= events@.len(),
            names == events_view(events@).map_values(|e: (Seq<char>, Rc<L>)| debug_text(e.0)),
            names.len() == events@.len(),
            joined@ == join_texts(names.subrange(0, i as int), ", "@),
        decreases events@.len() - i,
    {
        let ghost before = joined@;
        if i > 0 {
            append_str(&mut joined, ", ");
        }
        let ghost mid = joined@;
        let d = debug_str(events[i].0.as_str());
        append_str(&mut joined, d.as_str());
        proof {
            assert(names[i as int] == debug_text(events@[i as int].0@));
            let sub = names.subrange(0, i + 1);
            assert(sub.drop_last() =~= names.subrange(0, i as int));
            if i == 0 {
                assert(joined@ =~= sub[0]);
            }
        }
        i = i + 1;
    }
    let mut r = String::new();
    append_str(&mut r, "[");
    append_str(&mut r, joined.as_str());
    append_str(&mut r, "]");
    proof {
        assert(names.subrange(0, events@.len() as int) =~= names);
        assert(r@ =~= event_names_debug(events_view(events@)));
    }
    r
}

/// The position of the first child with key text `key`, if any.
fn child_position<L: ?Sized, E: ?Sized>(e: &RespoElement<L, E>, key: &String) -> (r: Option<usize>)
    ensures
        match r {
            Some(i) => i < e.children@.len() && first_key_at(e@->children, key@, i as int),
            None => !exists|i: int| first_key_at(e@->children, key@, i),
        },
{
    proof {
        lemma_children_view(e.children@, e.children@.len() as int);
    }
    let mut i: usize = 0;
    while i < e.children.len()
        invariant
            i <= e.children@.len(),
            e@->children.len() == e.children@.len(),
            forall|j: int| 0 <= j < e.children@.len() ==> #[trigger] e@->children[j] == (e.children@[j].0@, e.children@[j].1@),
            forall|j: int| 0 <= j < i ==> e@->children[j].0 != key@,
        decreases e.children@.len() - i,
    {
        if e.children[i].0.0 == *key {
            return Some(i);
        }
        i = i + 1;
    }
    None
}

fn load_from<L: ?Sized, E: ?Sized>(tree: &RespoNode<L, E>, coord: &[RespoCoord], from: usize) -> (r: Result<
    RespoNode<L, E>,
    String,
>)
    requires
        from <= coord@.len(),
    ensures
        match r {
            Ok(n) => coord_target(tree@, coord_view(coord@).skip(from as int)) == Ok::<NodeView<L, E>, Seq<char>>(n@),
            Err(m) => coord_target(tree@, coord_view(coord@).skip(from as int)) == Err::<NodeView<L, E>, Seq<char>>(m@),
        },
    decreases coord@.len() - from, size(tree@),
{
    let ghost c = coord_view(coord@).skip(from as int);
    proof {
        if from < coord@.len() {
            assert(c[0] == coord@[from as int]@);
            assert(c.drop_first() =~= coord_view(coord@).skip(from + 1));
        }
    }
    if from == coord.len() {
        match tree {
            RespoNode::Referenced(cell) => Ok((**cell).clone_node()),
            _ => Ok(tree.clone_node()),
        }
    } else {
        match tree {
            RespoNode::Component(comp) => match &coord[from] {
                RespoCoord::Comp(target) => {
                    if comp.name == *target {
                        load_from(&comp.tree, coord, from + 1)
                    } else {
                        let mut m = String::new();
                        append_str(&mut m, "Mismatch in expected component name: expected ");
                        append_str(&mut m, target.as_str());
                        append_str(&mut m, ", found ");
                        append_str(&mut m, comp.name.as_str());
                        assert(m@ =~= name_mismatch_message(target@, comp.name@));
                        Err(m)
                    }
                },
                RespoCoord::Key(_) => Err("Type mismatch: expected a DOM element, but found a component".to_owned()),
            },
            RespoNode::Element(e) => match &coord[from] {
                RespoCoord::Key(idx) => match child_position(e, &idx.0) {
                    Some(i) => {
                        proof {
                            lemma_child_view(*e, i as int);
                            let j = choose|j: int| first_key_at(e@->children, idx@, j);
                            if j < i {
                                assert(e@->children[j].0 != idx@);
                            } else if i < j {
                                assert(e@->children[i as int].0 != idx@);
                            }
                        }
                        load_from(&e.children[i].1, coord, from + 1)
                    },
                    None => {
                        let mut m = String::new();
                        append_str(&mut m, "no child at index key ");
                        append_key_debug(&mut m, idx.0.as_str());
                        assert(m@ =~= "no child at index key "@ + key_debug(idx@));
                        Err(m)
                    },
                },
                RespoCoord::Comp(_) => {
                    let mut m = String::new();
                    append_str(&mut m, "expected component at ");
                    let d = coord_debug_string(coord, from);
                    append_str(&mut m, d.as_str());
                    append_str(&mut m, ", found target being an element");
                    assert(m@ =~= "expected component at "@ + coord_debug(c) + ", found target being an element"@);
                    Err(m)
                },
            },
            RespoNode::Referenced(cell) => load_from(&**cell, coord, from),
        }
    }
}

/// The node at the end of a coordinate path, copied; a shared subtree at the end is
/// unwrapped once.
pub fn load_coord_target_tree<L: ?Sized, E: ?Sized>(tree: &RespoNode<L, E>, coord: &[RespoCoord]) -> (r: Result<
    RespoNode<L, E>,
    String,
>)
    ensures
        match r {
            Ok(n) => coord_target(tree@, coord_view(coord@)) == Ok::<NodeView<L, E>, Seq<char>>(n@),
            Err(m) => coord_target(tree@, coord_view(coord@)) == Err::<NodeView<L, E>, Seq<char>>(m@),
        },
{
    assert(coord_view(coord@).skip(0) =~= coord_view(coord@));
    load_from(tree, coord, 0)
}

/// The listener for the event `event_name` of the element at the end of a coordinate path.
pub fn request_for_target_handler<L: ?Sized, E: ?Sized>(
    tree: &RespoNode<L, E>,
    event_name: &str,
    coord: &[RespoCoord],
) -> (r: Result<Rc<L>, String>)
    ensures
        match r {
            Ok(h) => target_handler(tree@, event_name@, coord_view(coord@)) == Ok::<Rc<L>, Seq<char>>(h),
            Err(m) => target_handler(tree@, event_name@, coord_view(coord@)) == Err::<Rc<L>, Seq<char>>(m@),
        },
    decreases size(tree@),
{
    let target_node = load_coord_target_tree(tree, coord)?;
    match target_node {
        RespoNode::Component(comp) => {
            let mut m = String::new();
            append_str(&mut m, "expected element, found target being a component: ");
            append_str(&mut m, comp.name.as_str());
            Err(m)
        },
        RespoNode::Element(e) => {
            let key: String = event_name.to_owned();
            match find_last_key(&e.event, &key) {
                Some(i) => {
                    proof {
                        assert(is_last_key_at(events_view(e.event@), event_name@, i as int));
                        lemma_last_wins_value(events_view(e.event@), event_name@, i as int);
                    }
                    Ok(share(&e.event[i].1))
                },
                None => {
                    proof {
                        lemma_last_wins_contains(events_view(e.event@), event_name@);
                    }
                    let mut m = String::new();
                    append_str(&mut m, "No event handler found for event '");
                    append_str(&mut m, event_name);
                    append_str(&mut m, "' on element '");
                    append_str(&mut m, e.name.as_str());
                    append_str(&mut m, "', available events: ");
                    let d = event_names_string(&e.event);
                    append_str(&mut m, d.as_str());
                    Err(m)
                },
            }
        },
        RespoNode::Referenced(cell) => {
            proof {
                lemma_target_size(tree@, coord_view(coord@));
            }
            request_for_target_handler(&*cell, event_name, coord)
        },
    }
}

/// check where need to trigger rerendering, also resets the status to false
pub fn drain_rerender_status(need_to_rerender: &mut bool) -> (r: bool)
    ensures
        r == *old(need_to_rerender),
        *final(need_to_rerender) == false,
{
    let ret = *need_to_rerender;
    if ret {
        *need_to_rerender = false;
    }
    ret
}

/// marks that the next pass of the render loop has to render again
pub fn mark_need_rerender(need_to_rerender: &mut bool)
    ensures
        *final(need_to_rerender) == true,
{
    let ret = *need_to_rerender;
    if !ret {
        *need_to_rerender = true;
    }
}

/// How an attribute of an element is written to the DOM.
pub enum PropertyWrite {
    /// inline styles are written apart from the attributes
    Skip,
    InnerText,
    InnerHtml,
    HtmlFor,
    TextareaValue,
    InputValue,
    /// a plain attribute
    Attribute,
}

/// A character with ASCII capitals made small.
pub open spec fn ascii_lower_char(c: char) -> char {
    if 'A' <= c && c <= 'Z' {
        ((c as u32) + 32) as char
    } else {
        c
    }
}

/// Two texts equal but for the case of ASCII letters.
pub open spec fn eq_ignore_ascii_case(a: Seq<char>, b: Seq<char>) -> bool {
    a.len() == b.len() && forall|i: int| 0 <= i < a.len() ==> ascii_lower_char(#[trigger] a[i]) == ascii_lower_char(b[i])
}

fn lower_char(c: char) -> (r: char)
    ensures
        r == ascii_lower_char(c),
{
    if 'A' <= c && c <= 'Z' {
        let n: u8 = (c as u8) + 32;
        n as char
    } else {
        c
    }
}

/// Whether two texts are equal but for the case of ASCII letters.
pub fn same_ignoring_ascii_case(a: &str, b: &str) -> (r: bool)
    ensures
        r == eq_ignore_ascii_case(a@, b@),
{
    let x = crate::style_sheet::chars_of(a);
    let y = crate::style_sheet::chars_of(b);
    if x.len() != y.len() {
        return false;
    }
    let mut i: usize = 0;
    while i < x.len()
        invariant
            i <= x@.len(),
            x@ == a@,
            y@ == b@,
            x@.len() == y@.len(),
            forall|j: int| 0 <= j < i ==> ascii_lower_char(#[trigger] a@[j]) == ascii_lower_char(b@[j]),
        decreases x@.len() - i,
    {
        if lower_char(x[i]) != lower_char(y[i]) {
            return false;
        }
        i = i + 1;
    }
    true
}

/// How the attribute `key` of an element of tag `tag` is written: `style` is skipped,
/// `innerText`, `innerHTML` and `htmlFor` are properties, `value` is the property of a
/// textarea or an input, whatever the case of the tag; anything else is an attribute.
pub open spec fn property_write_spec(key: Seq<char>, tag: Seq<char>) -> PropertyWrite {
    if key == "style"@ {
        PropertyWrite::Skip
    } else if key == "innerText"@ {
        PropertyWrite::InnerText
    } else if key == "innerHTML"@ {
        PropertyWrite::InnerHtml
    } else if key == "htmlFor"@ {
        PropertyWrite::HtmlFor
    } else if key == "value"@ && eq_ignore_ascii_case(tag, "textarea"@) {
        PropertyWrite::TextareaValue
    } else if key == "value"@ && eq_ignore_ascii_case(tag, "input"@) {
        PropertyWrite::InputValue
    } else {
        PropertyWrite::Attribute
    }
}

proof fn lemma_property_keys_distinct()
    ensures
        "style"@ != "innerText"@,
        "style"@ != "innerHTML"@,
        "style"@ != "htmlFor"@,
        "style"@ != "value"@,
        "innerText"@ != "innerHTML"@,
        "innerText"@ != "htmlFor"@,
        "innerText"@ != "value"@,
        "innerHTML"@ != "htmlFor"@,
        "innerHTML"@ != "value"@,
        "htmlFor"@ != "value"@,
        !eq_ignore_ascii_case("textarea"@, "input"@),
        forall|t: Seq<char>| eq_ignore_ascii_case(t, "textarea"@) ==> !eq_ignore_ascii_case(t, "input"@),
{
    reveal_strlit("style");
    reveal_strlit("innerText");
    reveal_strlit("innerHTML");
    reveal_strlit("htmlFor");
    reveal_strlit("value");
    reveal_strlit("textarea");
    reveal_strlit("input");
    assert("style"@.len() != "innerText"@.len());
    assert("style"@.len() != "innerHTML"@.len());
    assert("style"@.len() != "htmlFor"@.len());
    assert("style"@[0] != "value"@[0]);
    assert("innerText"@[5] != "innerHTML"@[5]);
    assert("innerText"@.len() != "htmlFor"@.len());
    assert("innerText"@.len() != "value"@.len());
    assert("innerHTML"@.len() != "htmlFor"@.len());
    assert("innerHTML"@.len() != "value"@.len());
    assert("htmlFor"@.len() != "value"@.len());
}

/// How the attribute `key` of an element of tag `tag` is written to the DOM.
pub fn property_write(key: &str, tag: &str) -> (r: PropertyWrite)
    ensures
        r == property_write_spec(key@, tag@),
        key@ == "style"@ ==> r is Skip,
        key@ == "innerText"@ ==> r is InnerText,
        key@ == "innerHTML"@ ==> r is InnerHtml,
        key@ == "htmlFor"@ ==> r is HtmlFor,
        key@ == "value"@ && eq_ignore_ascii_case(tag@, "textarea"@) ==> r is TextareaValue,
        key@ == "value"@ && eq_ignore_ascii_case(tag@, "input"@) ==> r is InputValue,
        key@ == "value"@ && !eq_ignore_ascii_case(tag@, "textarea"@) && !eq_ignore_ascii_case(tag@, "input"@)
            ==> r is Attribute,
        key@ != "style"@ && key@ != "innerText"@ && key@ != "innerHTML"@ && key@ != "htmlFor"@ && key@ != "value"@
            ==> r is Attribute,
{
    proof {
        lemma_property_keys_distinct();
    }
    let k = key.to_owned();
    if k == String::from_str("style") {
        PropertyWrite::Skip
    } else if k == String::from_str("innerText") {
        PropertyWrite::InnerText
    } else if k == String::from_str("innerHTML") {
        PropertyWrite::InnerHtml
    } else if k == String::from_str("htmlFor") {
        PropertyWrite::HtmlFor
    } else if k == String::from_str("value") && same_ignoring_ascii_case(tag, "textarea") {
        PropertyWrite::TextareaValue
    } else if k == String::from_str("value") && same_ignoring_ascii_case(tag, "input") {
        PropertyWrite::InputValue
    } else {
        PropertyWrite::Attribute
    }
}

/// How a removed attribute is cleared: `innerText` and `innerHTML` are emptied, anything
/// else is removed as an attribute.
pub enum PropertyRemoval {
    InnerText,
    InnerHtml,
    Attribute,
}

pub fn property_removal(key: &str) -> (r: PropertyRemoval)
    ensures
        key@ == "innerText"@ ==> r is InnerText,
        key@ == "innerHTML"@ ==> r is InnerHtml,
        key@ != "innerText"@ && key@ != "innerHTML"@ ==> r is Attribute,
{
    proof {
        reveal_strlit("innerText");
        reveal_strlit("innerHTML");
        assert("innerText"@[5] != "innerHTML"@[5]);
        assert("innerText"@ != "innerHTML"@);
    }
    let k = key.to_owned();
    if k == String::from_str("innerText") {
        PropertyRemoval::InnerText
    } else if k == String::from_str("innerHTML") {
        PropertyRemoval::InnerHtml
    } else {
        PropertyRemoval::Attribute
    }
}

/// Whether an element sets its content as text or HTML, which then conflicts with children.
pub fn sets_inner_content(attrs: &Vec<(String, String)>) -> (r: bool)
    ensures
        r == exists|i: int| 0 <= i < attrs@.len() && (attrs@[i].0@ == "innerText"@ || attrs@[i].0@ == "innerHTML"@),
{
    let mut i: usize = 0;
    while i < attrs.len()
        invariant
            i <= attrs@.len(),
            forall|j: int| 0 <= j < i ==> attrs@[j].0@ != "innerText"@ && attrs@[j].0@ != "innerHTML"@,
        decreases attrs@.len() - i,
    {
        let k = &attrs[i].0;
        if *k == String::from_str("innerText") || *k == String::from_str("innerHTML") {
            return true;
        }
        i = i + 1;
    }
    false
}

} // verus!
