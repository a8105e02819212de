use std::rc::Rc;

use respo::css::respo_style;
use respo::diff::{collect_effects_inside_out_as, collect_effects_outside_in_as, diff_tree, fst};
use respo::dom_change::{ChildDomOp, DomChange};
use respo::node::{div, span, RespoComponent, RespoCoord, RespoEffectType, RespoElement, RespoIndexKey, RespoNode};

type Node = RespoNode<String, u8>;
type Change = DomChange<String, u8>;

fn keyed(keys: &[&str]) -> RespoElement<String, u8> {
    let mut kids = Vec::new();
    for k in keys {
        kids.push((RespoIndexKey::new(k), span().attr("data-k", k).to_node()));
    }
    div().children_indexed(kids)
}

fn diff(new: &Node, old: &Node) -> Vec<Change> {
    let mut changes = Vec::new();
    assert!(diff_tree(new, old, &[], &[], &mut changes).is_ok());
    changes
}

fn sorted(mut v: Vec<String>) -> Vec<String> {
    v.sort();
    v
}

#[test]
fn same_tree_gives_no_change() {
    let t: Node = div().attr("id", "a").children(vec![span().inner_text("x").to_node()]).to_node();
    assert!(diff(&t, &t.clone_node()).is_empty());
}

#[test]
fn shared_subtree_is_skipped() {
    let inner: Node = div().attr("id", "a").to_node().rc();
    let again = match &inner {
        RespoNode::Referenced(r) => RespoNode::Referenced(r.clone()),
        _ => unreachable!(),
    };
    assert!(diff(&again, &inner).is_empty());
}

#[test]
fn changed_and_added_attributes_are_set() {
    let old: Node = div().attr("id", "a").attr("title", "t").to_node();
    let new: Node = div().attr("id", "b").attr("title", "t").attr("class", "x").to_node();
    let changes = diff(&new, &old);
    assert_eq!(changes.len(), 1);
    match &changes[0] {
        DomChange::ModifyAttrs { coord, dom_path, set, unset } => {
            assert!(coord.is_empty());
            assert!(dom_path.is_empty());
            assert_eq!(set, &vec![("id".to_owned(), "b".to_owned()), ("class".to_owned(), "x".to_owned())]);
            assert!(unset.is_empty());
        }
        _ => panic!("expected attribute change"),
    }
}

#[test]
fn removed_attributes_are_unset() {
    let old: Node = div().attr("id", "a").attr("title", "t").to_node();
    let new: Node = div().attr("id", "a").to_node();
    let changes = diff(&new, &old);
    assert_eq!(changes.len(), 1);
    match &changes[0] {
        DomChange::ModifyAttrs { set, unset, .. } => {
            assert!(set.is_empty());
            assert_eq!(unset, &vec!["title".to_owned()]);
        }
        _ => panic!("expected attribute change"),
    }
}

#[test]
fn style_changes_are_recorded() {
    let old: Node = div().style(respo_style().insert("color", "red".to_owned())).to_node();
    let new: Node = div().style(respo_style().insert("top", "0".to_owned())).to_node();
    let changes = diff(&new, &old);
    assert_eq!(changes.len(), 1);
    match &changes[0] {
        DomChange::ModifyStyle { set, unset, .. } => {
            assert_eq!(set, &vec![("top".to_owned(), "0".to_owned())]);
            assert_eq!(unset, &vec!["color".to_owned()]);
        }
        _ => panic!("expected style change"),
    }
}

#[test]
fn event_names_are_compared() {
    let h = Rc::new("handler".to_owned());
    let old: Node = div().on_click(h.clone()).to_node();
    let new: Node = div().on_input(h.clone()).on_click(h.clone()).to_node();
    let changes = diff(&new, &old);
    assert_eq!(changes.len(), 1);
    match &changes[0] {
        DomChange::ModifyEvent { add, remove, .. } => {
            assert_eq!(sorted(add.clone()), vec!["input".to_owned()]);
            assert!(remove.is_empty());
        }
        _ => panic!("expected event change"),
    }
    let same = div().on_click(Rc::new("other".to_owned())).to_node();
    assert!(diff(&same, &old).is_empty());
}

#[test]
fn other_tag_replaces_element() {
    let old: Node = div().to_node();
    let new: Node = span().to_node();
    let changes = diff(&new, &old);
    assert_eq!(changes.len(), 1);
    match &changes[0] {
        DomChange::ReplaceElement { node: RespoNode::Element(e), .. } => assert_eq!(e.name, "span"),
        _ => panic!("expected replacement"),
    }
}

#[test]
fn removed_child_by_lookahead() {
    let old: Node = keyed(&["a", "b", "c"]).to_node();
    let new: Node = keyed(&["a", "c"]).to_node();
    let changes = diff(&new, &old);
    assert_eq!(changes.len(), 1);
    match &changes[0] {
        DomChange::ModifyChildren { operations, dom_path, .. } => {
            assert!(dom_path.is_empty());
            assert_eq!(operations.len(), 1);
            assert!(matches!(operations[0], ChildDomOp::RemoveAt(1)));
        }
        _ => panic!("expected children change"),
    }
}

#[test]
fn inserted_child_by_lookahead() {
    let old: Node = keyed(&["a", "c"]).to_node();
    let new: Node = keyed(&["a", "b", "c"]).to_node();
    let changes = diff(&new, &old);
    assert_eq!(changes.len(), 1);
    match &changes[0] {
        DomChange::ModifyChildren { operations, .. } => {
            assert_eq!(operations.len(), 1);
            match &operations[0] {
                ChildDomOp::InsertAfter(0, k, _) => assert_eq!(k.to_key_string(), "b"),
                _ => panic!("expected insertion after the first child"),
            }
        }
        _ => panic!("expected children change"),
    }
}

#[test]
fn first_child_inserted_by_prepend_and_tail_appended() {
    let old: Node = keyed(&["b"]).to_node();
    let new: Node = keyed(&["a", "b", "c"]).to_node();
    let changes = diff(&new, &old);
    match &changes[0] {
        DomChange::ModifyChildren { operations, .. } => {
            assert_eq!(operations.len(), 2);
            assert!(matches!(&operations[0], ChildDomOp::Prepend(k, _) if k.to_key_string() == "a"));
            assert!(matches!(&operations[1], ChildDomOp::Append(k, _) if k.to_key_string() == "c"));
        }
        _ => panic!("expected children change"),
    }
}

#[test]
fn unrelated_keys_replace_in_place() {
    let old: Node = keyed(&["x"]).to_node();
    let new: Node = keyed(&["y"]).to_node();
    let changes = diff(&new, &old);
    match &changes[0] {
        DomChange::ModifyChildren { operations, .. } => {
            assert_eq!(operations.len(), 2);
            assert!(matches!(operations[0], ChildDomOp::RemoveAt(0)));
            assert!(matches!(&operations[1], ChildDomOp::Prepend(k, _) if k.to_key_string() == "y"));
        }
        _ => panic!("expected children change"),
    }
}

#[test]
fn matched_children_are_diffed_at_their_path() {
    let old: Node = div().children(vec![span().to_node(), span().attr("id", "1").to_node()]).to_node();
    let new: Node = div().children(vec![span().to_node(), span().attr("id", "2").to_node()]).to_node();
    let changes = diff(&new, &old);
    assert_eq!(changes.len(), 1);
    match &changes[0] {
        DomChange::ModifyAttrs { coord, dom_path, .. } => {
            assert_eq!(dom_path, &vec![1u32]);
            assert_eq!(coord.len(), 1);
            assert!(matches!(&coord[0], RespoCoord::Key(k) if k.to_key_string() == "1"));
            assert_eq!(changes[0].get_dom_path(), &vec![1u32]);
        }
        _ => panic!("expected attribute change"),
    }
}

#[test]
fn changed_effects_run_before_and_after_update() {
    let old: Node = RespoComponent::named("c", div()).effect(Rc::new(1u8)).effect(Rc::new(5u8)).to_node();
    let new: Node = RespoComponent::named("c", div()).effect(Rc::new(2u8)).effect(Rc::new(5u8)).to_node();
    let changes = diff(&new, &old);
    assert_eq!(changes.len(), 2);
    match (&changes[0], &changes[1]) {
        (
            DomChange::Effect { effect_type: RespoEffectType::BeforeUpdate, skip_indexes: a, .. },
            DomChange::Effect { effect_type: RespoEffectType::Updated, skip_indexes: b, .. },
        ) => {
            assert_eq!(a, &vec![1u32]);
            assert_eq!(b, &vec![1u32]);
        }
        _ => panic!("expected effect changes"),
    }
    let same: Node = RespoComponent::named("c", div()).effect(Rc::new(1u8)).effect(Rc::new(5u8)).to_node();
    assert!(diff(&same, &old).is_empty());
}

#[test]
fn renamed_component_is_replaced_with_effects() {
    let old: Node = RespoComponent::named("a", div()).effect(Rc::new(1u8)).to_node();
    let new: Node = RespoComponent::named("b", span()).effect(Rc::new(1u8)).to_node();
    let changes = diff(&new, &old);
    assert_eq!(changes.len(), 3);
    assert!(matches!(changes[0], DomChange::Effect { effect_type: RespoEffectType::BeforeUnmount, .. }));
    match &changes[1] {
        DomChange::ReplaceElement { node: RespoNode::Element(e), .. } => assert_eq!(e.name, "span"),
        _ => panic!("expected replacement by the inner tree"),
    }
    assert!(matches!(changes[2], DomChange::Effect { effect_type: RespoEffectType::Mounted, .. }));
}

#[test]
fn effects_collected_in_both_orders() {
    let inner = RespoComponent::named("inner", div()).effect(Rc::new(1u8)).to_node();
    let tree: Node = RespoComponent::named("outer", div().children(vec![inner])).effect(Rc::new(2u8)).to_node();
    let mut outside_in = Vec::new();
    assert!(collect_effects_outside_in_as(&tree, &[], &[], RespoEffectType::Mounted, &mut outside_in).is_ok());
    let mut inside_out = Vec::new();
    assert!(collect_effects_inside_out_as(&tree, &[], &[], RespoEffectType::BeforeUnmount, &mut inside_out).is_ok());
    let paths = |cs: &Vec<Change>| -> Vec<Vec<u32>> { cs.iter().map(|c| c.get_dom_path().clone()).collect() };
    assert_eq!(paths(&outside_in), vec![vec![], vec![0u32]]);
    assert_eq!(paths(&inside_out), vec![vec![0u32], vec![]]);
}

#[test]
fn fst_picks_first() {
    let p = (3, "x");
    assert_eq!(*fst(&p), 3);
}

#[test]
fn same_keys_only_diff_children_in_place() {
    let mut old_kids = Vec::new();
    let mut new_kids = Vec::new();
    for (k, v) in [("a", "1"), ("b", "2"), ("c", "3")] {
        old_kids.push((RespoIndexKey::new(k), span().attr("data-v", v).to_node()));
        let nv = if k == "b" { "20" } else { v };
        new_kids.push((RespoIndexKey::new(k), span().attr("data-v", nv).to_node()));
    }
    let old: Node = div().children_indexed(old_kids).to_node();
    let new: Node = div().children_indexed(new_kids).to_node();
    let changes = diff(&new, &old);
    assert_eq!(changes.len(), 1);
    match &changes[0] {
        DomChange::ModifyAttrs { dom_path, set, .. } => {
            assert_eq!(dom_path, &vec![1u32]);
            assert_eq!(set.len(), 1);
            assert_eq!(set[0].1, "20");
        }
        _ => panic!("expected attribute change of the second child"),
    }
    assert!(!changes.iter().any(|c| matches!(c, DomChange::ModifyChildren { .. })));
}
