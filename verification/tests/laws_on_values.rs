use std::collections::HashMap;
use std::rc::Rc;

use respo::diff::{collect_effects_inside_out_as, collect_effects_outside_in_as, diff_tree};
use respo::dom_change::{ChildDomOp, DomChange};
use respo::node::{div, span, RespoComponent, RespoEffectType, RespoElement, RespoIndexKey, RespoNode};
use respo::renderer::load_coord_target_tree;

type Node = RespoNode<String, u8>;
type Change = DomChange<String, u8>;

fn keyed(keys: &[&str]) -> RespoElement<String, u8> {
    let mut kids = Vec::new();
    for k in keys {
        kids.push((RespoIndexKey::new(k), span().to_node()));
    }
    div().children_indexed(kids)
}

fn apply_ops(keys: &mut Vec<String>, ops: &[ChildDomOp<String, u8>]) {
    for op in ops {
        match op {
            ChildDomOp::InsertAfter(i, k, _) => keys.insert(*i as usize + 1, k.to_key_string()),
            ChildDomOp::RemoveAt(i) => {
                keys.remove(*i as usize);
            }
            ChildDomOp::Append(k, _) => keys.push(k.to_key_string()),
            ChildDomOp::Prepend(k, _) => keys.insert(0, k.to_key_string()),
            ChildDomOp::NestedEffect { .. } => {}
        }
    }
}

fn check_keys(old: &[&str], new: &[&str]) {
    let old_node: Node = keyed(old).to_node();
    let new_node: Node = keyed(new).to_node();
    let mut changes: Vec<Change> = Vec::new();
    assert!(diff_tree(&new_node, &old_node, &[], &[], &mut changes).is_ok());
    let mut keys: Vec<String> = old.iter().map(|k| k.to_string()).collect();
    for c in &changes {
        if let DomChange::ModifyChildren { operations, dom_path, .. } = c {
            assert!(dom_path.is_empty());
            apply_ops(&mut keys, operations);
        }
    }
    let expected: Vec<String> = new.iter().map(|k| k.to_string()).collect();
    assert_eq!(keys, expected, "from {:?} to {:?}", old, new);
}

#[test]
fn child_operations_turn_old_keys_into_new_keys() {
    check_keys(&["a", "b", "c"], &["a", "c"]);
    check_keys(&["a", "c"], &["a", "b", "c"]);
    check_keys(&[], &["a", "b"]);
    check_keys(&["a", "b"], &[]);
    check_keys(&["a", "b", "c", "d", "e"], &["e", "d", "c", "b", "a"]);
    check_keys(&["x", "y"], &["y", "z", "x", "w"]);
    check_keys(&["a", "b", "c", "d", "e", "f"], &["f", "a", "q", "c", "r"]);
    check_keys(&["a", "a", "b"], &["b", "a"]);
}

fn attr_map(e: &[(&str, &str)]) -> HashMap<String, String> {
    e.iter().map(|(k, v)| (k.to_string(), v.to_string())).collect()
}

#[test]
fn attribute_changes_turn_old_map_into_new_map() {
    let old = [("id", "a"), ("title", "t"), ("x", "1")];
    let new = [("id", "b"), ("x", "1"), ("class", "c")];
    let mut old_el: RespoElement<String, u8> = div();
    for (k, v) in old {
        old_el = old_el.attr(k, v);
    }
    let mut new_el: RespoElement<String, u8> = div();
    for (k, v) in new {
        new_el = new_el.attr(k, v);
    }
    let mut changes: Vec<Change> = Vec::new();
    assert!(diff_tree(&new_el.to_node(), &old_el.to_node(), &[], &[], &mut changes).is_ok());
    let mut map = attr_map(&old);
    for c in &changes {
        if let DomChange::ModifyAttrs { set, unset, .. } = c {
            for k in unset {
                map.remove(k);
            }
            for (k, v) in set {
                map.insert(k.clone(), v.clone());
            }
        }
    }
    assert_eq!(map, attr_map(&new));
}

#[test]
fn both_effect_orders_visit_the_same_places() {
    let leaf = |n: &str| RespoComponent::named(n, div()).effect(Rc::new(1u8)).to_node();
    let mid = RespoComponent::named("mid", div().children(vec![leaf("a"), leaf("b")])).effect(Rc::new(2u8)).to_node();
    let tree: Node = div().children(vec![mid, leaf("c")]).to_node();
    let mut a: Vec<Change> = Vec::new();
    let mut b: Vec<Change> = Vec::new();
    assert!(collect_effects_outside_in_as(&tree, &[], &[], RespoEffectType::Mounted, &mut a).is_ok());
    assert!(collect_effects_inside_out_as(&tree, &[], &[], RespoEffectType::Mounted, &mut b).is_ok());
    let mut pa: Vec<Vec<u32>> = a.iter().map(|c| c.get_dom_path().clone()).collect();
    let mut pb: Vec<Vec<u32>> = b.iter().map(|c| c.get_dom_path().clone()).collect();
    assert_eq!(pa, vec![vec![0], vec![0, 0], vec![0, 1], vec![1]]);
    assert_eq!(pb, vec![vec![0, 0], vec![0, 1], vec![0], vec![1]]);
    pa.sort();
    pb.sort();
    assert_eq!(pa, pb);
}

#[test]
fn collected_effects_lead_back_to_their_components() {
    let leaf = |n: &str| RespoComponent::named(n, div()).effect(Rc::new(1u8)).to_node();
    let mid = RespoComponent::named("mid", div().children(vec![leaf("a"), leaf("b").rc()])).effect(Rc::new(2u8)).to_node();
    let tree: Node = div().children(vec![mid, leaf("c")]).to_node();
    let mut found: Vec<Change> = Vec::new();
    assert!(collect_effects_outside_in_as(&tree, &[], &[], RespoEffectType::Mounted, &mut found).is_ok());
    assert_eq!(found.len(), 4);
    for c in &found {
        match c {
            DomChange::Effect { coord, .. } => match load_coord_target_tree(&tree, coord) {
                Ok(RespoNode::Component(comp)) => assert!(!comp.effects.is_empty()),
                _ => panic!("expected a component with effects"),
            },
            _ => panic!("expected effects"),
        }
    }
}
