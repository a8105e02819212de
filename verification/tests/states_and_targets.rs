use std::rc::Rc;

use respo::node::{div, span, RespoComponent, RespoCoord, RespoIndexKey, RespoNode};
use respo::renderer::{drain_rerender_status, load_coord_target_tree, mark_need_rerender, request_for_target_handler};
use respo::states_tree::{RespoStateBranch, RespoStatesTree, RespoUpdateState};

type Node = RespoNode<String, u8>;

fn path(xs: &[&str]) -> Vec<String> {
    xs.iter().map(|x| x.to_string()).collect()
}

fn set(tree: &mut RespoStatesTree<u32>, at: &[&str], v: u32) {
    tree.set_in_mut(RespoUpdateState {
        cursor: path(at),
        data: Some(RespoStateBranch::new(Rc::new(v))),
        backup: Some(serde_json::Value::from(v)),
    });
}

fn data_at(tree: &RespoStatesTree<u32>, at: &[&str]) -> Option<u32> {
    let mut t = tree.copy_tree();
    for name in at {
        t = t.pick(name);
    }
    t.data.map(|d| *d.0)
}

#[test]
fn empty_tree_has_no_state() {
    let t: RespoStatesTree<u32> = RespoStatesTree::new();
    assert!(t.path().is_empty());
    assert_eq!(data_at(&t, &["a"]), None);
    assert!(t.pick("a").branches.is_empty());
}

#[test]
fn pick_extends_cursor() {
    let t: RespoStatesTree<u32> = RespoStatesTree::new();
    let a = t.pick("a");
    let b = a.pick("b");
    assert_eq!(b.path(), path(&["a", "b"]));
}

#[test]
fn set_then_read_back() {
    let mut t: RespoStatesTree<u32> = RespoStatesTree::new();
    set(&mut t, &["a", "b"], 3);
    assert_eq!(data_at(&t, &["a", "b"]), Some(3));
    assert_eq!(data_at(&t, &["a"]), None);
    set(&mut t, &["a"], 1);
    assert_eq!(data_at(&t, &["a"]), Some(1));
    assert_eq!(data_at(&t, &["a", "b"]), Some(3));
    set(&mut t, &["a", "b"], 4);
    assert_eq!(data_at(&t, &["a", "b"]), Some(4));
    assert_eq!(data_at(&t, &["a"]), Some(1));
    set(&mut t, &[], 9);
    assert_eq!(data_at(&t, &[]), Some(9));
    let picked = t.pick("a").pick("b");
    assert_eq!(picked.backup, Some(serde_json::Value::from(4u32)));
    assert_eq!(picked.path(), path(&["a", "b"]));
}

#[test]
fn created_branches_carry_their_cursor() {
    let mut t: RespoStatesTree<u32> = RespoStatesTree::new();
    set(&mut t, &["x", "y"], 2);
    assert_eq!(t.branches.len(), 1);
    assert_eq!(t.branches[0].0, "x");
    assert_eq!(t.branches[0].1.cursor, path(&["x"]));
    assert_eq!(t.branches[0].1.branches[0].1.cursor, path(&["x", "y"]));
}

fn sample() -> Node {
    let h = Rc::new("clicked".to_owned());
    let button = span().on_click(h).to_node();
    let inner = RespoComponent::named("panel", div().children_indexed(vec![(RespoIndexKey::new("btn"), button)]));
    div().children_indexed(vec![(RespoIndexKey::new("p"), inner.to_node().rc())]).to_node()
}

fn key(k: &str) -> RespoCoord {
    RespoCoord::Key(RespoIndexKey::new(k))
}

#[test]
fn target_found_through_keys_and_components() {
    let tree = sample();
    let coord = vec![key("p"), RespoCoord::Comp("panel".to_owned()), key("btn")];
    match load_coord_target_tree(&tree, &coord) {
        Ok(RespoNode::Element(e)) => assert_eq!(e.name, "span"),
        _ => panic!("expected the span"),
    }
    let h = request_for_target_handler(&tree, "click", &coord).unwrap();
    assert_eq!(h.as_str(), "clicked");
}

#[test]
fn target_errors_tell_why() {
    let tree = sample();
    let wrong_name = vec![key("p"), RespoCoord::Comp("other".to_owned())];
    assert_eq!(
        load_coord_target_tree(&tree, &wrong_name).err().unwrap(),
        "Mismatch in expected component name: expected other, found panel"
    );
    let missing = vec![key("q")];
    assert_eq!(
        load_coord_target_tree(&tree, &missing).err().unwrap(),
        "no child at index key RespoIndexKey(\"q\")"
    );
    let key_at_component = vec![key("p"), key("btn")];
    assert_eq!(
        load_coord_target_tree(&tree, &key_at_component).err().unwrap(),
        "Type mismatch: expected a DOM element, but found a component"
    );
    let comp_at_element = vec![RespoCoord::Comp("x".to_owned())];
    assert_eq!(
        load_coord_target_tree(&tree, &comp_at_element).err().unwrap(),
        "expected component at [Comp(\"x\")], found target being an element"
    );
    let coord = vec![key("p"), RespoCoord::Comp("panel".to_owned()), key("btn")];
    assert_eq!(
        request_for_target_handler(&tree, "input", &coord).err().unwrap(),
        "No event handler found for event 'input' on element 'span', available events: [\"click\"]"
    );
    let comp = vec![key("p")];
    assert_eq!(
        request_for_target_handler(&tree, "click", &comp).err().unwrap(),
        "expected element, found target being a component: panel"
    );
}

#[test]
fn rerender_flag_drains_once() {
    let mut flag = false;
    assert!(!drain_rerender_status(&mut flag));
    mark_need_rerender(&mut flag);
    mark_need_rerender(&mut flag);
    assert!(drain_rerender_status(&mut flag));
    assert!(!drain_rerender_status(&mut flag));
}

#[test]
fn set_keeps_other_branches_in_place() {
    let mut t: RespoStatesTree<u32> = RespoStatesTree::new();
    set(&mut t, &["x", "y"], 5);
    set(&mut t, &["a", "b"], 3);
    assert_eq!(t.branches.len(), 2);
    assert_eq!(t.branches[0].0, "x");
    assert_eq!(t.branches[1].0, "a");
    set(&mut t, &["a", "b"], 4);
    assert_eq!(t.branches.len(), 2);
    assert_eq!(t.branches[0].0, "x");
    let x = &t.branches[0].1;
    assert_eq!(x.cursor, path(&["x"]));
    assert_eq!(x.branches.len(), 1);
    assert_eq!(x.branches[0].1.data.as_ref().map(|d| *d.0), Some(5));
    let ab = t.pick("a").pick("b");
    assert_eq!(ab.path(), path(&["a", "b"]));
    assert_eq!(ab.data.map(|d| *d.0), Some(4));
}
