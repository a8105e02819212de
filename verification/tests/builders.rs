use std::rc::Rc;

use respo::css::respo_style;
use respo::node::{
    a, blockquote, br, button, canvas, code, div, footer, h1, h2, h3, h4, header, img, input, label, li, link, pre, section,
    span, textarea, ul, video, RespoComponent, RespoElement, RespoIndexKey, RespoNode,
};

type El = RespoElement<String, u8>;

fn attr_of(e: &El, k: &str) -> Option<String> {
    e.attributes.iter().rev().find(|(key, _)| key == k).map(|(_, v)| v.clone())
}

#[test]
fn tags_have_their_names() {
    let names: Vec<String> = vec![
        div::<String, u8>().name,
        header::<String, u8>().name,
        section::<String, u8>().name,
        footer::<String, u8>().name,
        br::<String, u8>().name,
        span::<String, u8>().name,
        input::<String, u8>().name,
        textarea::<String, u8>().name,
        link::<String, u8>().name,
        button::<String, u8>().name,
        pre::<String, u8>().name,
        img::<String, u8>().name,
        video::<String, u8>().name,
        code::<String, u8>().name,
        a::<String, u8>().name,
        h1::<String, u8>().name,
        h2::<String, u8>().name,
        h3::<String, u8>().name,
        h4::<String, u8>().name,
        blockquote::<String, u8>().name,
        ul::<String, u8>().name,
        li::<String, u8>().name,
        label::<String, u8>().name,
        canvas::<String, u8>().name,
    ];
    assert_eq!(
        names,
        vec![
            "div", "header", "section", "footer", "br", "span", "input", "textarea", "link", "button", "pre", "img", "video",
            "code", "a", "h1", "h2", "h3", "h4", "blockquote", "ul", "li", "label", "canvas"
        ]
    );
}

#[test]
fn attributes_later_wins() {
    let e: El = div().attr("id", "a").attr("id", "b").maybe_attr("title", Some("t")).maybe_attr("x", None);
    assert_eq!(attr_of(&e, "id"), Some("b".to_owned()));
    assert_eq!(attr_of(&e, "title"), Some("t".to_owned()));
    assert_eq!(attr_of(&e, "x"), None);
    let e = e.attrs(&[("id", "c"), ("role", "r")]);
    assert_eq!(attr_of(&e, "id"), Some("c".to_owned()));
    assert_eq!(attr_of(&e, "role"), Some("r".to_owned()));
}

#[test]
fn classes_and_texts() {
    let e: El = div().class_list(&["a", "b", "c"]);
    assert_eq!(attr_of(&e, "class"), Some("a b c".to_owned()));
    let e: El = div().class("x").toggle_class("y", true);
    assert_eq!(attr_of(&e, "class"), Some("y".to_owned()));
    let e: El = div().class("x").toggle_class("y", false);
    assert_eq!(attr_of(&e, "class"), Some("x".to_owned()));
    let e: El = div().maybe_class(None);
    assert_eq!(attr_of(&e, "class"), None);
    let e: El = span().inner_text("hi").inner_html("<b>").value("v");
    assert_eq!(attr_of(&e, "innerText"), Some("hi".to_owned()));
    assert_eq!(attr_of(&e, "innerHTML"), Some("<b>".to_owned()));
    assert_eq!(attr_of(&e, "value"), Some("v".to_owned()));
}

#[test]
fn listeners_replace_by_name() {
    let e: El = button().on_click(Rc::new("first".to_owned())).on_click(Rc::new("second".to_owned()));
    assert_eq!(e.event.len(), 1);
    assert_eq!(e.event[0].0, "click");
    assert_eq!(e.event[0].1.as_str(), "second");
    let e = e.on_input(Rc::new("i".to_owned())).on_keydown(Rc::new("k".to_owned())).on_focus(Rc::new("f".to_owned()));
    let e = e.on_change(Rc::new("c".to_owned())).on_named_event("blur", Rc::new("b".to_owned()));
    let names: Vec<&str> = e.event.iter().map(|(k, _)| k.as_str()).collect();
    assert_eq!(names, vec!["click", "input", "keydown", "focus", "change", "blur"]);
}

#[test]
fn children_are_keyed_by_position() {
    let e: El = div()
        .children(vec![span().to_node(), span().to_node()])
        .elements(vec![div(), div()])
        .children_indexed(vec![(RespoIndexKey::new("z"), br().to_node())]);
    let keys: Vec<String> = e.children.iter().map(|(k, _)| k.to_key_string()).collect();
    assert_eq!(keys, vec!["0", "1", "0", "1", "z"]);
    assert_eq!(RespoIndexKey::from_index(42).to_key_string(), "42");
}

#[test]
fn styles_append() {
    let e: El = div().style(respo_style().insert("top", "0".to_owned())).style(respo_style().insert("left", "1".to_owned()));
    assert_eq!(e.style.to_css_string(), "top: 0;\nleft: 1;\n");
}

#[test]
fn components_and_nodes() {
    let c: RespoComponent<String, u8> = RespoComponent::named("c", div()).effect(Rc::new(1)).stable_effect(Rc::new(2)).effects(vec![Rc::new(3)]);
    let effects: Vec<u8> = c.effects.iter().map(|e| **e).collect();
    assert_eq!(effects, vec![1, 2, 3]);
    match RespoNode::<String, u8>::new_component("x", RespoNode::new_tag("p")) {
        RespoNode::Component(c) => {
            assert_eq!(c.name, "x");
            assert!(matches!(*c.tree, RespoNode::Element(ref e) if e.name == "p"));
        }
        _ => panic!("expected a component"),
    }
    let shared = RespoNode::<String, u8>::new_tag("q").rc();
    assert!(matches!(shared, RespoNode::Referenced(_)));
}
