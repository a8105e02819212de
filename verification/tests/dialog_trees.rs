use std::rc::Rc;

use respo::css::respo_style;
use respo::dialog::{
    next_task_missing, plugin_confirm_steps, plugin_dismiss_steps, plugin_show_steps, plugin_submit_steps, AlertOptions,
    ConfirmOptions, DialogStep, InputState, ModalOptions, ModalRenderer, PromptOptions,
};
use respo::dialog_view::{alert_modal_tree, confirm_modal_tree, modal_tree, prompt_modal_tree, DialogClasses, DialogListeners};
use respo::node::{span, RespoElement, RespoNode};
use respo::renderer::{property_removal, property_write, same_ignoring_ascii_case, sets_inner_content, PropertyRemoval, PropertyWrite};

type Node = RespoNode<String, u8>;

fn classes() -> DialogClasses {
    DialogClasses {
        backdrop: "backdrop".to_owned(),
        card: "card".to_owned(),
        drawer_card: "drawer-card".to_owned(),
        column: "column".to_owned(),
        center: "center".to_owned(),
        row_parted: "row".to_owned(),
        button: "button".to_owned(),
        input: "input".to_owned(),
        error: "error".to_owned(),
    }
}

fn listeners() -> DialogListeners<String> {
    DialogListeners {
        on_backdrop: Rc::new("backdrop".to_owned()),
        stop_click: Rc::new("stop".to_owned()),
        on_press: Rc::new("press".to_owned()),
        on_esc: Rc::new("esc".to_owned()),
    }
}

fn attr<'a>(e: &'a RespoElement<String, u8>, k: &str) -> Option<&'a str> {
    e.attributes.iter().rev().find(|(key, _)| key == k).map(|(_, v)| v.as_str())
}

fn element(n: &Node) -> &RespoElement<String, u8> {
    match n {
        RespoNode::Element(e) => e,
        _ => panic!("expected an element"),
    }
}

/// The card's first child: the div holding the body.
fn body(tree: &Node) -> &RespoElement<String, u8> {
    let comp = match tree {
        RespoNode::Component(c) => c,
        _ => panic!("expected a component"),
    };
    let outer = element(&comp.tree);
    let backdrop = element(&outer.children[0].1);
    assert_eq!(attr(backdrop, "class"), Some("backdrop"));
    let card = element(&backdrop.children[0].1);
    assert_eq!(attr(card, "class"), Some("card"));
    element(&card.children[0].1)
}

#[test]
fn alert_tree_defaults() {
    let tree: Node = alert_modal_tree(&AlertOptions::new(), true, &classes(), &listeners(), Rc::new(1), Rc::new(2));
    match &tree {
        RespoNode::Component(c) => {
            assert_eq!(c.name, "alert-modal");
            assert_eq!(c.effects.len(), 2);
        }
        _ => panic!("expected a component"),
    }
    let b = body(&tree);
    assert_eq!(attr(element(&b.children[0].1), "innerText"), Some("Alert!"));
    let row = element(&b.children[2].1);
    let button = element(&row.children[1].1);
    assert_eq!(attr(button, "innerText"), Some("Read"));
    assert_eq!(button.event[0].0, "click");
    assert_eq!(*button.event[0].1, "press");
}

#[test]
fn hidden_dialog_is_a_placeholder() {
    let mut options = ConfirmOptions::new();
    options.text = Some("sure?".to_owned());
    let tree: Node = confirm_modal_tree(&options, false, &classes(), &listeners(), Rc::new(1), Rc::new(2));
    let comp = match &tree {
        RespoNode::Component(c) => c,
        _ => panic!("expected a component"),
    };
    assert_eq!(comp.name, "confirm-modal");
    let outer = element(&comp.tree);
    let placeholder = element(&outer.children[0].1);
    assert_eq!(placeholder.name, "span");
    assert_eq!(attr(placeholder, "data-name"), Some("placeholder"));
    let shown: Node = confirm_modal_tree(&options, true, &classes(), &listeners(), Rc::new(1), Rc::new(2));
    assert_eq!(attr(element(&body(&shown).children[0].1), "innerText"), Some("sure?"));
}

#[test]
fn prompt_tree_shows_draft_and_error() {
    let options: PromptOptions<dyn Fn(&str) -> Result<(), String>> = PromptOptions::new();
    let input = InputState { draft: "abc".to_owned(), error: Some("too short".to_owned()) };
    let tree: Node = prompt_modal_tree(&options, &input, true, &classes(), &listeners(), Rc::new("typed".to_owned()), Rc::new(3));
    let b = body(&tree);
    assert_eq!(attr(element(&b.children[0].1), "innerText"), Some("input message"));
    let field = element(&element(&b.children[2].1).children[0].1);
    assert_eq!(field.name, "input");
    assert_eq!(attr(field, "value"), Some("abc"));
    let err = element(&b.children[3].1);
    assert_eq!(err.name, "div");
    assert_eq!(attr(err, "innerText"), Some("too short"));
    let button = element(&element(&b.children[5].1).children[1].1);
    assert_eq!(attr(button, "innerText"), Some("Submit"));
}

#[test]
fn modal_tree_has_title_and_body() {
    let options = ModalOptions { backdrop_style: respo_style(), card_style: respo_style(), title: None, render: ModalRenderer::new(|| ()) };
    let tree: Node = modal_tree(&options, true, &classes(), span().inner_text("hello").to_node(), Rc::new("b".to_owned()), Rc::new("s".to_owned()), Rc::new("e".to_owned()), Rc::new(4));
    let b = body(&tree);
    assert_eq!(attr(b, "class"), Some("column"));
    let head = element(&b.children[0].1);
    assert_eq!(attr(element(&head.children[0].1), "innerText"), Some("Modal"));
    assert_eq!(attr(element(&b.children[2].1), "innerText"), Some("hello"));
}

#[test]
fn plugin_steps_with_next_task() {
    let show = plugin_show_steps();
    assert!(matches!(show[0], DialogStep::StoreNextTask) && matches!(show[1], DialogStep::Show));
    let c = plugin_confirm_steps();
    assert!(matches!(c[0], DialogStep::Answer));
    assert!(matches!(c[1], DialogStep::RunNextTask(None)));
    assert!(matches!(c[2], DialogStep::Close) && matches!(c[3], DialogStep::ClearNextTask));
    let p = plugin_submit_steps("x".to_owned());
    match (&p[0], &p[1]) {
        (DialogStep::Submit(a), DialogStep::RunNextTask(Some(b))) => {
            assert_eq!(a, "x");
            assert_eq!(b, "x");
        }
        _ => panic!("expected submit then the next task"),
    }
    let d = plugin_dismiss_steps();
    assert!(matches!(d[0], DialogStep::Close) && matches!(d[1], DialogStep::ClearNextTask));
    assert_eq!(next_task_missing(), "_NEXT_TASK is not a function");
}

#[test]
fn property_dispatch() {
    assert!(matches!(property_write("style", "DIV"), PropertyWrite::Skip));
    assert!(matches!(property_write("innerText", "DIV"), PropertyWrite::InnerText));
    assert!(matches!(property_write("value", "TEXTAREA"), PropertyWrite::TextareaValue));
    assert!(matches!(property_write("value", "input"), PropertyWrite::InputValue));
    assert!(matches!(property_write("value", "select"), PropertyWrite::Attribute));
    assert!(matches!(property_write("htmlFor", "LABEL"), PropertyWrite::HtmlFor));
    assert!(matches!(property_removal("innerHTML"), PropertyRemoval::InnerHtml));
    assert!(matches!(property_removal("title"), PropertyRemoval::Attribute));
    assert!(same_ignoring_ascii_case("TextArea", "textarea"));
    assert!(!same_ignoring_ascii_case("input", "inputs"));
    assert!(sets_inner_content(&vec![("id".to_owned(), "a".to_owned()), ("innerHTML".to_owned(), "<b/>".to_owned())]));
    assert!(!sets_inner_content(&vec![("id".to_owned(), "a".to_owned())]));
}
