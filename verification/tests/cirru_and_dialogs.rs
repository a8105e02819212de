use std::rc::Rc;

use respo::cirru::{changes_to_cirru, coord_path_to_cirru, dom_path_to_cirru, effect_type_to_cirru, node_to_cirru, CirruNode};
use respo::dialog::{DrawerOptions, DrawerPlugin, DrawerRenderer, ModalOptions, ModalPlugin, ModalRenderer, answer_steps, prompt_dismiss_steps, prompt_submit_steps, DialogStep, prompt_outcome, AlertOptions, AlertPlugin, ConfirmOptions, ConfirmPlugin, DialogState, InputState, PromptOptions, PromptOutcome, PromptPlugin, PromptValidator};
use respo::dispatch::DispatchFn;
use respo::dom_change::{ChildDomOp, DomChange};
use respo::node::{div, span, RespoComponent, RespoCoord, RespoEffectType, RespoIndexKey, RespoNode};

fn show(c: &CirruNode) -> String {
    match c {
        CirruNode::Leaf(s) => s.clone(),
        CirruNode::List(xs) => format!("({})", xs.iter().map(show).collect::<Vec<_>>().join(" ")),
    }
}

#[test]
fn trees_as_cirru() {
    let tree: RespoNode<String, u8> =
        RespoComponent::named("app", div().children(vec![span().to_node()])).to_node();
    assert_eq!(show(&node_to_cirru(&tree)), "(::Component app (div (0 (span))))");
    assert_eq!(show(&effect_type_to_cirru(RespoEffectType::BeforeUnmount)), "::before-unmount");
    let coord = vec![RespoCoord::Key(RespoIndexKey::new("k")), RespoCoord::Comp("c".to_owned())];
    assert_eq!(show(&coord_path_to_cirru(&coord)), "(::coord k (::Comp c))");
    assert_eq!(show(&dom_path_to_cirru(&[3, 10])), "(::dom-path 3 10)");
}

#[test]
fn changes_as_cirru() {
    let changes: Vec<DomChange<String, u8>> = vec![
        DomChange::ModifyAttrs {
            coord: vec![],
            dom_path: vec![1],
            set: vec![("id".to_owned(), "a".to_owned())],
            unset: vec!["title".to_owned()],
        },
        DomChange::ModifyChildren {
            coord: vec![],
            dom_path: vec![],
            operations: vec![ChildDomOp::RemoveAt(2), ChildDomOp::Append(RespoIndexKey::new("z"), span().to_node())],
        },
        DomChange::Effect {
            coord: vec![],
            dom_path: vec![0],
            effect_type: RespoEffectType::Updated,
            skip_indexes: vec![1],
        },
    ];
    assert_eq!(
        show(&changes_to_cirru(&changes)),
        "(::changes (::modify-attrs (::coord) (::dom-path 1) ((id a)) (title)) (::modify-children (::coord) (::dom-path) (::operations (::remove-at 2) (::append z (span)))) (::effect ::updated (::coord) (::dom-path 0) (1)))"
    );
}

#[test]
fn alert_plugin_states() {
    let mut options = AlertOptions::new();
    options.text = Some("default".to_owned());
    let plugin = AlertPlugin::new(vec!["alert".to_owned()], DialogState::hidden(), options, 0u8);
    assert_eq!(plugin.display_text(), Some("default".to_owned()));
    let shown = plugin.show_state(Some("hello".to_owned()));
    assert!(shown.show);
    assert_eq!(shown.text, Some("hello".to_owned()));
    let closed = plugin.close_state();
    assert!(!closed.show);
    assert_eq!(closed.text, None);
    let plugin2 = AlertPlugin::new(vec![], shown, AlertOptions::new(), 0u8);
    assert_eq!(plugin2.display_text(), Some("hello".to_owned()));
    let read = plugin2.state.dismissed();
    assert!(!read.show);
    assert_eq!(read.text, Some("hello".to_owned()));
}

#[test]
fn confirm_and_prompt_keep_their_text_when_shown() {
    let st = DialogState { show: false, text: Some("sure?".to_owned()) };
    let confirm = ConfirmPlugin::new(vec![], st, ConfirmOptions::new(), ());
    let shown = confirm.show_state();
    assert!(shown.show);
    assert_eq!(shown.text, Some("sure?".to_owned()));
    assert_eq!(confirm.close_state().text, None);
    let prompt: PromptPlugin<fn(&str) -> Result<(), String>, ()> =
        PromptPlugin::new(vec![], DialogState::hidden(), PromptOptions::new(), ());
    assert!(prompt.show_state().show);
    assert!(!prompt.close_state().show);
}

#[test]
fn prompt_submission_outcomes() {
    match prompt_outcome("abc", None) {
        PromptOutcome::Submit(t) => assert_eq!(t, "abc"),
        PromptOutcome::Reject(_) => panic!("no validator means submit"),
    }
    match prompt_outcome("abc", Some(Ok(()))) {
        PromptOutcome::Submit(t) => assert_eq!(t, "abc"),
        PromptOutcome::Reject(_) => panic!("valid input means submit"),
    }
    match prompt_outcome("abc", Some(Err("too short".to_owned()))) {
        PromptOutcome::Reject(st) => {
            assert_eq!(st.draft, "abc");
            assert_eq!(st.error, Some("too short".to_owned()));
        }
        PromptOutcome::Submit(_) => panic!("invalid input is rejected"),
    }
    let found = InputState { draft: "old".to_owned(), error: Some("e".to_owned()) };
    let st = InputState::starting(found, &Some("init".to_owned()));
    assert_eq!(st.draft, "init");
    assert_eq!(st.error, None);
    let found = InputState { draft: "old".to_owned(), error: None };
    assert_eq!(InputState::starting(found, &None).draft, "old");
}

#[test]
fn validator_and_dispatch_call_their_functions() {
    let v = PromptValidator::new(|s: &str| if s.len() > 2 { Ok(()) } else { Err("short".to_owned()) });
    assert!(v.run("abcd").is_ok());
    assert_eq!(v.run("a"), Err("short".to_owned()));
    let seen = Rc::new(std::cell::RefCell::new(Vec::new()));
    let s2 = seen.clone();
    let d = DispatchFn::new(move |x: u32| {
        s2.borrow_mut().push(x);
        Ok(())
    });
    assert!(d.run(3).is_ok());
    assert!(d.share().run(4).is_ok());
    assert_eq!(*seen.borrow(), vec![3, 4]);
}

#[test]
fn dialog_steps_in_order() {
    let a = answer_steps();
    assert_eq!(a.len(), 2);
    assert!(matches!(a[0], DialogStep::Answer));
    assert!(matches!(a[1], DialogStep::Close));
    let d = prompt_dismiss_steps();
    assert_eq!(d.len(), 2);
    assert!(matches!(d[0], DialogStep::Close));
    assert!(matches!(d[1], DialogStep::ResetState));
    let ok = prompt_submit_steps(prompt_outcome("hi", Some(Ok(()))));
    assert_eq!(ok.len(), 3);
    match &ok[0] {
        DialogStep::Submit(t) => assert_eq!(t, "hi"),
        _ => panic!("expected the submit step first"),
    }
    assert!(matches!(ok[1], DialogStep::Close));
    assert!(matches!(ok[2], DialogStep::ResetState));
    let bad = prompt_submit_steps(prompt_outcome("hi", Some(Err("no".to_owned()))));
    assert_eq!(bad.len(), 1);
    match &bad[0] {
        DialogStep::StoreInput(st) => {
            assert_eq!(st.draft, "hi");
            assert_eq!(st.error.as_deref(), Some("no"));
        }
        _ => panic!("expected the input to be stored"),
    }
}

#[test]
fn modal_and_drawer_plugins() {
    let render = ModalRenderer::new(|n: u32| n + 1);
    assert_eq!(render.run(41), 42);
    let shared = render.share();
    assert!(Rc::ptr_eq(&shared.0, &render.0));
    let options = ModalOptions { backdrop_style: respo::css::respo_style(), card_style: respo::css::respo_style(), title: None, render };
    let modal = ModalPlugin::new(vec!["m".to_owned()], false, options);
    assert_eq!(modal.cursor, vec!["m".to_owned()]);
    assert!(!modal.show);
    assert!(modal.show_state());
    assert!(!modal.close_state());
    let drawer_render = DrawerRenderer::new(|s: &str| s.len());
    assert_eq!(drawer_render.run("abc"), 3);
    let options = DrawerOptions { backdrop_style: respo::css::respo_style(), card_style: respo::css::respo_style(), title: Some("side".to_owned()), render: drawer_render };
    let drawer = DrawerPlugin::new(vec![], true, options);
    assert!(drawer.show);
    assert_eq!(drawer.options.title.as_deref(), Some("side"));
    assert!(drawer.show_state());
    assert!(!drawer.close_state());
}
