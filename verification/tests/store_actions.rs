use respo::states_tree::{RespoStateBranch, RespoStatesTree, RespoUpdateState};
use respo::store::{check_draft, counter_click, counter_texts, task_click, ActionOp, CounterClick, IntentOp, Store, TaskClick};
use std::rc::Rc;

fn store() -> Store<u32> {
    Store { counted: 0, tasks: Vec::new(), states: RespoStatesTree::new() }
}

fn add(s: &mut Store<u32>, id: &str, content: &str) {
    assert!(s.update(ActionOp::AddTask(id.to_owned(), content.to_owned())).is_ok());
}

#[test]
fn counter_actions_change_the_count() {
    let mut s = store();
    assert!(s.update(ActionOp::Increment).is_ok());
    assert!(s.update(ActionOp::Increment).is_ok());
    assert!(s.update(ActionOp::Decrement).is_ok());
    assert_eq!(s.counted, 1);
    assert!(IntentOp::IncTwice.update(&mut s).is_ok());
    assert_eq!(s.counted, 4);
    assert!(IntentOp::Noop.update(&mut s).is_ok());
    assert_eq!(s.counted, 4);
}

#[test]
fn task_actions() {
    let mut s = store();
    add(&mut s, "a", "first");
    add(&mut s, "b", "second");
    add(&mut s, "a", "again");
    assert!(s.update(ActionOp::ToggleTask("a".to_owned())).is_ok());
    assert!(s.tasks[0].done && !s.tasks[1].done && s.tasks[2].done);
    assert!(s.update(ActionOp::UpdateTask("b".to_owned(), "new".to_owned())).is_ok());
    assert_eq!(s.tasks[1].content, "new");
    assert_eq!(s.update(ActionOp::ToggleTask("z".to_owned())), Err("task z not found".to_owned()));
    assert_eq!(s.update(ActionOp::UpdateTask("z".to_owned(), "x".to_owned())), Err("task z not found".to_owned()));
    assert!(s.update(ActionOp::RemoveTask("a".to_owned())).is_ok());
    assert_eq!(s.tasks.len(), 1);
    assert_eq!(s.tasks[0].id, "b");
    assert!(s.update(ActionOp::Noop).is_ok());
    assert_eq!(s.tasks.len(), 1);
}

#[test]
fn states_change_sets_the_state() {
    let mut s = store();
    let change = RespoUpdateState {
        cursor: vec!["c".to_owned()],
        data: Some(RespoStateBranch::new(Rc::new(7u32))),
        backup: None,
    };
    assert!(s.update(ActionOp::StatesChange(change)).is_ok());
    assert_eq!(s.states.pick("c").data.map(|d| *d.0), Some(7));
}

#[test]
fn counter_buttons() {
    match counter_click::<u32>(CounterClick::Inc, 3) {
        (ActionOp::Increment, n) => assert_eq!(n, 5),
        _ => panic!("expected an increment"),
    }
    match counter_click::<u32>(CounterClick::Dec, 3) {
        (ActionOp::Decrement, n) => assert_eq!(n, 2),
        _ => panic!("expected a decrement"),
    }
    match counter_click::<u32>(CounterClick::IncTwice, 3) {
        (ActionOp::Intent(IntentOp::IncTwice), n) => assert_eq!(n, 5),
        _ => panic!("expected the intent"),
    }
    let (a, b, c) = counter_texts(-4, 12);
    assert_eq!(a, "value is: -4");
    assert_eq!(b, "local state: -4");
    assert_eq!(c, "global state: 12");
}

#[test]
fn task_buttons_and_draft_check() {
    let id = "t1".to_owned();
    let draft = "text".to_owned();
    match task_click::<u32>(TaskClick::Update, &id, &draft) {
        (ActionOp::UpdateTask(i, c), reset) => {
            assert_eq!(i, "t1");
            assert_eq!(c, "text");
            assert!(reset);
        }
        _ => panic!("expected an update"),
    }
    assert!(matches!(task_click::<u32>(TaskClick::Toggle, &id, &draft), (ActionOp::ToggleTask(_), false)));
    assert!(matches!(task_click::<u32>(TaskClick::Remove, &id, &draft), (ActionOp::RemoveTask(_), false)));
    assert_eq!(check_draft("a"), Err("too short".to_owned()));
    assert_eq!(check_draft("abcdefghi"), Err("too long".to_owned()));
    assert_eq!(check_draft("abc"), Ok(()));
}
