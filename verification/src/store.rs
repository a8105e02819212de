//! The store of the example application: a counter, a task list and the states tree,
//! with the actions that change them and what its buttons dispatch.

use vstd::prelude::*;
use vstd::string::*;

use crate::states_tree::{data_view, set_view, texts, RespoStatesTree, RespoUpdateState};
use crate::text::{append_str, signed_decimal, signed_decimal_string};

verus! {

/// A task of the list.
pub struct Task {
    pub id: String,
    pub done: bool,
    pub content: String,
}

/// A task as plain values: its id, whether it is done, its content.
pub type TaskView = (Seq<char>, bool, Seq<char>);

pub open spec fn task_view(t: Task) -> TaskView {
    (t.id@, t.done, t.content@)
}

pub open spec fn tasks_view(ts: Seq<Task>) -> Seq<TaskView> {
    ts.map_values(|t: Task| task_view(t))
}

/// Intents, handled by the store outside of the plain actions.
pub enum IntentOp {
    Noop,
    IncTwice,
}

/// The actions of the store.
pub enum ActionOp<S: ?Sized> {
    Noop,
    /// contains State and Value
    StatesChange(RespoUpdateState<S>),
    Intent(IntentOp),
    Increment,
    Decrement,
    AddTask(String, String),
    RemoveTask(String),
    UpdateTask(String, String),
    ToggleTask(String),
}

/// The store: the global count, the tasks and the states of components.
pub struct Store<S: ?Sized> {
    pub counted: i32,
    pub tasks: Vec<Task>,
    pub states: RespoStatesTree<S>,
}

/// The tasks whose id is not `id`, in order.
pub open spec fn without_task(ts: Seq<TaskView>, id: Seq<char>) -> Seq<TaskView>
    decreases ts.len(),
{
    if ts.len() == 0 {
        ts
    } else {
        let rest = without_task(ts.drop_last(), id);
        if ts.last().0 != id {
            rest.push(ts.last())
        } else {
            rest
        }
    }
}

/// The tasks with the content of every task with id `id` set to `content`.
pub open spec fn with_content(ts: Seq<TaskView>, id: Seq<char>, content: Seq<char>) -> Seq<TaskView> {
    ts.map_values(|t: TaskView| if t.0 == id { (t.0, t.1, content) } else { t })
}

/// The tasks with every task with id `id` toggled between done and not done.
pub open spec fn toggled(ts: Seq<TaskView>, id: Seq<char>) -> Seq<TaskView> {
    ts.map_values(|t: TaskView| if t.0 == id { (t.0, !t.1, t.2) } else { t })
}

/// Some task has the id `id`.
pub open spec fn has_task(ts: Seq<TaskView>, id: Seq<char>) -> bool {
    exists|i: int| 0 <= i < ts.len() && ts[i].0 == id
}

/// The error for a task that is not in the list.
pub open spec fn not_found_text(id: Seq<char>) -> Seq<char> {
    "task "@ + id + " not found"@
}

fn not_found(id: &String) -> (r: String)
    ensures
        r@ == not_found_text(id@),
{
    let mut s = String::new();
    append_str(&mut s, "task ");
    append_str(&mut s, id.as_str());
    append_str(&mut s, " not found");
    s
}

fn copy_task(t: &Task) -> (r: Task)
    ensures
        task_view(r) == task_view(*t),
{
    Task { id: t.id.clone(), done: t.done, content: t.content.clone() }
}

/// Whether an action may be handed to `Store::update`: intents are handled before, and
/// the count must stay within `i32`.
pub open spec fn update_allowed<S: ?Sized>(counted: i32, op: ActionOp<S>) -> bool {
    match op {
        ActionOp::Intent(_) => false,
        ActionOp::Increment => counted < i32::MAX,
        ActionOp::Decrement => counted > i32::MIN,
        _ => true,
    }
}

impl<S: ?Sized> Store<S> {
    /// Applies an action. Tasks are found by id; updating or toggling a task that is not
    /// in the list fails with `task <id> not found`.
    pub fn update(&mut self, op: ActionOp<S>) -> (r: Result<(), String>)
        requires
            update_allowed(old(self).counted, op),
        ensures
            match op {
                ActionOp::Noop => r is Ok && final(self)@ == old(self)@,
                ActionOp::StatesChange(a) => r is Ok && final(self).counted == old(self).counted && tasks_view(
                    final(self).tasks@,
                ) == tasks_view(old(self).tasks@) && final(self).states@ == set_view(
                    old(self).states@,
                    texts(a.cursor@),
                    data_view(a.data),
                    a.backup,
                ),
                ActionOp::Increment => r is Ok && final(self).counted == old(self).counted + 1 && same_lists(
                    *old(self),
                    *final(self),
                ),
                ActionOp::Decrement => r is Ok && final(self).counted == old(self).counted - 1 && same_lists(
                    *old(self),
                    *final(self),
                ),
                ActionOp::AddTask(id, content) => r is Ok && final(self).counted == old(self).counted
                    && final(self).states@ == old(self).states@ && tasks_view(final(self).tasks@) == tasks_view(
                    old(self).tasks@,
                ).push((id@, false, content@)),
                ActionOp::RemoveTask(id) => r is Ok && final(self).counted == old(self).counted
                    && final(self).states@ == old(self).states@ && tasks_view(final(self).tasks@)
                    == without_task(tasks_view(old(self).tasks@), id@),
                ActionOp::UpdateTask(id, content) => final(self).counted == old(self).counted
                    && final(self).states@ == old(self).states@ && if has_task(tasks_view(old(self).tasks@), id@) {
                    r is Ok && tasks_view(final(self).tasks@) == with_content(
                        tasks_view(old(self).tasks@),
                        id@,
                        content@,
                    )
                } else {
                    r matches Err(e) && e@ == not_found_text(id@) && tasks_view(final(self).tasks@) == tasks_view(
                        old(self).tasks@,
                    )
                },
                ActionOp::ToggleTask(id) => final(self).counted == old(self).counted
                    && final(self).states@ == old(self).states@ && if has_task(tasks_view(old(self).tasks@), id@) {
                    r is Ok && tasks_view(final(self).tasks@) == toggled(tasks_view(old(self).tasks@), id@)
                } else {
                    r matches Err(e) && e@ == not_found_text(id@) && tasks_view(final(self).tasks@) == tasks_view(
                        old(self).tasks@,
                    )
                },
                ActionOp::Intent(_) => false,
            },
    {
        match op {
            ActionOp::Noop => Ok(()),
            ActionOp::StatesChange(a) => {
                self.states.set_in_mut(a);
                Ok(())
            },
            ActionOp::Intent(_) => Ok(()),
            ActionOp::Increment => {
                self.counted = self.counted + 1;
                Ok(())
            },
            ActionOp::Decrement => {
                self.counted = self.counted - 1;
                Ok(())
            },
            ActionOp::AddTask(id, content) => {
                self.tasks.push(Task { id, done: false, content });
                assert(tasks_view(self.tasks@) =~= tasks_view(old(self).tasks@).push((id@, false, content@)));
                Ok(())
            },
            ActionOp::RemoveTask(id) => {
                self.remove_task(&id);
                Ok(())
            },
            ActionOp::UpdateTask(id, content) => self.change_tasks(&id, false, &content),
            ActionOp::ToggleTask(id) => {
                let none = String::new();
                self.change_tasks(&id, true, &none)
            },
        }
    }

    fn remove_task(&mut self, id: &String)
        ensures
            final(self).counted == old(self).counted,
            final(self).states@ == old(self).states@,
            tasks_view(final(self).tasks@) == without_task(tasks_view(old(self).tasks@), id@),
    {
        let ghost ov = tasks_view(self.tasks@);
        let mut kept: Vec<Task> = Vec::new();
        let mut i: usize = 0;
        while i < self.tasks.len()
            invariant
                i <= self.tasks@.len(),
                ov == tasks_view(self.tasks@),
                tasks_view(kept@) == without_task(ov.take(i as int), id@),
            decreases self.tasks@.len() - i,
        {
            assert(ov.take(i + 1).drop_last() =~= ov.take(i as int));
            if self.tasks[i].id != *id {
                let ghost before = kept@;
                kept.push(copy_task(&self.tasks[i]));
                assert(tasks_view(kept@) =~= tasks_view(before).push(ov[i as int]));
            }
            i = i + 1;
        }
        assert(ov.take(ov.len() as int) =~= ov);
        self.tasks = kept;
    }

    /// Sets the content of, or toggles, every task with id `id`; fails where there is none.
    fn change_tasks(&mut self, id: &String, toggle: bool, content: &String) -> (r: Result<(), String>)
        ensures
            final(self).counted == old(self).counted,
            final(self).states@ == old(self).states@,
            if has_task(tasks_view(old(self).tasks@), id@) {
                r is Ok && tasks_view(final(self).tasks@) == if toggle {
                    toggled(tasks_view(old(self).tasks@), id@)
                } else {
                    with_content(tasks_view(old(self).tasks@), id@, content@)
                }
            } else {
                r matches Err(e) && e@ == not_found_text(id@) && tasks_view(final(self).tasks@) == tasks_view(
                    old(self).tasks@,
                )
            },
    {
        let ghost ov = tasks_view(self.tasks@);
        let ghost target = if toggle {
            toggled(ov, id@)
        } else {
            with_content(ov, id@, content@)
        };
        let mut found = false;
        let mut i: usize = 0;
        while i < self.tasks.len()
            invariant
                i <= self.tasks@.len(),
                ov.len() == self.tasks@.len(),
                target.len() == ov.len(),
                target == (if toggle {
                    toggled(ov, id@)
                } else {
                    with_content(ov, id@, content@)
                }),
                self.counted == old(self).counted,
                self.states@ == old(self).states@,
                forall|j: int| 0 <= j < i ==> #[trigger] task_view(self.tasks@[j]) == target[j],
                forall|j: int| i <= j < self.tasks@.len() ==> #[trigger] task_view(self.tasks@[j]) == ov[j],
                found == exists|j: int| 0 <= j < i && ov[j].0 == id@,
            decreases self.tasks@.len() - i,
        {
            assert(task_view(self.tasks@[i as int]) == ov[i as int]);
            if self.tasks[i].id == *id {
                let t = Task {
                    id: self.tasks[i].id.clone(),
                    done: if toggle { !self.tasks[i].done } else { self.tasks[i].done },
                    content: if toggle { self.tasks[i].content.clone() } else { content.clone() },
                };
                let ghost before = self.tasks@;
                self.tasks.set(i, t);
                found = true;
                assert(ov[i as int].0 == id@);
                assert forall|j: int| 0 <= j < self.tasks@.len() && j != i implies #[trigger] self.tasks@[j] == before[j] by {}
            } else {
                assert(ov[i as int].0 != id@);
            }
            assert(task_view(self.tasks@[i as int]) == target[i as int]);
            i = i + 1;
        }
        if found {
            assert(tasks_view(self.tasks@) =~= target);
            Ok(())
        } else {
            assert(tasks_view(self.tasks@) =~= ov);
            Err(not_found(id))
        }
    }
}

/// The lists of the store, its tasks and states, are as they were.
pub open spec fn same_lists<S: ?Sized>(a: Store<S>, b: Store<S>) -> bool {
    &&& tasks_view(b.tasks@) == tasks_view(a.tasks@)
    &&& b.states@ == a.states@
}

impl<S: ?Sized> View for Store<S> {
    type V = (i32, Seq<TaskView>, crate::states_tree::StatesView<S>);

    open spec fn view(&self) -> Self::V {
        (self.counted, tasks_view(self.tasks@), self.states@)
    }
}

impl IntentOp {
    /// Handles an intent on the store: `IncTwice` increments the count three times, as the
    /// example does.
    pub fn update<S: ?Sized>(&self, store: &mut Store<S>) -> (r: Result<(), String>)
        requires
            *self is IncTwice ==> old(store).counted <= i32::MAX - 3,
        ensures
            r is Ok,
            same_lists(*old(store), *final(store)),
            final(store).counted == old(store).counted + if *self is IncTwice {
                3int
            } else {
                0int
            },
    {
        match self {
            IntentOp::Noop => Ok(()),
            IntentOp::IncTwice => {
                store.update(ActionOp::Increment)?;
                store.update(ActionOp::Increment)?;
                store.update(ActionOp::Increment)?;
                Ok(())
            },
        }
    }
}

/// The buttons of the counter.
pub enum CounterClick {
    Inc,
    Dec,
    IncTwice,
}

/// What a click on a counter button dispatches: first the action for the store, then the
/// new local count stored at the counter's cursor.
pub fn counter_click<S: ?Sized>(click: CounterClick, local: i32) -> (r: (ActionOp<S>, i32))
    requires
        click is Dec ==> local > i32::MIN,
        !(click is Dec) ==> local <= i32::MAX - 2,
    ensures
        match click {
            CounterClick::Inc => r.0 is Increment && r.1 == local + 2,
            CounterClick::Dec => r.0 is Decrement && r.1 == local - 1,
            CounterClick::IncTwice => (r.0 matches ActionOp::Intent(i) && i is IncTwice) && r.1 == local + 2,
        },
{
    match click {
        CounterClick::Inc => (ActionOp::Increment, local + 2),
        CounterClick::Dec => (ActionOp::Decrement, local - 1),
        CounterClick::IncTwice => (ActionOp::Intent(IntentOp::IncTwice), local + 2),
    }
}

/// The texts the counter shows: the value, the local state and the global state.
pub fn counter_texts(counted: i32, global_counted: i32) -> (r: (String, String, String))
    ensures
        r.0@ == "value is: "@ + signed_decimal(counted as int),
        r.1@ == "local state: "@ + signed_decimal(counted as int),
        r.2@ == "global state: "@ + signed_decimal(global_counted as int),
{
    let mut a = String::new();
    append_str(&mut a, "value is: ");
    append_str(&mut a, signed_decimal_string(counted as i64).as_str());
    let mut b = String::new();
    append_str(&mut b, "local state: ");
    append_str(&mut b, signed_decimal_string(counted as i64).as_str());
    let mut c = String::new();
    append_str(&mut c, "global state: ");
    append_str(&mut c, signed_decimal_string(global_counted as i64).as_str());
    (a, b, c)
}

/// The check the example's prompt runs on its input: at least two and at most eight bytes.
pub fn check_draft(text: &str) -> (r: Result<(), String>)
    requires
        text.spec_bytes().len() <= usize::MAX,
    ensures
        text.spec_bytes().len() <= 1 ==> (r matches Err(e) && e@ == "too short"@),
        text.spec_bytes().len() > 8 ==> (r matches Err(e) && e@ == "too long"@),
        1 < text.spec_bytes().len() <= 8 ==> r is Ok,
{
    let n = text.len();
    if n <= 1 {
        Err(String::from_str("too short"))
    } else if n > 8 {
        Err(String::from_str("too long"))
    } else {
        Ok(())
    }
}

/// What the buttons of a task dispatch: toggling it, removing it, or updating its content
/// with the draft; after an update the draft is reset.
pub enum TaskClick {
    Toggle,
    Remove,
    Update,
}

/// The action a click on a task's button dispatches, and whether the task's draft is
/// reset after it.
pub fn task_click<S: ?Sized>(click: TaskClick, id: &String, draft: &String) -> (r: (ActionOp<S>, bool))
    ensures
        match click {
            TaskClick::Toggle => (r.0 matches ActionOp::ToggleTask(i) && i@ == id@) && !r.1,
            TaskClick::Remove => (r.0 matches ActionOp::RemoveTask(i) && i@ == id@) && !r.1,
            TaskClick::Update => (r.0 matches ActionOp::UpdateTask(i, c) && i@ == id@ && c@ == draft@) && r.1,
        },
{
    match click {
        TaskClick::Toggle => (ActionOp::ToggleTask(id.clone()), false),
        TaskClick::Remove => (ActionOp::RemoveTask(id.clone()), false),
        TaskClick::Update => (ActionOp::UpdateTask(id.clone(), draft.clone()), true),
    }
}

/// Toggling the tasks with an id flips whether each of them is done and leaves every other
/// part of the list as it was; toggling twice gives the list back.
pub proof fn law_toggle_flips(ts: Seq<TaskView>, id: Seq<char>)
    ensures
        toggled(ts, id).len() == ts.len(),
        forall|i: int|
            0 <= i < ts.len() ==> (#[trigger] toggled(ts, id)[i]).0 == ts[i].0 && toggled(ts, id)[i].2 == ts[i].2
                && (toggled(ts, id)[i].1 != ts[i].1) == (ts[i].0 == id),
        toggled(toggled(ts, id), id) == ts,
{
    assert(toggled(toggled(ts, id), id) =~= ts);
}

/// Updating the content of the tasks with an id gives each of them that content and leaves
/// every other part of the list as it was; updating again with the same content changes
/// nothing.
pub proof fn law_update_sets_content(ts: Seq<TaskView>, id: Seq<char>, content: Seq<char>)
    ensures
        with_content(ts, id, content).len() == ts.len(),
        forall|i: int|
            0 <= i < ts.len() ==> (#[trigger] with_content(ts, id, content)[i]).0 == ts[i].0 && with_content(
                ts,
                id,
                content,
            )[i].1 == ts[i].1 && with_content(ts, id, content)[i].2 == if ts[i].0 == id {
                content
            } else {
                ts[i].2
            },
        with_content(with_content(ts, id, content), id, content) == with_content(ts, id, content),
{
    assert(with_content(with_content(ts, id, content), id, content) =~= with_content(ts, id, content));
}

proof fn lemma_without_members(ts: Seq<TaskView>, id: Seq<char>)
    ensures
        forall|t: TaskView| #[trigger] without_task(ts, id).contains(t) <==> ts.contains(t) && t.0 != id,
        !has_task(ts, id) ==> without_task(ts, id) == ts,
    decreases ts.len(),
{
    if ts.len() > 0 {
        let rest = ts.drop_last();
        lemma_without_members(rest, id);
        let w = without_task(rest, id);
        let r = without_task(ts, id);
        assert(rest.len() == ts.len() - 1);
        if ts.last().0 != id {
            assert(r == w.push(ts.last()));
        } else {
            assert(r == w);
        }
        assert forall|t: TaskView| #[trigger] r.contains(t) <==> ts.contains(t) && t.0 != id by {
            if ts.contains(t) && t.0 != id {
                let j = choose|j: int| 0 <= j < ts.len() && ts[j] == t;
                if j < ts.len() - 1 {
                    assert(rest[j] == t);
                    assert(rest.contains(t));
                    assert(w.contains(t));
                    let k = choose|k: int| 0 <= k < w.len() && w[k] == t;
                    assert(r[k] == t);
                } else {
                    assert(t == ts.last());
                    assert(r[w.len() as int] == t);
                }
            }
            if r.contains(t) {
                let j = choose|j: int| 0 <= j < r.len() && r[j] == t;
                if ts.last().0 != id && j == w.len() {
                    assert(t == ts.last());
                    assert(ts[ts.len() - 1] == t);
                } else {
                    assert(w[j] == t);
                    assert(w.contains(t));
                    let k = choose|k: int| 0 <= k < rest.len() && rest[k] == t;
                    assert(ts[k] == t);
                }
            }
        }
        if !has_task(ts, id) {
            assert(!has_task(rest, id)) by {
                if has_task(rest, id) {
                    let j = choose|j: int| 0 <= j < rest.len() && rest[j].0 == id;
                    assert(ts[j].0 == id);
                }
            }
            assert(ts.last().0 != id) by {
                assert(ts[ts.len() - 1].0 == ts.last().0);
            }
            assert(rest.push(ts.last()) =~= ts);
        }
    }
}

/// Removing the tasks with an id leaves exactly the tasks with other ids: none with that id
/// remains, every task with another id stays, and a list without the id is left as it was.
pub proof fn law_remove_task(ts: Seq<TaskView>, id: Seq<char>)
    ensures
        !has_task(without_task(ts, id), id),
        forall|t: TaskView| #[trigger] without_task(ts, id).contains(t) <==> ts.contains(t) && t.0 != id,
        !has_task(ts, id) ==> without_task(ts, id) == ts,
{
    lemma_without_members(ts, id);
    let r = without_task(ts, id);
    if has_task(r, id) {
        let j = choose|j: int| 0 <= j < r.len() && r[j].0 == id;
        assert(r.contains(r[j]));
    }
}

} // verus!
