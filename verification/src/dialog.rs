//! Options and states of the alert, confirm and prompt dialogs, and how showing,
//! closing and submitting change those states.

use std::rc::Rc;
use vstd::prelude::*;

use crate::css::RespoStyle;
use crate::node::share;
use crate::states_tree::texts;

verus! {

/// The text of an optional string.
pub open spec fn opt_text(o: Option<String>) -> Option<Seq<char>> {
    match o {
        Some(s) => Some(s@),
        None => None,
    }
}

/// A copy of an optional string.
pub fn copy_opt_text(o: &Option<String>) -> (r: Option<String>)
    ensures
        opt_text(r) == opt_text(*o),
{
    match o {
        Some(s) => Some(s.clone()),
        None => None,
    }
}

/// The first of two optional texts that is present.
pub open spec fn first_text(a: Option<Seq<char>>, b: Option<Seq<char>>) -> Option<Seq<char>> {
    match a {
        Some(t) => Some(t),
        None => b,
    }
}

/// options for alert dialog
pub struct AlertOptions {
    /// inline style for backdrop
    pub backdrop_style: RespoStyle,
    /// inline style for card
    pub card_style: RespoStyle,
    /// message to display
    pub text: Option<String>,
    /// text on button
    pub button_text: Option<String>,
}

/// options for confirm dialog
pub struct ConfirmOptions {
    /// inline style for backdrop
    pub backdrop_style: RespoStyle,
    /// inline style for card
    pub card_style: RespoStyle,
    /// message to display
    pub text: Option<String>,
    /// text on button
    pub button_text: Option<String>,
}

/// wraps validator function
pub struct PromptValidator<F: ?Sized>(pub Rc<F>);

impl<F: ?Sized> PromptValidator<F> {
    pub fn new(f: F) -> (r: Self)
        where F: Sized,
        ensures
            *r.0 == f,
    {
        PromptValidator(Rc::new(f))
    }

    /// Checks an input with the validator.
    pub fn run(&self, value: &str) -> (r: Result<(), String>)
        where F: Fn(&str) -> Result<(), String>,
        requires
            call_requires(&*self.0, (value,)),
        ensures
            call_ensures(&*self.0, (value,), r),
    {
        (self.0)(value)
    }

    /// Another handle to the same validator.
    pub fn share(&self) -> (r: Self)
        ensures
            r.0 == self.0,
    {
        PromptValidator(share(&self.0))
    }
}

/// options for prompt dialog
pub struct PromptOptions<F: ?Sized> {
    /// inline style for backdrop
    pub backdrop_style: RespoStyle,
    /// inline style for card
    pub card_style: RespoStyle,
    /// hint to display, defaults `input message`
    pub text: Option<String>,
    /// text on button
    pub button_text: Option<String>,
    /// initial value of input
    pub initial_value: Option<String>,
    /// textarea or input
    pub multilines: bool,
    /// inline style for input bix
    pub input_style: RespoStyle,
    /// a validation function to check input
    pub validator: Option<PromptValidator<F>>,
}

impl AlertOptions {
    /// Options with empty styles and no texts.
    pub fn new() -> (r: Self)
        ensures
            r.backdrop_style.rules().len() == 0,
            r.card_style.rules().len() == 0,
            r.text is None,
            r.button_text is None,
    {
        AlertOptions {
            backdrop_style: RespoStyle(Vec::new()),
            card_style: RespoStyle(Vec::new()),
            text: None,
            button_text: None,
        }
    }
}

impl ConfirmOptions {
    /// Options with empty styles and no texts.
    pub fn new() -> (r: Self)
        ensures
            r.backdrop_style.rules().len() == 0,
            r.card_style.rules().len() == 0,
            r.text is None,
            r.button_text is None,
    {
        ConfirmOptions {
            backdrop_style: RespoStyle(Vec::new()),
            card_style: RespoStyle(Vec::new()),
            text: None,
            button_text: None,
        }
    }
}

impl<F: ?Sized> PromptOptions<F> {
    /// Options with empty styles, no texts, a single-line input and no validator.
    pub fn new() -> (r: Self)
        ensures
            r.backdrop_style.rules().len() == 0,
            r.card_style.rules().len() == 0,
            r.input_style.rules().len() == 0,
            r.text is None,
            r.button_text is None,
            r.initial_value is None,
            !r.multilines,
            r.validator is None,
    {
        PromptOptions {
            backdrop_style: RespoStyle(Vec::new()),
            card_style: RespoStyle(Vec::new()),
            text: None,
            button_text: None,
            initial_value: None,
            multilines: false,
            input_style: RespoStyle(Vec::new()),
            validator: None,
        }
    }
}

/// The state a dialog plugin keeps in the states tree: whether it shows, and its text.
pub struct DialogState {
    pub show: bool,
    pub text: Option<String>,
}

impl DialogState {
    /// A hidden dialog without text, the state of a dialog never shown.
    pub fn hidden() -> (r: Self)
        ensures
            !r.show,
            r.text is None,
    {
        DialogState { show: false, text: None }
    }

    /// A copy of the state.
    pub fn copy_state(&self) -> (r: Self)
        ensures
            r.show == self.show,
            opt_text(r.text) == opt_text(self.text),
    {
        DialogState { show: self.show, text: copy_opt_text(&self.text) }
    }

    /// The state after the dialog was read, confirmed or dismissed: hidden, same text.
    pub fn dismissed(&self) -> (r: Self)
        ensures
            !r.show,
            opt_text(r.text) == opt_text(self.text),
    {
        DialogState { show: false, text: copy_opt_text(&self.text) }
    }
}

/// The state of the input of a prompt dialog: the draft and the last validation error.
pub struct InputState {
    pub draft: String,
    pub error: Option<String>,
}

impl InputState {
    /// The state a prompt starts with: the given initial value as draft without error,
    /// or else the state found in the states tree.
    pub fn starting(found: InputState, initial_value: &Option<String>) -> (r: Self)
        ensures
            match initial_value {
                Some(v) => r.draft@ == v@ && r.error is None,
                None => r.draft@ == found.draft@ && opt_text(r.error) == opt_text(found.error),
            },
    {
        match initial_value {
            Some(v) => InputState { draft: v.clone(), error: None },
            None => found,
        }
    }
}

/// What submitting the input of a prompt comes to.
pub enum PromptOutcome {
    /// the text is handed to the submit callback, the dialog closes and the input state is reset
    Submit(String),
    /// the input keeps the text as draft and shows the validation error
    Reject(InputState),
}

/// Submitting `text`, given what the validator said of it, if there is a validator.
pub fn prompt_outcome(text: &str, validated: Option<Result<(), String>>) -> (r: PromptOutcome)
    ensures
        match validated {
            Some(Err(message)) => r matches PromptOutcome::Reject(st) && st.draft@ == text@ && opt_text(st.error)
                == Some(message@),
            _ => r matches PromptOutcome::Submit(t) && t@ == text@,
        },
{
    match validated {
        Some(Err(message)) => PromptOutcome::Reject(InputState { draft: text.to_owned(), error: Some(message) }),
        _ => PromptOutcome::Submit(text.to_owned()),
    }
}

/// One step of answering a dialog. The steps of an answer run in order, and the first
/// that fails stops the rest.
pub enum DialogStep {
    /// hand the text to the submit callback
    Submit(String),
    /// run the read or confirm callback
    Answer,
    /// run the close callback
    Close,
    /// reset the dialog's own state in the states tree
    ResetState,
    /// store this input state in the states tree
    StoreInput(InputState),
    /// store the dialog's state as shown
    Show,
    /// keep the next task handed to `show`, to run once the dialog is answered
    StoreNextTask,
    /// run the kept next task, with the submitted text where there is one; a missing
    /// task fails with `next_task_missing`
    RunNextTask(Option<String>),
    /// drop the kept next task
    ClearNextTask,
}

/// The error of running a next task where none is kept.
pub fn next_task_missing() -> (r: String)
    ensures
        r@ == "_NEXT_TASK is not a function"@,
{
    String::from_str("_NEXT_TASK is not a function")
}

/// Showing a confirm or prompt plugin: keeping its next task, then storing it as shown.
pub fn plugin_show_steps() -> (r: Vec<DialogStep>)
    ensures
        r@.len() == 2,
        r@[0] is StoreNextTask,
        r@[1] is Show,
{
    vec![DialogStep::StoreNextTask, DialogStep::Show]
}

/// Confirming a confirm plugin: its callback, its next task, storing it as closed, then
/// dropping the next task.
pub fn plugin_confirm_steps() -> (r: Vec<DialogStep>)
    ensures
        r@.len() == 4,
        r@[0] is Answer,
        r@[1] matches DialogStep::RunNextTask(a) && a is None,
        r@[2] is Close,
        r@[3] is ClearNextTask,
{
    vec![DialogStep::Answer, DialogStep::RunNextTask(None), DialogStep::Close, DialogStep::ClearNextTask]
}

/// Submitting `text` to a prompt plugin: its callback, its next task with the text, storing
/// it as closed, then dropping the next task.
pub fn plugin_submit_steps(text: String) -> (r: Vec<DialogStep>)
    ensures
        r@.len() == 4,
        r@[0] matches DialogStep::Submit(t) && t@ == text@,
        r@[1] matches DialogStep::RunNextTask(a) && a matches Some(t) && t@ == text@,
        r@[2] is Close,
        r@[3] is ClearNextTask,
{
    let again = text.clone();
    vec![DialogStep::Submit(text), DialogStep::RunNextTask(Some(again)), DialogStep::Close, DialogStep::ClearNextTask]
}

/// Closing a confirm or prompt plugin without an answer: storing it as closed, then
/// dropping the next task.
pub fn plugin_dismiss_steps() -> (r: Vec<DialogStep>)
    ensures
        r@.len() == 2,
        r@[0] is Close,
        r@[1] is ClearNextTask,
{
    vec![DialogStep::Close, DialogStep::ClearNextTask]
}

/// Reading an alert or confirming a confirm dialog: the callback, then closing.
pub fn answer_steps() -> (r: Vec<DialogStep>)
    ensures
        r@.len() == 2,
        r@[0] is Answer,
        r@[1] is Close,
{
    vec![DialogStep::Answer, DialogStep::Close]
}

/// Dismissing a prompt by its backdrop: closing, then resetting its input state.
pub fn prompt_dismiss_steps() -> (r: Vec<DialogStep>)
    ensures
        r@.len() == 2,
        r@[0] is Close,
        r@[1] is ResetState,
{
    vec![DialogStep::Close, DialogStep::ResetState]
}

/// Submitting a prompt: for an accepted text, handing it to the submit callback, closing,
/// then resetting the input state; for a rejected one, storing the input with its error.
pub fn prompt_submit_steps(outcome: PromptOutcome) -> (r: Vec<DialogStep>)
    ensures
        match outcome {
            PromptOutcome::Submit(t) => r@.len() == 3 && (r@[0] matches DialogStep::Submit(s) && s@ == t@)
                && r@[1] is Close && r@[2] is ResetState,
            PromptOutcome::Reject(st) => r@.len() == 1 && (r@[0] matches DialogStep::StoreInput(x) && x.draft@
                == st.draft@ && opt_text(x.error) == opt_text(st.error)),
        },
{
    match outcome {
        PromptOutcome::Submit(t) => vec![DialogStep::Submit(t), DialogStep::Close, DialogStep::ResetState],
        PromptOutcome::Reject(st) => vec![DialogStep::StoreInput(st)],
    }
}

/// The alert dialog plugin: its state at `cursor` in the states tree, its options, and
/// the callback run when the message is read.
pub struct AlertPlugin<U> {
    pub state: DialogState,
    pub options: AlertOptions,
    /// tracking content to display
    pub text: Option<String>,
    pub cursor: Vec<String>,
    pub on_read: U,
}

impl<U> AlertPlugin<U> {
    /// show alert with options, `on_read` is the callback function when read button is clicked
    pub fn new(cursor: Vec<String>, state: DialogState, options: AlertOptions, on_read: U) -> (r: Self)
        ensures
            texts(r.cursor@) == texts(cursor@),
            r.state == state,
            r.options == options,
            r.text is None,
            r.on_read == on_read,
    {
        AlertPlugin { state, options, text: None, cursor, on_read }
    }

    /// The state that shows the alert with `text`.
    pub fn show_state(&self, text: Option<String>) -> (r: DialogState)
        ensures
            r.show,
            opt_text(r.text) == opt_text(text),
    {
        DialogState { show: true, text }
    }

    /// The state that closes the alert.
    pub fn close_state(&self) -> (r: DialogState)
        ensures
            !r.show,
            opt_text(r.text) == opt_text(self.text),
    {
        DialogState { show: false, text: copy_opt_text(&self.text) }
    }

    /// The message to display: the one shown with, or else the one of the options.
    pub fn display_text(&self) -> (r: Option<String>)
        ensures
            opt_text(r) == first_text(opt_text(self.state.text), opt_text(self.options.text)),
    {
        match &self.state.text {
            Some(t) => Some(t.clone()),
            None => copy_opt_text(&self.options.text),
        }
    }
}

/// The confirm dialog plugin: its state at `cursor` in the states tree, its options, and
/// the callback run when confirmed.
pub struct ConfirmPlugin<U> {
    pub state: DialogState,
    pub options: ConfirmOptions,
    /// tracking content to display
    pub text: Option<String>,
    pub cursor: Vec<String>,
    pub on_confirm: U,
}

impl<U> ConfirmPlugin<U> {
    /// creates a new instance of confirm plugin, the callback runs when confirmed
    pub fn new(cursor: Vec<String>, state: DialogState, options: ConfirmOptions, on_confirm: U) -> (r: Self)
        ensures
            texts(r.cursor@) == texts(cursor@),
            r.state == state,
            r.options == options,
            r.text is None,
            r.on_confirm == on_confirm,
    {
        ConfirmPlugin { state, options, text: None, cursor, on_confirm }
    }

    /// The state that shows the dialog, keeping the text it has.
    pub fn show_state(&self) -> (r: DialogState)
        ensures
            r.show,
            opt_text(r.text) == opt_text(self.state.text),
    {
        DialogState { show: true, text: copy_opt_text(&self.state.text) }
    }

    /// The state that closes the dialog.
    pub fn close_state(&self) -> (r: DialogState)
        ensures
            !r.show,
            opt_text(r.text) == opt_text(self.text),
    {
        DialogState { show: false, text: copy_opt_text(&self.text) }
    }
}

/// The prompt dialog plugin: its state at `cursor` in the states tree, its options, and
/// the callback run with the submitted text.
pub struct PromptPlugin<F: ?Sized, U> {
    pub state: DialogState,
    pub options: PromptOptions<F>,
    /// tracking content to display
    pub text: Option<String>,
    pub cursor: Vec<String>,
    pub on_submit: U,
}

impl<F: ?Sized, U> PromptPlugin<F, U> {
    /// initialize the plugin, the callback runs with the submitted text
    pub fn new(cursor: Vec<String>, state: DialogState, options: PromptOptions<F>, on_submit: U) -> (r: Self)
        ensures
            texts(r.cursor@) == texts(cursor@),
            r.state == state,
            r.options == options,
            r.text is None,
            r.on_submit == on_submit,
    {
        PromptPlugin { state, options, text: None, cursor, on_submit }
    }

    /// The state that shows the dialog, keeping the text it has.
    pub fn show_state(&self) -> (r: DialogState)
        ensures
            r.show,
            opt_text(r.text) == opt_text(self.state.text),
    {
        DialogState { show: true, text: copy_opt_text(&self.state.text) }
    }

    /// The state that closes the dialog.
    pub fn close_state(&self) -> (r: DialogState)
        ensures
            !r.show,
            opt_text(r.text) == opt_text(self.text),
    {
        DialogState { show: false, text: copy_opt_text(&self.text) }
    }
}

/// wraps the function that renders the body of a custom modal, handed the callback
/// that closes the modal
pub struct ModalRenderer<R: ?Sized>(pub Rc<R>);

impl<R: ?Sized> ModalRenderer<R> {
    pub fn new(renderer: R) -> (r: Self)
        where R: Sized,
        ensures
            *r.0 == renderer,
    {
        ModalRenderer(Rc::new(renderer))
    }

    /// Renders the body, handing it `close`.
    pub fn run<C, O>(&self, close: C) -> (r: O)
        where R: Fn(C) -> O,
        requires
            call_requires(&*self.0, (close,)),
        ensures
            call_ensures(&*self.0, (close,), r),
    {
        (self.0)(close)
    }

    /// Another handle to the same renderer.
    pub fn share(&self) -> (r: Self)
        ensures
            r.0 == self.0,
    {
        ModalRenderer(share(&self.0))
    }
}

/// wraps the function that renders the body of a drawer, handed the callback that
/// closes the drawer
pub struct DrawerRenderer<R: ?Sized>(pub Rc<R>);

impl<R: ?Sized> DrawerRenderer<R> {
    pub fn new(renderer: R) -> (r: Self)
        where R: Sized,
        ensures
            *r.0 == renderer,
    {
        DrawerRenderer(Rc::new(renderer))
    }

    /// Renders the body, handing it `close`.
    pub fn run<C, O>(&self, close: C) -> (r: O)
        where R: Fn(C) -> O,
        requires
            call_requires(&*self.0, (close,)),
        ensures
            call_ensures(&*self.0, (close,), r),
    {
        (self.0)(close)
    }

    /// Another handle to the same renderer.
    pub fn share(&self) -> (r: Self)
        ensures
            r.0 == self.0,
    {
        DrawerRenderer(share(&self.0))
    }
}

/// The options for custom modal.
pub struct ModalOptions<R: ?Sized> {
    /// inline style for backdrop
    pub backdrop_style: RespoStyle,
    /// inline style for card
    pub card_style: RespoStyle,
    /// title of the modal, defaults to `Modal`
    pub title: Option<String>,
    /// render body
    pub render: ModalRenderer<R>,
}

/// The options for custom drawer.
pub struct DrawerOptions<R: ?Sized> {
    /// inline style for backdrop
    pub backdrop_style: RespoStyle,
    /// inline style for card
    pub card_style: RespoStyle,
    /// title of the drawer, defaults to `Drawer`
    pub title: Option<String>,
    /// render body
    pub render: DrawerRenderer<R>,
}

/// a modal that you can render you down card body: whether it shows, as kept at
/// `cursor` in the states tree, and its options
pub struct ModalPlugin<R: ?Sized> {
    pub show: bool,
    pub options: ModalOptions<R>,
    pub cursor: Vec<String>,
}

impl<R: ?Sized> ModalPlugin<R> {
    /// The plugin for the state found at `cursor`.
    pub fn new(cursor: Vec<String>, show: bool, options: ModalOptions<R>) -> (r: Self)
        ensures
            texts(r.cursor@) == texts(cursor@),
            r.show == show,
            r.options == options,
    {
        ModalPlugin { show, options, cursor }
    }

    /// The state stored to show the modal.
    pub fn show_state(&self) -> (r: bool)
        ensures
            r,
    {
        true
    }

    /// The state stored to close the modal.
    pub fn close_state(&self) -> (r: bool)
        ensures
            !r,
    {
        false
    }
}

/// a drawer that you can render you down card body: whether it shows, as kept at
/// `cursor` in the states tree, and its options
pub struct DrawerPlugin<R: ?Sized> {
    pub show: bool,
    pub options: DrawerOptions<R>,
    pub cursor: Vec<String>,
}

impl<R: ?Sized> DrawerPlugin<R> {
    /// The plugin for the state found at `cursor`.
    pub fn new(cursor: Vec<String>, show: bool, options: DrawerOptions<R>) -> (r: Self)
        ensures
            texts(r.cursor@) == texts(cursor@),
            r.show == show,
            r.options == options,
    {
        DrawerPlugin { show, options, cursor }
    }

    /// The state stored to show the drawer.
    pub fn show_state(&self) -> (r: bool)
        ensures
            r,
    {
        true
    }

    /// The state stored to close the drawer.
    pub fn close_state(&self) -> (r: bool)
        ensures
            !r,
    {
        false
    }
}

} // verus!
