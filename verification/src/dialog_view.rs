//! The trees of the dialogs, modal and drawer. The listeners and effects are handed in:
//! what they do with the browser's events stays with the caller.

use std::rc::Rc;
use vstd::prelude::*;

use crate::css::RespoStyle;
use crate::dialog::{opt_text, AlertOptions, ConfirmOptions, DrawerOptions, InputState, ModalOptions, PromptOptions};
use crate::node::{share, attrs_view, children_view, events_view, lemma_children_view, NodeView, RespoElement, RespoNode};
use crate::text::decimal;
use vstd::string::*;

verus! {

/// Children keyed by their positions, as decimal numerals.
pub open spec fn indexed<L: ?Sized, E: ?Sized>(ch: Seq<NodeView<L, E>>) -> Seq<(Seq<char>, NodeView<L, E>)> {
    Seq::new(ch.len(), |i: int| (decimal(i as nat), ch[i]))
}

/// The views of a list of nodes.
pub open spec fn nodes_view<L: ?Sized, E: ?Sized>(ns: Seq<RespoNode<L, E>>) -> Seq<NodeView<L, E>> {
    ns.map_values(|n: RespoNode<L, E>| n@)
}

/// An element with children keyed by their positions.
pub open spec fn el<L: ?Sized, E: ?Sized>(
    name: Seq<char>,
    attrs: Seq<(Seq<char>, Seq<char>)>,
    events: Seq<(Seq<char>, Rc<L>)>,
    style: Seq<(Seq<char>, Seq<char>)>,
    children: Seq<NodeView<L, E>>,
) -> NodeView<L, E> {
    NodeView::Element { name, attrs, events, style, children: indexed(children) }
}

/// The views of empty lists are empty.
pub proof fn lemma_empty_views<L: ?Sized, E: ?Sized>()
    ensures
        attrs_view(Seq::<(String, String)>::empty()) == Seq::<(Seq<char>, Seq<char>)>::empty(),
        events_view(Seq::<(String, Rc<L>)>::empty()) == Seq::<(Seq<char>, Rc<L>)>::empty(),
        nodes_view(Seq::<RespoNode<L, E>>::empty()) == Seq::<NodeView<L, E>>::empty(),
{
    assert(attrs_view(Seq::<(String, String)>::empty()) =~= Seq::<(Seq<char>, Seq<char>)>::empty());
    assert(events_view(Seq::<(String, Rc<L>)>::empty()) =~= Seq::<(Seq<char>, Rc<L>)>::empty());
    assert(nodes_view(Seq::<RespoNode<L, E>>::empty()) =~= Seq::<NodeView<L, E>>::empty());
}

/// A text pair.
pub fn kv(k: &str, v: &str) -> (r: (String, String))
    ensures
        r.0@ == k@,
        r.1@ == v@,
{
    (k.to_owned(), v.to_owned())
}

/// An event name with its listener.
pub fn on<L: ?Sized>(name: &str, handler: Rc<L>) -> (r: (String, Rc<L>))
    ensures
        r.0@ == name@,
        r.1 == handler,
{
    (name.to_owned(), handler)
}

/// The element `el` describes.
pub fn make_el<L: ?Sized, E: ?Sized>(
    name: &str,
    attrs: Vec<(String, String)>,
    events: Vec<(String, Rc<L>)>,
    style: Vec<(String, String)>,
    children: Vec<RespoNode<L, E>>,
) -> (r: RespoNode<L, E>)
    ensures
        r@ == el(name@, attrs_view(attrs@), events_view(events@), attrs_view(style@), nodes_view(children@)),
{
    let ghost cv = nodes_view(children@);
    let ghost more = children@;
    let e = RespoElement {
        name: name.to_owned(),
        attributes: attrs,
        event: events,
        style: RespoStyle(style),
        children: Vec::new(),
    };
    let e = e.children(children);
    proof {
        lemma_children_view(e.children@, e.children@.len() as int);
        assert(e.style.rules() =~= attrs_view(e.style.0@));
        assert forall|j: int| 0 <= j < more.len() implies #[trigger] children_view(
            e.children@,
            e.children@.len() as int,
        )[j] == indexed(cv)[j] by {
            assert(e.children@[0 + j].0@ == decimal(j as nat));
            assert(e.children@[0 + j].1 == more[j]);
        }
        assert(children_view(e.children@, e.children@.len() as int) =~= indexed(cv));
    }
    RespoNode::Element(e)
}

/// The class attribute values of the parts of a dialog.
pub struct DialogClasses {
    /// the backdrop covering the page
    pub backdrop: String,
    /// the card of a dialog or modal
    pub card: String,
    /// the card of a drawer
    pub drawer_card: String,
    /// a column
    pub column: String,
    /// centered content
    pub center: String,
    /// a row with its ends apart
    pub row_parted: String,
    /// the button of a dialog
    pub button: String,
    /// the input of a prompt
    pub input: String,
    /// the error of a prompt
    pub error: String,
}

/// The text, or else the default.
pub open spec fn text_or(t: Option<Seq<char>>, default: Seq<char>) -> Seq<char> {
    match t {
        Some(x) => x,
        None => default,
    }
}

fn text_or_default(t: &Option<String>, default: &str) -> (r: String)
    ensures
        r@ == text_or(opt_text(*t), default@),
{
    match t {
        Some(x) => x.clone(),
        None => default.to_owned(),
    }
}

/// The placeholder shown where a dialog is hidden.
pub open spec fn placeholder_view<L: ?Sized, E: ?Sized>() -> NodeView<L, E> {
    el("span"@, seq![("data-name"@, "placeholder"@)], Seq::empty(), Seq::empty(), Seq::empty())
}

/// A vertical space of eight pixels.
pub open spec fn space_view<L: ?Sized, E: ?Sized>() -> NodeView<L, E> {
    el("div"@, Seq::empty(), Seq::empty(), seq![("height"@, "8px"@), ("width"@, "1px"@), ("display"@, "block"@)], Seq::empty())
}

/// The hidden input listening for the Escape key.
pub open spec fn esc_view<L: ?Sized, E: ?Sized>(on_esc: Rc<L>) -> NodeView<L, E> {
    NodeView::Component {
        name: "esc-listener"@,
        effects: Seq::empty(),
        tree: Box::new(el("input"@, Seq::empty(), seq![("keydown"@, on_esc)], seq![("display"@, "none"@)], Seq::empty())),
    }
}

/// The row holding the button of a dialog.
pub open spec fn button_row_view<L: ?Sized, E: ?Sized>(
    row_class: Seq<char>,
    button_class: Seq<char>,
    label: Seq<char>,
    on_press: Rc<L>,
) -> NodeView<L, E> {
    el(
        "div"@,
        seq![("class"@, row_class)],
        Seq::empty(),
        Seq::empty(),
        seq![
            el("span"@, Seq::empty(), Seq::empty(), Seq::empty(), Seq::empty()),
            el("button"@, seq![("class"@, button_class), ("innerText"@, label)], seq![("click"@, on_press)], Seq::empty(), Seq::empty()),
        ],
    )
}

/// A dialog: a component holding, where shown, a backdrop with a card whose first child
/// holds `body`, and the Escape listener; where hidden, the placeholder.
pub open spec fn frame_view<L: ?Sized, E: ?Sized>(
    name: Seq<char>,
    effects: Seq<Rc<E>>,
    show: bool,
    backdrop_class: Seq<char>,
    backdrop_style: Seq<(Seq<char>, Seq<char>)>,
    on_backdrop: Rc<L>,
    card_class: Seq<char>,
    card_style: Seq<(Seq<char>, Seq<char>)>,
    stop_click: Rc<L>,
    inner_attrs: Seq<(Seq<char>, Seq<char>)>,
    body: Seq<NodeView<L, E>>,
    on_esc: Rc<L>,
) -> NodeView<L, E> {
    let content = if show {
        el(
            "div"@,
            seq![("class"@, backdrop_class)],
            seq![("click"@, on_backdrop)],
            backdrop_style,
            seq![
                el(
                    "div"@,
                    seq![("class"@, card_class)],
                    seq![("click"@, stop_click)],
                    card_style,
                    seq![el("div"@, inner_attrs, Seq::empty(), Seq::empty(), body)],
                ),
                esc_view(on_esc),
            ],
        )
    } else {
        placeholder_view()
    };
    NodeView::Component {
        name,
        effects,
        tree: Box::new(el("div"@, Seq::empty(), Seq::empty(), seq![("position"@, "absolute"@)], seq![content])),
    }
}

/// The listeners of a dialog: a click on the backdrop, a click on the card that goes no
/// further, the button, and the Escape key.
pub struct DialogListeners<L: ?Sized> {
    pub on_backdrop: Rc<L>,
    pub stop_click: Rc<L>,
    pub on_press: Rc<L>,
    pub on_esc: Rc<L>,
}

fn placeholder<L: ?Sized, E: ?Sized>() -> (r: RespoNode<L, E>)
    ensures
        r@ == placeholder_view::<L, E>(),
{
    proof {
        lemma_empty_views::<L, E>();
    }
    let attrs = vec![kv("data-name", "placeholder")];
    let r = make_el("span", attrs, Vec::new(), Vec::new(), Vec::new());
    assert(attrs_view(attrs@) =~= seq![("data-name"@, "placeholder"@)]);
    r
}

fn space<L: ?Sized, E: ?Sized>() -> (r: RespoNode<L, E>)
    ensures
        r@ == space_view::<L, E>(),
{
    proof {
        lemma_empty_views::<L, E>();
    }
    let style = vec![kv("height", "8px"), kv("width", "1px"), kv("display", "block")];
    let r = make_el("div", Vec::new(), Vec::new(), style, Vec::new());
    assert(attrs_view(style@) =~= seq![("height"@, "8px"@), ("width"@, "1px"@), ("display"@, "block"@)]);
    r
}

fn esc_listener<L: ?Sized, E: ?Sized>(on_esc: Rc<L>) -> (r: RespoNode<L, E>)
    ensures
        r@ == esc_view::<L, E>(on_esc),
{
    proof {
        lemma_empty_views::<L, E>();
    }
    let events = vec![on("keydown", on_esc)];
    let style = vec![kv("display", "none")];
    let input = make_el("input", Vec::new(), events, style, Vec::new());
    assert(events_view(events@) =~= seq![("keydown"@, on_esc)]);
    assert(attrs_view(style@) =~= seq![("display"@, "none"@)]);
    RespoNode::Component(crate::node::RespoComponent { name: "esc-listener".to_owned(), effects: Vec::new(), tree: Box::new(input) })
}

fn button_row<L: ?Sized, E: ?Sized>(row_class: &String, button_class: &String, label: &String, on_press: Rc<L>) -> (r:
    RespoNode<L, E>)
    ensures
        r@ == button_row_view::<L, E>(row_class@, button_class@, label@, on_press),
{
    proof {
        lemma_empty_views::<L, E>();
    }
    let gap = make_el("span", Vec::new(), Vec::new(), Vec::new(), Vec::new());
    let attrs = vec![kv("class", button_class.as_str()), kv("innerText", label.as_str())];
    let events = vec![on("click", on_press)];
    let button = make_el("button", attrs, events, Vec::new(), Vec::new());
    assert(attrs_view(attrs@) =~= seq![("class"@, button_class@), ("innerText"@, label@)]);
    assert(events_view(events@) =~= seq![("click"@, on_press)]);
    let row_attrs = vec![kv("class", row_class.as_str())];
    assert(attrs_view(row_attrs@) =~= seq![("class"@, row_class@)]);
    let ghost g = gap@;
    let ghost b = button@;
    let kids = vec![gap, button];
    assert(nodes_view(kids@) =~= seq![g, b]);
    make_el("div", row_attrs, Vec::new(), Vec::new(), kids)
}

/// Style declarations: `lead`, then those of `more`.
fn style_pairs(lead: Vec<(String, String)>, more: &RespoStyle) -> (r: Vec<(String, String)>)
    ensures
        attrs_view(r@) == attrs_view(lead@) + more.rules(),
{
    let s = RespoStyle(lead).extend(more.copy_style());
    proof {
        assert(RespoStyle(lead).rules() =~= attrs_view(lead@));
        assert(s.rules() =~= attrs_view(s.0@));
    }
    s.0
}

fn frame<L: ?Sized, E: ?Sized>(
    name: &str,
    effects: Vec<Rc<E>>,
    show: bool,
    backdrop_class: &String,
    backdrop_style: &RespoStyle,
    on_backdrop: Rc<L>,
    card_class: &String,
    card_style: Vec<(String, String)>,
    stop_click: Rc<L>,
    inner_attrs: Vec<(String, String)>,
    body: Vec<RespoNode<L, E>>,
    on_esc: Rc<L>,
) -> (r: RespoNode<L, E>)
    ensures
        r@ == frame_view::<L, E>(
            name@,
            effects@,
            show,
            backdrop_class@,
            backdrop_style.rules(),
            on_backdrop,
            card_class@,
            attrs_view(card_style@),
            stop_click,
            attrs_view(inner_attrs@),
            nodes_view(body@),
            on_esc,
        ),
{
    proof {
        lemma_empty_views::<L, E>();
    }
    let ghost bv = nodes_view(body@);
    let content = if show {
        let inner = make_el("div", inner_attrs, Vec::new(), Vec::new(), body);
        let card_attrs = vec![kv("class", card_class.as_str())];
        let card_events = vec![on("click", stop_click)];
        let ghost iv = inner@;
        let card_kids = vec![inner];
        assert(nodes_view(card_kids@) =~= seq![iv]);
        assert(attrs_view(card_attrs@) =~= seq![("class"@, card_class@)]);
        assert(events_view(card_events@) =~= seq![("click"@, stop_click)]);
        let card = make_el("div", card_attrs, card_events, card_style, card_kids);
        let esc = esc_listener(on_esc);
        let ghost cv = card@;
        let ghost ev = esc@;
        let kids = vec![card, esc];
        assert(nodes_view(kids@) =~= seq![cv, ev]);
        let back_attrs = vec![kv("class", backdrop_class.as_str())];
        let back_events = vec![on("click", on_backdrop)];
        assert(attrs_view(back_attrs@) =~= seq![("class"@, backdrop_class@)]);
        assert(events_view(back_events@) =~= seq![("click"@, on_backdrop)]);
        let bs = backdrop_style.copy_style();
        assert(bs.rules() =~= attrs_view(bs.0@));
        make_el("div", back_attrs, back_events, bs.0, kids)
    } else {
        placeholder()
    };
    let ghost ctv = content@;
    let outer_style = vec![kv("position", "absolute")];
    assert(attrs_view(outer_style@) =~= seq![("position"@, "absolute"@)]);
    let kids = vec![content];
    assert(nodes_view(kids@) =~= seq![ctv]);
    let tree = make_el("div", Vec::new(), Vec::new(), outer_style, kids);
    RespoNode::Component(crate::node::RespoComponent { name: name.to_owned(), effects, tree: Box::new(tree) })
}

/// A span showing `text`.
pub open spec fn text_span_view<L: ?Sized, E: ?Sized>(text: Seq<char>) -> NodeView<L, E> {
    el("span"@, seq![("innerText"@, text)], Seq::empty(), Seq::empty(), Seq::empty())
}

fn text_span<L: ?Sized, E: ?Sized>(text: &String) -> (r: RespoNode<L, E>)
    ensures
        r@ == text_span_view::<L, E>(text@),
{
    proof {
        lemma_empty_views::<L, E>();
    }
    let attrs = vec![kv("innerText", text.as_str())];
    assert(attrs_view(attrs@) =~= seq![("innerText"@, text@)]);
    make_el("span", attrs, Vec::new(), Vec::new(), Vec::new())
}

/// The alert dialog: its message, defaulting to `Alert!`, and its button, defaulting to
/// `Read`, with the focus and fade effects.
pub open spec fn alert_modal_view<L: ?Sized, E: ?Sized>(
    options: AlertOptions,
    show: bool,
    classes: DialogClasses,
    ls: DialogListeners<L>,
    focus: Rc<E>,
    fade: Rc<E>,
) -> NodeView<L, E> {
    frame_view(
        "alert-modal"@,
        seq![focus, fade],
        show,
        classes.backdrop@,
        options.backdrop_style.rules(),
        ls.on_backdrop,
        classes.card@,
        seq![("line-height"@, "32px"@)] + options.card_style.rules(),
        ls.stop_click,
        Seq::empty(),
        seq![
            text_span_view(text_or(opt_text(options.text), "Alert!"@)),
            space_view(),
            button_row_view(classes.row_parted@, classes.button@, text_or(opt_text(options.button_text), "Read"@), ls.on_press),
        ],
        ls.on_esc,
    )
}

/// The tree of the alert dialog.
pub fn alert_modal_tree<L: ?Sized, E: ?Sized>(
    options: &AlertOptions,
    show: bool,
    classes: &DialogClasses,
    ls: &DialogListeners<L>,
    focus: Rc<E>,
    fade: Rc<E>,
) -> (r: RespoNode<L, E>)
    ensures
        r@ == alert_modal_view(*options, show, *classes, *ls, focus, fade),
{
    proof {
        lemma_empty_views::<L, E>();
    }
    let text = text_or_default(&options.text, "Alert!");
    let label = text_or_default(&options.button_text, "Read");
    let a = text_span(&text);
    let b = space();
    let c = button_row(&classes.row_parted, &classes.button, &label, share(&ls.on_press));
    let ghost (av, bv, cv) = (a@, b@, c@);
    let body = vec![a, b, c];
    assert(nodes_view(body@) =~= seq![av, bv, cv]);
    let lead = vec![kv("line-height", "32px")];
    assert(attrs_view(lead@) =~= seq![("line-height"@, "32px"@)]);
    let card_style = style_pairs(lead, &options.card_style);
    let effects = vec![focus, fade];
    assert(effects@ =~= seq![focus, fade]);
    frame(
        "alert-modal",
        effects,
        show,
        &classes.backdrop,
        &options.backdrop_style,
        share(&ls.on_backdrop),
        &classes.card,
        card_style,
        share(&ls.stop_click),
        Vec::new(),
        body,
        share(&ls.on_esc),
    )
}

/// The confirm dialog: its message, defaulting to `Need confirmation...`, and its button,
/// defaulting to `Confirm`, with the focus and fade effects.
pub open spec fn confirm_modal_view<L: ?Sized, E: ?Sized>(
    options: ConfirmOptions,
    show: bool,
    classes: DialogClasses,
    ls: DialogListeners<L>,
    focus: Rc<E>,
    fade: Rc<E>,
) -> NodeView<L, E> {
    frame_view(
        "confirm-modal"@,
        seq![focus, fade],
        show,
        classes.backdrop@,
        options.backdrop_style.rules(),
        ls.on_backdrop,
        classes.card@,
        seq![("line-height"@, "32px"@)] + options.card_style.rules(),
        ls.stop_click,
        Seq::empty(),
        seq![
            text_span_view(text_or(opt_text(options.text), "Need confirmation..."@)),
            space_view(),
            button_row_view(classes.row_parted@, classes.button@, text_or(opt_text(options.button_text), "Confirm"@), ls.on_press),
        ],
        ls.on_esc,
    )
}

/// The tree of the confirm dialog.
pub fn confirm_modal_tree<L: ?Sized, E: ?Sized>(
    options: &ConfirmOptions,
    show: bool,
    classes: &DialogClasses,
    ls: &DialogListeners<L>,
    focus: Rc<E>,
    fade: Rc<E>,
) -> (r: RespoNode<L, E>)
    ensures
        r@ == confirm_modal_view(*options, show, *classes, *ls, focus, fade),
{
    proof {
        lemma_empty_views::<L, E>();
    }
    let text = text_or_default(&options.text, "Need confirmation...");
    let label = text_or_default(&options.button_text, "Confirm");
    let a = text_span(&text);
    let b = space();
    let c = button_row(&classes.row_parted, &classes.button, &label, share(&ls.on_press));
    let ghost (av, bv, cv) = (a@, b@, c@);
    let body = vec![a, b, c];
    assert(nodes_view(body@) =~= seq![av, bv, cv]);
    let lead = vec![kv("line-height", "32px")];
    assert(attrs_view(lead@) =~= seq![("line-height"@, "32px"@)]);
    let card_style = style_pairs(lead, &options.card_style);
    let effects = vec![focus, fade];
    assert(effects@ =~= seq![focus, fade]);
    frame(
        "confirm-modal",
        effects,
        show,
        &classes.backdrop,
        &options.backdrop_style,
        share(&ls.on_backdrop),
        &classes.card,
        card_style,
        share(&ls.stop_click),
        Vec::new(),
        body,
        share(&ls.on_esc),
    )
}

/// The input of a prompt: a textarea where it takes several lines, else an input, showing
/// the draft.
pub open spec fn prompt_input_view<L: ?Sized, E: ?Sized>(
    multilines: bool,
    input_class: Seq<char>,
    draft: Seq<char>,
    on_input: Rc<L>,
) -> NodeView<L, E> {
    el(
        if multilines { "textarea"@ } else { "input"@ },
        seq![("value"@, draft), ("placeholder"@, "Content..."@), ("class"@, input_class), ("value"@, draft)],
        seq![("input"@, on_input)],
        seq![("width"@, "100%"@)],
        Seq::empty(),
    )
}

/// The error of a prompt where there is one, else an empty span.
pub open spec fn prompt_error_view<L: ?Sized, E: ?Sized>(error_class: Seq<char>, error: Option<Seq<char>>) -> NodeView<L, E> {
    match error {
        Some(m) => el("div"@, seq![("class"@, error_class), ("innerText"@, m)], Seq::empty(), Seq::empty(), Seq::empty()),
        None => el("span"@, Seq::empty(), Seq::empty(), Seq::empty(), Seq::empty()),
    }
}

/// The prompt dialog: its hint, defaulting to `input message`, the input holding the draft,
/// the error where there is one, and its button, defaulting to `Submit`, with the fade
/// effect. The card also takes the input style of the options.
pub open spec fn prompt_modal_view<L: ?Sized, E: ?Sized, F: ?Sized>(
    options: PromptOptions<F>,
    input: InputState,
    show: bool,
    classes: DialogClasses,
    ls: DialogListeners<L>,
    on_input: Rc<L>,
    fade: Rc<E>,
) -> NodeView<L, E> {
    frame_view(
        "prompt-modal"@,
        seq![fade],
        show,
        classes.backdrop@,
        options.backdrop_style.rules(),
        ls.on_backdrop,
        classes.card@,
        seq![("line-height"@, "32px"@)] + options.card_style.rules() + options.input_style.rules(),
        ls.stop_click,
        Seq::empty(),
        seq![
            text_span_view(text_or(opt_text(options.text), "input message"@)),
            space_view(),
            el("div"@, Seq::empty(), Seq::empty(), Seq::empty(), seq![prompt_input_view(options.multilines, classes.input@, input.draft@, on_input)]),
            prompt_error_view(classes.error@, opt_text(input.error)),
            space_view(),
            button_row_view(classes.row_parted@, classes.button@, text_or(opt_text(options.button_text), "Submit"@), ls.on_press),
        ],
        ls.on_esc,
    )
}

fn prompt_input<L: ?Sized, E: ?Sized>(multilines: bool, input_class: &String, draft: &String, on_input: Rc<L>) -> (r:
    RespoNode<L, E>)
    ensures
        r@ == prompt_input_view::<L, E>(multilines, input_class@, draft@, on_input),
{
    proof {
        lemma_empty_views::<L, E>();
    }
    let attrs = vec![
        kv("value", draft.as_str()),
        kv("placeholder", "Content..."),
        kv("class", input_class.as_str()),
        kv("value", draft.as_str()),
    ];
    assert(attrs_view(attrs@) =~= seq![("value"@, draft@), ("placeholder"@, "Content..."@), ("class"@, input_class@), ("value"@, draft@)]);
    let events = vec![on("input", on_input)];
    assert(events_view(events@) =~= seq![("input"@, on_input)]);
    let style = vec![kv("width", "100%")];
    assert(attrs_view(style@) =~= seq![("width"@, "100%"@)]);
    let name = if multilines { "textarea" } else { "input" };
    make_el(name, attrs, events, style, Vec::new())
}

fn prompt_error<L: ?Sized, E: ?Sized>(error_class: &String, error: &Option<String>) -> (r: RespoNode<L, E>)
    ensures
        r@ == prompt_error_view::<L, E>(error_class@, opt_text(*error)),
{
    proof {
        lemma_empty_views::<L, E>();
    }
    match error {
        Some(m) => {
            let attrs = vec![kv("class", error_class.as_str()), kv("innerText", m.as_str())];
            assert(attrs_view(attrs@) =~= seq![("class"@, error_class@), ("innerText"@, m@)]);
            make_el("div", attrs, Vec::new(), Vec::new(), Vec::new())
        },
        None => make_el("span", Vec::new(), Vec::new(), Vec::new(), Vec::new()),
    }
}

/// The tree of the prompt dialog.
pub fn prompt_modal_tree<L: ?Sized, E: ?Sized, F: ?Sized>(
    options: &PromptOptions<F>,
    input: &InputState,
    show: bool,
    classes: &DialogClasses,
    ls: &DialogListeners<L>,
    on_input: Rc<L>,
    fade: Rc<E>,
) -> (r: RespoNode<L, E>)
    ensures
        r@ == prompt_modal_view(*options, *input, show, *classes, *ls, on_input, fade),
{
    proof {
        lemma_empty_views::<L, E>();
    }
    let text = text_or_default(&options.text, "input message");
    let label = text_or_default(&options.button_text, "Submit");
    let a = text_span(&text);
    let b = space();
    let field = prompt_input(options.multilines, &classes.input, &input.draft, on_input);
    let ghost fv = field@;
    let field_kids = vec![field];
    assert(nodes_view(field_kids@) =~= seq![fv]);
    let c = make_el("div", Vec::new(), Vec::new(), Vec::new(), field_kids);
    let d = prompt_error(&classes.error, &input.error);
    let e = space();
    let f = button_row(&classes.row_parted, &classes.button, &label, share(&ls.on_press));
    let ghost (av, bv, cv, dv, ev, fv2) = (a@, b@, c@, d@, e@, f@);
    let body = vec![a, b, c, d, e, f];
    assert(nodes_view(body@) =~= seq![av, bv, cv, dv, ev, fv2]);
    let lead = vec![kv("line-height", "32px")];
    assert(attrs_view(lead@) =~= seq![("line-height"@, "32px"@)]);
    let with_card = style_pairs(lead, &options.card_style);
    let card_style = style_pairs(with_card, &options.input_style);
    let effects = vec![fade];
    assert(effects@ =~= seq![fade]);
    frame(
        "prompt-modal",
        effects,
        show,
        &classes.backdrop,
        &options.backdrop_style,
        share(&ls.on_backdrop),
        &classes.card,
        card_style,
        share(&ls.stop_click),
        Vec::new(),
        body,
        share(&ls.on_esc),
    )
}

/// A custom modal or drawer: a card of the given class holding its title, defaulting to
/// `default_title`, and the body rendered by the caller, with the fade effect.
pub open spec fn custom_view<L: ?Sized, E: ?Sized>(
    name: Seq<char>,
    card_class: Seq<char>,
    title: Seq<char>,
    backdrop_style: Seq<(Seq<char>, Seq<char>)>,
    card_style: Seq<(Seq<char>, Seq<char>)>,
    show: bool,
    classes: DialogClasses,
    body: NodeView<L, E>,
    on_backdrop: Rc<L>,
    stop_click: Rc<L>,
    on_esc: Rc<L>,
    fade: Rc<E>,
) -> NodeView<L, E> {
    frame_view(
        name,
        seq![fade],
        show,
        classes.backdrop@,
        backdrop_style,
        on_backdrop,
        card_class,
        seq![("padding"@, "0px"@), ("line-height"@, "32px"@)] + card_style,
        stop_click,
        seq![("class"@, classes.column@)],
        seq![
            el("div"@, seq![("class"@, classes.center@)], Seq::empty(), Seq::empty(), seq![text_span_view(title)]),
            space_view(),
            body,
        ],
        on_esc,
    )
}

/// The custom modal: titled `Modal` by default.
pub open spec fn modal_view<L: ?Sized, E: ?Sized, R: ?Sized>(
    options: ModalOptions<R>,
    show: bool,
    classes: DialogClasses,
    body: NodeView<L, E>,
    on_backdrop: Rc<L>,
    stop_click: Rc<L>,
    on_esc: Rc<L>,
    fade: Rc<E>,
) -> NodeView<L, E> {
    custom_view(
        "modal"@,
        classes.card@,
        text_or(opt_text(options.title), "Modal"@),
        options.backdrop_style.rules(),
        options.card_style.rules(),
        show,
        classes,
        body,
        on_backdrop,
        stop_click,
        on_esc,
        fade,
    )
}

/// The drawer: titled `drawer` by default, in the drawer's card.
pub open spec fn drawer_view<L: ?Sized, E: ?Sized, R: ?Sized>(
    options: DrawerOptions<R>,
    show: bool,
    classes: DialogClasses,
    body: NodeView<L, E>,
    on_backdrop: Rc<L>,
    stop_click: Rc<L>,
    on_esc: Rc<L>,
    fade: Rc<E>,
) -> NodeView<L, E> {
    custom_view(
        "drawer"@,
        classes.drawer_card@,
        text_or(opt_text(options.title), "drawer"@),
        options.backdrop_style.rules(),
        options.card_style.rules(),
        show,
        classes,
        body,
        on_backdrop,
        stop_click,
        on_esc,
        fade,
    )
}

fn custom_tree<L: ?Sized, E: ?Sized>(
    name: &str,
    card_class: &String,
    title: &String,
    backdrop_style: &RespoStyle,
    card_style: &RespoStyle,
    show: bool,
    classes: &DialogClasses,
    body: RespoNode<L, E>,
    on_backdrop: Rc<L>,
    stop_click: Rc<L>,
    on_esc: Rc<L>,
    fade: Rc<E>,
) -> (r: RespoNode<L, E>)
    ensures
        r@ == custom_view(
            name@,
            card_class@,
            title@,
            backdrop_style.rules(),
            card_style.rules(),
            show,
            *classes,
            body@,
            on_backdrop,
            stop_click,
            on_esc,
            fade,
        ),
{
    proof {
        lemma_empty_views::<L, E>();
    }
    let t = text_span(title);
    let ghost tv = t@;
    let tkids = vec![t];
    assert(nodes_view(tkids@) =~= seq![tv]);
    let hattrs = vec![kv("class", classes.center.as_str())];
    assert(attrs_view(hattrs@) =~= seq![("class"@, classes.center@)]);
    let head = make_el("div", hattrs, Vec::new(), Vec::new(), tkids);
    let gap = space();
    let ghost (hv, gv, bv) = (head@, gap@, body@);
    let kids = vec![head, gap, body];
    assert(nodes_view(kids@) =~= seq![hv, gv, bv]);
    let lead = vec![kv("padding", "0px"), kv("line-height", "32px")];
    assert(attrs_view(lead@) =~= seq![("padding"@, "0px"@), ("line-height"@, "32px"@)]);
    let cs = style_pairs(lead, card_style);
    let inner_attrs = vec![kv("class", classes.column.as_str())];
    assert(attrs_view(inner_attrs@) =~= seq![("class"@, classes.column@)]);
    let effects = vec![fade];
    assert(effects@ =~= seq![fade]);
    frame(name, effects, show, &classes.backdrop, backdrop_style, on_backdrop, card_class, cs, stop_click, inner_attrs, kids, on_esc)
}

/// The tree of a custom modal around `body`.
pub fn modal_tree<L: ?Sized, E: ?Sized, R: ?Sized>(
    options: &ModalOptions<R>,
    show: bool,
    classes: &DialogClasses,
    body: RespoNode<L, E>,
    on_backdrop: Rc<L>,
    stop_click: Rc<L>,
    on_esc: Rc<L>,
    fade: Rc<E>,
) -> (r: RespoNode<L, E>)
    ensures
        r@ == modal_view(*options, show, *classes, body@, on_backdrop, stop_click, on_esc, fade),
{
    let title = text_or_default(&options.title, "Modal");
    custom_tree(
        "modal",
        &classes.card,
        &title,
        &options.backdrop_style,
        &options.card_style,
        show,
        classes,
        body,
        on_backdrop,
        stop_click,
        on_esc,
        fade,
    )
}

/// The tree of a drawer around `body`.
pub fn drawer_tree<L: ?Sized, E: ?Sized, R: ?Sized>(
    options: &DrawerOptions<R>,
    show: bool,
    classes: &DialogClasses,
    body: RespoNode<L, E>,
    on_backdrop: Rc<L>,
    stop_click: Rc<L>,
    on_esc: Rc<L>,
    fade: Rc<E>,
) -> (r: RespoNode<L, E>)
    ensures
        r@ == drawer_view(*options, show, *classes, body@, on_backdrop, stop_click, on_esc, fade),
{
    let title = text_or_default(&options.title, "drawer");
    custom_tree(
        "drawer",
        &classes.drawer_card,
        &title,
        &options.backdrop_style,
        &options.card_style,
        show,
        classes,
        body,
        on_backdrop,
        stop_click,
        on_esc,
        fade,
    )
}

/// The child at position `i` of an element, the tree of a component, or the shared tree.
pub open spec fn child_at<L: ?Sized, E: ?Sized>(v: NodeView<L, E>, i: int) -> NodeView<L, E> {
    match v {
        NodeView::Element { children, .. } => children[i].1,
        NodeView::Component { tree, .. } => *tree,
        NodeView::Referenced(t) => *t,
    }
}

/// The tag name of an element; empty for anything else.
pub open spec fn tag_of<L: ?Sized, E: ?Sized>(v: NodeView<L, E>) -> Seq<char> {
    match v {
        NodeView::Element { name, .. } => name,
        _ => Seq::empty(),
    }
}

/// The attributes of an element read as a map; empty for anything else.
pub open spec fn attrs_of<L: ?Sized, E: ?Sized>(v: NodeView<L, E>) -> Map<Seq<char>, Seq<char>> {
    match v {
        NodeView::Element { attrs, .. } => crate::pairs::last_wins(attrs),
        _ => Map::empty(),
    }
}

/// The field of a shown prompt: inside the component, its outer div, the backdrop, the
/// card and the card's body, the element holding the field.
pub open spec fn prompt_field<L: ?Sized, E: ?Sized>(v: NodeView<L, E>) -> NodeView<L, E> {
    child_at(child_at(child_at(child_at(child_at(child_at(v, 0), 0), 0), 0), 2), 0)
}

/// A shown prompt takes several lines of text in a `textarea` and one line in an `input`,
/// and the field holds the draft of the input state.
pub proof fn law_prompt_field<L: ?Sized, E: ?Sized, F: ?Sized>(
    options: PromptOptions<F>,
    input: InputState,
    classes: DialogClasses,
    ls: DialogListeners<L>,
    on_input: Rc<L>,
    fade: Rc<E>,
)
    ensures
        ({
            let field = prompt_field(prompt_modal_view::<L, E, F>(options, input, true, classes, ls, on_input, fade));
            &&& (tag_of(field) == "textarea"@) == options.multilines
            &&& (tag_of(field) == "input"@) == !options.multilines
            &&& attrs_of(field).contains_key("value"@)
            &&& attrs_of(field)["value"@] == input.draft@
        }),
{
    reveal_strlit("textarea");
    reveal_strlit("input");
    reveal_strlit("value");
    reveal_strlit("placeholder");
    reveal_strlit("class");
    assert("textarea"@.len() != "input"@.len());
    let v = prompt_modal_view::<L, E, F>(options, input, true, classes, ls, on_input, fade);
    let f = prompt_input_view::<L, E>(options.multilines, classes.input@, input.draft@, on_input);
    let holder = el::<L, E>("div"@, Seq::empty(), Seq::empty(), Seq::empty(), seq![f]);
    assert(indexed(seq![f])[0] == (decimal(0), f));
    assert(child_at(holder, 0) == f);
    let body = seq![
        text_span_view::<L, E>(text_or(opt_text(options.text), "input message"@)),
        space_view::<L, E>(),
        holder,
        prompt_error_view::<L, E>(classes.error@, opt_text(input.error)),
        space_view::<L, E>(),
        button_row_view::<L, E>(classes.row_parted@, classes.button@, text_or(opt_text(options.button_text), "Submit"@), ls.on_press),
    ];
    let inner = el::<L, E>("div"@, Seq::empty(), Seq::empty(), Seq::empty(), body);
    assert(indexed(body)[2] == (decimal(2), holder));
    assert(child_at(inner, 2) == holder);
    let card = el::<L, E>(
        "div"@,
        seq![("class"@, classes.card@)],
        seq![("click"@, ls.stop_click)],
        seq![("line-height"@, "32px"@)] + options.card_style.rules() + options.input_style.rules(),
        seq![inner],
    );
    assert(indexed(seq![inner])[0] == (decimal(0), inner));
    assert(child_at(card, 0) == inner);
    let backdrop = el::<L, E>(
        "div"@,
        seq![("class"@, classes.backdrop@)],
        seq![("click"@, ls.on_backdrop)],
        options.backdrop_style.rules(),
        seq![card, esc_view::<L, E>(ls.on_esc)],
    );
    assert(indexed(seq![card, esc_view::<L, E>(ls.on_esc)])[0] == (decimal(0), card));
    assert(child_at(backdrop, 0) == card);
    let outer = el::<L, E>("div"@, Seq::empty(), Seq::empty(), seq![("position"@, "absolute"@)], seq![backdrop]);
    assert(indexed(seq![backdrop])[0] == (decimal(0), backdrop));
    assert(child_at(outer, 0) == backdrop);
    assert(child_at(v, 0) == outer);
    assert(prompt_field(v) == f);
    let attrs = seq![("value"@, input.draft@), ("placeholder"@, "Content..."@), ("class"@, classes.input@), ("value"@, input.draft@)];
    crate::pairs::lemma_last_wins_value(attrs, "value"@, 3);
}

proof fn lemma_el_child<L: ?Sized, E: ?Sized>(
    name: Seq<char>,
    attrs: Seq<(Seq<char>, Seq<char>)>,
    events: Seq<(Seq<char>, Rc<L>)>,
    style: Seq<(Seq<char>, Seq<char>)>,
    ch: Seq<NodeView<L, E>>,
    i: int,
)
    requires
        0 <= i < ch.len(),
    ensures
        child_at(el(name, attrs, events, style, ch), i) == ch[i],
{
    assert(indexed(ch)[i] == (decimal(i as nat), ch[i]));
}

/// The child at position `i` of the body of a dialog's card.
pub open spec fn card_body_at<L: ?Sized, E: ?Sized>(v: NodeView<L, E>, i: int) -> NodeView<L, E> {
    child_at(child_at(child_at(child_at(child_at(v, 0), 0), 0), 0), i)
}

proof fn lemma_frame<L: ?Sized, E: ?Sized>(
    name: Seq<char>,
    effects: Seq<Rc<E>>,
    show: bool,
    backdrop_class: Seq<char>,
    backdrop_style: Seq<(Seq<char>, Seq<char>)>,
    on_backdrop: Rc<L>,
    card_class: Seq<char>,
    card_style: Seq<(Seq<char>, Seq<char>)>,
    stop_click: Rc<L>,
    inner_attrs: Seq<(Seq<char>, Seq<char>)>,
    body: Seq<NodeView<L, E>>,
    on_esc: Rc<L>,
)
    ensures
        ({
            let v = frame_view(name, effects, show, backdrop_class, backdrop_style, on_backdrop, card_class, card_style, stop_click, inner_attrs, body, on_esc);
            &&& show ==> forall|i: int| 0 <= i < body.len() ==> #[trigger] card_body_at(v, i) == body[i]
            &&& !show ==> child_at(child_at(v, 0), 0) == placeholder_view::<L, E>()
        }),
{
    let v = frame_view(name, effects, show, backdrop_class, backdrop_style, on_backdrop, card_class, card_style, stop_click, inner_attrs, body, on_esc);
    let inner = el::<L, E>("div"@, inner_attrs, Seq::empty(), Seq::empty(), body);
    let card = el::<L, E>("div"@, seq![("class"@, card_class)], seq![("click"@, stop_click)], card_style, seq![inner]);
    let content = if show {
        el::<L, E>(
            "div"@,
            seq![("class"@, backdrop_class)],
            seq![("click"@, on_backdrop)],
            backdrop_style,
            seq![card, esc_view::<L, E>(on_esc)],
        )
    } else {
        placeholder_view::<L, E>()
    };
    let outer = el::<L, E>("div"@, Seq::empty(), Seq::empty(), seq![("position"@, "absolute"@)], seq![content]);
    assert(child_at(v, 0) == outer);
    lemma_el_child("div"@, Seq::<(Seq<char>, Seq<char>)>::empty(), Seq::<(Seq<char>, Rc<L>)>::empty(), seq![("position"@, "absolute"@)], seq![content], 0);
    if show {
        lemma_el_child("div"@, seq![("class"@, backdrop_class)], seq![("click"@, on_backdrop)], backdrop_style, seq![card, esc_view::<L, E>(on_esc)], 0);
        lemma_el_child("div"@, seq![("class"@, card_class)], seq![("click"@, stop_click)], card_style, seq![inner], 0);
        assert forall|i: int| 0 <= i < body.len() implies #[trigger] card_body_at(v, i) == body[i] by {
            lemma_el_child("div"@, inner_attrs, Seq::<(Seq<char>, Rc<L>)>::empty(), Seq::<(Seq<char>, Seq<char>)>::empty(), body, i);
        }
    }
}

/// The button of a dialog, in the row at position `i` of the card's body.
pub open spec fn button_at<L: ?Sized, E: ?Sized>(v: NodeView<L, E>, i: int) -> NodeView<L, E> {
    child_at(card_body_at(v, i), 1)
}

proof fn lemma_button_row<L: ?Sized, E: ?Sized>(row_class: Seq<char>, button_class: Seq<char>, label: Seq<char>, on_press: Rc<L>)
    ensures
        attrs_of(child_at(button_row_view::<L, E>(row_class, button_class, label, on_press), 1)).contains_key("innerText"@),
        attrs_of(child_at(button_row_view::<L, E>(row_class, button_class, label, on_press), 1))["innerText"@] == label,
{
    reveal_strlit("class");
    reveal_strlit("innerText");
    let b = el::<L, E>("button"@, seq![("class"@, button_class), ("innerText"@, label)], seq![("click"@, on_press)], Seq::empty(), Seq::empty());
    lemma_el_child(
        "div"@,
        seq![("class"@, row_class)],
        Seq::<(Seq<char>, Rc<L>)>::empty(),
        Seq::<(Seq<char>, Seq<char>)>::empty(),
        seq![el::<L, E>("span"@, Seq::empty(), Seq::empty(), Seq::empty(), Seq::empty()), b],
        1,
    );
    crate::pairs::lemma_last_wins_value(seq![("class"@, button_class), ("innerText"@, label)], "innerText"@, 1);
}

proof fn lemma_text_span<L: ?Sized, E: ?Sized>(text: Seq<char>)
    ensures
        attrs_of(text_span_view::<L, E>(text)).contains_key("innerText"@),
        attrs_of(text_span_view::<L, E>(text))["innerText"@] == text,
{
    crate::pairs::lemma_last_wins_value(seq![("innerText"@, text)], "innerText"@, 0);
}

proof fn lemma_placeholder<L: ?Sized, E: ?Sized>()
    ensures
        tag_of(placeholder_view::<L, E>()) == "span"@,
        attrs_of(placeholder_view::<L, E>()).contains_key("data-name"@),
        attrs_of(placeholder_view::<L, E>())["data-name"@] == "placeholder"@,
{
    crate::pairs::lemma_last_wins_value(seq![("data-name"@, "placeholder"@)], "data-name"@, 0);
}

/// A shown alert shows its message, or `Alert!`, and its button text, or `Read`; a hidden
/// one is the placeholder span.
pub proof fn law_alert_texts<L: ?Sized, E: ?Sized>(
    options: AlertOptions,
    show: bool,
    classes: DialogClasses,
    ls: DialogListeners<L>,
    focus: Rc<E>,
    fade: Rc<E>,
)
    ensures
        ({
            let v = alert_modal_view::<L, E>(options, show, classes, ls, focus, fade);
            &&& show ==> attrs_of(card_body_at(v, 0))["innerText"@] == text_or(opt_text(options.text), "Alert!"@)
            &&& show ==> attrs_of(button_at(v, 2))["innerText"@] == text_or(opt_text(options.button_text), "Read"@)
            &&& !show ==> tag_of(child_at(child_at(v, 0), 0)) == "span"@ && attrs_of(child_at(child_at(v, 0), 0))["data-name"@]
                == "placeholder"@
        }),
{
    let msg = text_or(opt_text(options.text), "Alert!"@);
    let label = text_or(opt_text(options.button_text), "Read"@);
    lemma_frame::<L, E>(
        "alert-modal"@,
        seq![focus, fade],
        show,
        classes.backdrop@,
        options.backdrop_style.rules(),
        ls.on_backdrop,
        classes.card@,
        seq![("line-height"@, "32px"@)] + options.card_style.rules(),
        ls.stop_click,
        Seq::empty(),
        seq![text_span_view(msg), space_view(), button_row_view(classes.row_parted@, classes.button@, label, ls.on_press)],
        ls.on_esc,
    );
    lemma_text_span::<L, E>(msg);
    lemma_button_row::<L, E>(classes.row_parted@, classes.button@, label, ls.on_press);
    lemma_placeholder::<L, E>();
}

/// A shown confirm dialog shows its message, or `Need confirmation...`, and its button
/// text, or `Confirm`; a hidden one is the placeholder span.
pub proof fn law_confirm_texts<L: ?Sized, E: ?Sized>(
    options: ConfirmOptions,
    show: bool,
    classes: DialogClasses,
    ls: DialogListeners<L>,
    focus: Rc<E>,
    fade: Rc<E>,
)
    ensures
        ({
            let v = confirm_modal_view::<L, E>(options, show, classes, ls, focus, fade);
            &&& show ==> attrs_of(card_body_at(v, 0))["innerText"@] == text_or(opt_text(options.text), "Need confirmation..."@)
            &&& show ==> attrs_of(button_at(v, 2))["innerText"@] == text_or(opt_text(options.button_text), "Confirm"@)
            &&& !show ==> tag_of(child_at(child_at(v, 0), 0)) == "span"@ && attrs_of(child_at(child_at(v, 0), 0))["data-name"@]
                == "placeholder"@
        }),
{
    let msg = text_or(opt_text(options.text), "Need confirmation..."@);
    let label = text_or(opt_text(options.button_text), "Confirm"@);
    lemma_frame::<L, E>(
        "confirm-modal"@,
        seq![focus, fade],
        show,
        classes.backdrop@,
        options.backdrop_style.rules(),
        ls.on_backdrop,
        classes.card@,
        seq![("line-height"@, "32px"@)] + options.card_style.rules(),
        ls.stop_click,
        Seq::empty(),
        seq![text_span_view(msg), space_view(), button_row_view(classes.row_parted@, classes.button@, label, ls.on_press)],
        ls.on_esc,
    );
    lemma_text_span::<L, E>(msg);
    lemma_button_row::<L, E>(classes.row_parted@, classes.button@, label, ls.on_press);
    lemma_placeholder::<L, E>();
}

/// A shown prompt shows its hint, or `input message`, and its button text, or `Submit`; a
/// hidden one is the placeholder span.
pub proof fn law_prompt_texts<L: ?Sized, E: ?Sized, F: ?Sized>(
    options: PromptOptions<F>,
    input: InputState,
    show: bool,
    classes: DialogClasses,
    ls: DialogListeners<L>,
    on_input: Rc<L>,
    fade: Rc<E>,
)
    ensures
        ({
            let v = prompt_modal_view::<L, E, F>(options, input, show, classes, ls, on_input, fade);
            &&& show ==> attrs_of(card_body_at(v, 0))["innerText"@] == text_or(opt_text(options.text), "input message"@)
            &&& show ==> attrs_of(button_at(v, 5))["innerText"@] == text_or(opt_text(options.button_text), "Submit"@)
            &&& !show ==> tag_of(child_at(child_at(v, 0), 0)) == "span"@ && attrs_of(child_at(child_at(v, 0), 0))["data-name"@]
                == "placeholder"@
        }),
{
    let msg = text_or(opt_text(options.text), "input message"@);
    let label = text_or(opt_text(options.button_text), "Submit"@);
    lemma_frame::<L, E>(
        "prompt-modal"@,
        seq![fade],
        show,
        classes.backdrop@,
        options.backdrop_style.rules(),
        ls.on_backdrop,
        classes.card@,
        seq![("line-height"@, "32px"@)] + options.card_style.rules() + options.input_style.rules(),
        ls.stop_click,
        Seq::empty(),
        seq![
            text_span_view(msg),
            space_view(),
            el("div"@, Seq::empty(), Seq::empty(), Seq::empty(), seq![prompt_input_view(options.multilines, classes.input@, input.draft@, on_input)]),
            prompt_error_view(classes.error@, opt_text(input.error)),
            space_view(),
            button_row_view(classes.row_parted@, classes.button@, label, ls.on_press),
        ],
        ls.on_esc,
    );
    lemma_text_span::<L, E>(msg);
    lemma_button_row::<L, E>(classes.row_parted@, classes.button@, label, ls.on_press);
    lemma_placeholder::<L, E>();
}

} // verus!
