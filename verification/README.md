# respo

A tiny virtual DOM library: element and component trees, typed CSS rules, diffing a new
tree against the previous one into DOM changes, and a tree of component states — written
in Verus, with the behaviour of each function stated in its contract and proved.

## Layout

- `src/` — the verified library.
  - `node.rs`: trees of elements, components and shared subtrees, their builders, and
    their views (`NodeView`).
  - `css_values.rs`, `css.rs`, `style_sheet.rs`, `text.rs`: CSS keywords and colors, inline
    styles, style sheets for class names, and decimal/hexadecimal numerals.
  - `diff_spec.rs`: what diffing yields, as spec functions over tree views.
  - `diff.rs`, `delta.rs`: diffing trees, children, attributes, styles and listeners, and
    collecting component effects. For every effect type the changes are as `diff_ok` in
    `diff_spec.rs` allows (effect comparisons are the effect type's own); where effects
    compare as their `eq_spec` says and each equals itself, exactly `spec_diff`.
  - `laws.rs`: what the changes promise — applying them turns the old attributes, styles,
    listeners and child keys into the new ones; children with the same keys get no list
    change; a matched component records its effect updates; a tree diffed against itself
    gives nothing; both orders of collecting effects visit the same places.
  - `states_tree.rs`: the states tree; setting a state changes exactly the path to it
    (`set_view`), reading back what was set, and cursors that stay the paths to their branches.
  - `renderer.rs`: finding the node and listener an event is meant for, the re-render flag,
    and how each attribute is written to the DOM.
  - `dialog.rs`, `dispatch.rs`, `cirru.rs`: dialog, modal and drawer options, state
    transitions and the order of the steps of an answer (next tasks included), dispatching
    actions, and trees and changes as Cirru data.
  - `dialog_view.rs`: the trees of the alert, confirm and prompt dialogs, the modal and the
    drawer, each stated exactly as a spec function of its options, state and listeners.
  - `store.rs`: the store of the example application — counter and task actions, intents,
    what the counter and task buttons dispatch, and the check of the prompt's input.
- `tests/` — tests of the library on concrete values.
- `app/` — the browser side: DOM building and patching, events, the render loop, CSS with
  fractional sizes, saving states with serde, and the listeners and effects of the dialog,
  modal and drawer components.
