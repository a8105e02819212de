//! Tiny virtual DOM library: typed CSS rules, element and component trees,
//! tree diffing into DOM changes, and a tree of component states.

pub mod text;
pub mod css_values;
pub mod css;
pub mod style_sheet;
pub mod pairs;
pub mod node;
pub mod dom_change;
pub mod diff_spec;
pub mod diff;
pub mod delta;
pub mod laws;
pub mod states_tree;
pub mod renderer;
pub mod dispatch;
pub mod cirru;
pub mod dialog;
pub mod dialog_view;
pub mod store;
