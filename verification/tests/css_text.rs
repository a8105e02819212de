use respo::css::{respo_style, RespoStyle};
use respo::css_values::{
    CssBoxSizing, CssColor, CssDisplay, CssFlexAlignItems, CssFlexDirection, CssFlexJustifyContent, CssFlexWrap,
    CssFontStyle, CssFontWeight, CssOverflow, CssPosition, CssTextAlign, CssTextDecoration, CssTimingFunction,
};
use respo::style_sheet::{contained_style_text, css_name_from_path, static_style_text, StyleRegistry};
use respo::text::{decimal_string, signed_decimal_string};

#[test]
fn keyword_values_render_as_css() {
    assert_eq!(CssPosition::Absolute.to_css_string(), "absolute");
    assert_eq!(CssDisplay::DisplayNone.to_css_string(), "none");
    assert_eq!(CssDisplay::FlexColumn.to_css_string(), "flex-column");
    assert_eq!(CssFlexJustifyContent::SpaceBetween.to_css_string(), "space-between");
    assert_eq!(CssFlexAlignItems::Baseline.to_css_string(), "baseline");
    assert_eq!(CssTimingFunction::EaseInOut.to_css_string(), "ease-in-out");
    assert_eq!(CssTextDecoration::NoDecoration.to_css_string(), "none");
    assert_eq!(CssBoxSizing::BorderBox.to_css_string(), "border-box");
    assert_eq!(CssFontStyle::Italic.to_css_string(), "italic");
    assert_eq!(CssFlexWrap::WrapReverse.to_css_string(), "wrap-reverse");
    assert_eq!(CssFlexDirection::ColumnReverse.to_css_string(), "column-reverse");
    assert_eq!(CssOverflow::Hidden.to_css_string(), "hidden");
    assert_eq!(CssTextAlign::Justify.to_css_string(), "justify");
}

#[test]
fn font_weight_numbers_are_decimal() {
    assert_eq!(CssFontWeight::Weight(700).to_css_string(), "700");
    assert_eq!(CssFontWeight::Weight(0).to_css_string(), "0");
    assert_eq!(CssFontWeight::Bold.to_css_string(), "bold");
}

#[test]
fn colors_render_as_css() {
    assert_eq!(CssColor::Hsl(200, 80, 50).to_css_string(), "hsl(200, 80%, 50%)");
    assert_eq!(CssColor::Rgb(10, 20, 30).to_css_string(), "rgb(10, 20, 30)");
    assert_eq!(CssColor::Hex(255, 0, 10).to_css_string(), "#ff000a");
    assert_eq!(CssColor::Red.to_css_string(), "red");
}

#[test]
fn numerals() {
    assert_eq!(decimal_string(0), "0");
    assert_eq!(decimal_string(1234567890), "1234567890");
    assert_eq!(signed_decimal_string(-42), "-42");
    assert_eq!(signed_decimal_string(7), "7");
}

#[test]
fn style_declarations_in_order() {
    let s = respo_style()
        .position(CssPosition::Relative)
        .display(CssDisplay::Flex)
        .z_index(-3)
        .color(CssColor::Hex(1, 2, 3))
        .cursor("pointer");
    assert_eq!(s.len(), 5);
    assert!(!s.is_empty());
    assert_eq!(
        s.to_css_string(),
        "position: relative;\ndisplay: flex;\nz-index: -3;\ncolor: #010203;\ncursor: pointer;\n"
    );
    assert!(respo_style().is_empty());
    assert_eq!(RespoStyle::default().to_css_string(), "");
}

#[test]
fn style_builders_use_property_names() {
    let s = respo_style()
        .font_weight(CssFontWeight::Weight(300))
        .transform_origin("left top".to_owned())
        .box_sizing(CssBoxSizing::ContentBox)
        .text_decoration(CssTextDecoration::Underline)
        .flex_wrap(CssFlexWrap::Wrap)
        .justify_content(CssFlexJustifyContent::Center);
    assert_eq!(
        s.to_css_string(),
        "font-weight: 300;\ntranform-origin: left top;\nbox-sizing: content-box;\ntext-decoration: underline;\nflex-wrap: wrap;\njustify-content: center;\n"
    );
}

#[test]
fn style_extend_keeps_both() {
    let a = respo_style().insert("color", "red".to_owned());
    let b = respo_style().insert("color", "blue".to_owned());
    let c = a.extend(b);
    assert_eq!(c.to_css_string(), "color: red;\ncolor: blue;\n");
}

#[test]
fn render_rules_blocks() {
    let rules = vec![
        ("$0".to_owned(), respo_style().insert("color", "red".to_owned())),
        ("$0:hover".to_owned(), respo_style()),
    ];
    assert_eq!(RespoStyle::render_rules(&rules), "$0 {\ncolor: red;\n\n}$0:hover {\n\n}");
}

#[test]
fn css_names_from_paths() {
    assert_eq!(css_name_from_path("src/ui/dialog.rs"), "ui_dialog");
    assert_eq!(css_name_from_path("app::comp.x"), "app_comp_x");
    assert_eq!(css_name_from_path("plain"), "plain");
    assert_eq!(css_name_from_path("src/a::b/c.rs"), "a_b_c");
}

#[test]
fn static_sheet_replaces_placeholders() {
    let rules = vec![
        ("$0".to_owned(), respo_style().insert("color", "red".to_owned())),
        ("&:hover".to_owned(), respo_style().insert("color", "blue".to_owned())),
    ];
    assert_eq!(
        static_style_text("btn", &rules),
        ".btn {\ncolor: red;\n}\n.btn:hover {\ncolor: blue;\n}\n"
    );
}

#[test]
fn contained_sheet_wraps_only_its_rule() {
    let rules = vec![
        (None, "$0".to_owned(), respo_style().insert("color", "red".to_owned())),
        (Some("@media (x)".to_owned()), "$0".to_owned(), respo_style()),
    ];
    assert_eq!(
        contained_style_text("c", &rules),
        ".c {\ncolor: red;\n}\n@media (x) {\n.c {\n}\n\n}"
    );
    let doc = vec![
        (None, "&".to_owned(), respo_style().insert("width", "1px".to_owned())),
        (Some("@media m".to_owned()), "&".to_owned(), respo_style().insert("width", "2px".to_owned())),
    ];
    assert_eq!(
        contained_style_text("x", &doc),
        ".x {\nwidth: 1px;\n}\n@media m {\n.x {\nwidth: 2px;\n}\n\n}"
    );
}

#[test]
fn registry_produces_each_sheet_once() {
    let mut reg = StyleRegistry::new();
    let rules = vec![("$0".to_owned(), respo_style().insert("top", "0".to_owned()))];
    assert!(!reg.is_defined("k"));
    assert_eq!(reg.declare_static_style("k", &rules), Some(".k {\ntop: 0;\n}\n".to_owned()));
    assert!(reg.is_defined("k"));
    assert_eq!(reg.declare_static_style("k", &rules), None);
    let crules = vec![(None, "$0".to_owned(), respo_style())];
    assert_eq!(reg.declare_contained_style("k", &crules), None);
    assert_eq!(reg.declare_contained_style("j", &crules), Some(".j {\n}\n".to_owned()));
}
