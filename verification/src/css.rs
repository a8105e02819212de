//! Inline styles and style sheets written in Rust.
//!
//! A [`RespoStyle`] is an ordered list of CSS declarations; builder methods append
//! declarations, and the rendering functions produce the text of a `style` attribute
//! or of a style sheet.

use vstd::prelude::*;
use vstd::string::*;

pub use crate::css_values::{
    CssBorderStyle, CssBoxSizing, CssColor, CssDisplay, CssFlexAlignItems, CssFlexDirection, CssFlexJustifyContent,
    CssFlexWrap, CssFontStyle, CssFontWeight, CssOverflow, CssPosition, CssTextAlign, CssTextDecoration, CssTextOverflow,
    CssTimingFunction, CssVerticalAlign,
};
use crate::text::{append_str, signed_decimal, signed_decimal_string};

verus! {

/// Ordered CSS declarations as property/value pairs.
/// A property may occur several times; the later value is the one that takes effect.
#[derive(Debug, Clone, PartialEq, Eq)]
pub struct RespoStyle(pub Vec<(String, String)>);

/// The text of declarations, one `property: value;` line each.
pub open spec fn declarations_text(rules: Seq<(Seq<char>, Seq<char>)>) -> Seq<char>
    decreases rules.len(),
{
    if rules.len() == 0 {
        Seq::empty()
    } else {
        declarations_text(rules.drop_last()) + rules.last().0 + ": "@ + rules.last().1 + ";\n"@
    }
}

/// The text of one rule of a style sheet: `query {`, the declarations, `}`.
pub open spec fn rule_block_text(query: Seq<char>, rules: Seq<(Seq<char>, Seq<char>)>) -> Seq<char> {
    query + " {\n"@ + declarations_text(rules) + "\n}"@
}

/// The text of a list of rules, one block after the other.
pub open spec fn rule_blocks_text(blocks: Seq<(String, RespoStyle)>) -> Seq<char>
    decreases blocks.len(),
{
    if blocks.len() == 0 {
        Seq::empty()
    } else {
        rule_blocks_text(blocks.drop_last()) + rule_block_text(blocks.last().0@, blocks.last().1.rules())
    }
}

/// The empty style.
pub fn respo_style() -> (r: RespoStyle)
    ensures
        r.rules() == Seq::<(Seq<char>, Seq<char>)>::empty(),
{
    RespoStyle::default()
}

impl Default for RespoStyle {
    fn default() -> (r: Self)
        ensures
            r.rules() == Seq::<(Seq<char>, Seq<char>)>::empty(),
    {
        RespoStyle(Vec::new())
    }
}

impl RespoStyle {
    /// The declarations as property/value texts, in order.
    pub open spec fn rules(&self) -> Seq<(Seq<char>, Seq<char>)> {
        self.0@.map_values(|p: (String, String)| (p.0@, p.1@))
    }

    /// Appends a declaration.
    pub fn insert(self, property: &str, value: String) -> (r: Self)
        ensures
            r.rules() == self.rules().push((property@, value@)),
    {
        let mut xs = self.0;
        let ghost before = xs@;
        xs.push((property.to_owned(), value));
        proof {
            assert(xs@.map_values(|p: (String, String)| (p.0@, p.1@)) =~= before.map_values(
                |p: (String, String)| (p.0@, p.1@),
            ).push((property@, value@)));
        }
        RespoStyle(xs)
    }

    /// A copy of the declarations.
    pub fn copy_style(&self) -> (r: Self)
        ensures
            r.rules() == self.rules(),
    {
        let mut xs: Vec<(String, String)> = Vec::new();
        let mut i: usize = 0;
        while i < self.0.len()
            invariant
                i <= self.0@.len(),
                RespoStyle(xs).rules() == self.rules().subrange(0, i as int),
            decreases self.0@.len() - i,
        {
            let ghost before = xs@;
            xs.push((self.0[i].0.clone(), self.0[i].1.clone()));
            proof {
                assert(xs@.map_values(|p: (String, String)| (p.0@, p.1@)) =~= before.map_values(
                    |p: (String, String)| (p.0@, p.1@),
                ).push((self.0@[i as int].0@, self.0@[i as int].1@)));
                assert(self.rules().subrange(0, i + 1) =~= self.rules().subrange(0, i as int).push(
                    (self.0@[i as int].0@, self.0@[i as int].1@),
                ));
            }
            i = i + 1;
        }
        proof {
            assert(self.rules().subrange(0, self.0@.len() as int) =~= self.rules());
        }
        RespoStyle(xs)
    }

    /// Number of declarations.
    pub fn len(&self) -> (n: usize)
        ensures
            n == self.rules().len(),
    {
        self.0.len()
    }

    /// Whether there is no declaration.
    pub fn is_empty(&self) -> (b: bool)
        ensures
            b == (self.rules().len() == 0),
    {
        self.0.len() == 0
    }

    /// Appends the declarations of `more` after those of `self`.
    pub fn extend(self, more: RespoStyle) -> (r: Self)
        ensures
            r.rules() == self.rules() + more.rules(),
    {
        let mut xs = self.0;
        let ghost start = self.rules();
        let mut i: usize = 0;
        while i < more.0.len()
            invariant
                i <= more.0@.len(),
                RespoStyle(xs).rules() == start + more.rules().subrange(0, i as int),
            decreases more.0@.len() - i,
        {
            let (k, v) = &more.0[i];
            let ghost before = xs@;
            xs.push((k.clone(), v.clone()));
            proof {
                assert(xs@.map_values(|p: (String, String)| (p.0@, p.1@)) =~= before.map_values(
                    |p: (String, String)| (p.0@, p.1@),
                ).push((k@, v@)));
                assert(more.rules().subrange(0, i + 1) =~= more.rules().subrange(0, i as int).push(
                    (k@, v@),
                ));
            }
            i = i + 1;
        }
        proof {
            assert(more.rules().subrange(0, more.0@.len() as int) =~= more.rules());
        }
        RespoStyle(xs)
    }

    /// The text of the declarations, one `property: value;` line each,
    /// as used in a `style` attribute.
    pub fn to_css_string(&self) -> (s: String)
        ensures
            s@ == declarations_text(self.rules()),
    {
        let mut s = String::new();
        let mut i: usize = 0;
        while i < self.0.len()
            invariant
                i <= self.0@.len(),
                s@ == declarations_text(self.rules().subrange(0, i as int)),
            decreases self.0@.len() - i,
        {
            let (k, v) = &self.0[i];
            append_str(&mut s, k.as_str());
            append_str(&mut s, ": ");
            append_str(&mut s, v.as_str());
            append_str(&mut s, ";\n");
            proof {
                let sub = self.rules().subrange(0, i + 1);
                assert(sub.drop_last() =~= self.rules().subrange(0, i as int));
            }
            i = i + 1;
        }
        proof {
            assert(self.rules().subrange(0, self.0@.len() as int) =~= self.rules());
        }
        s
    }

    /// Renders rules of a style sheet, each as `query {`, its declarations and `}`.
    pub fn render_rules(rules: &[(String, Self)]) -> (s: String)
        ensures
            s@ == rule_blocks_text(rules@),
    {
        let mut s = String::new();
        let mut i: usize = 0;
        while i < rules.len()
            invariant
                i <= rules@.len(),
                s@ == rule_blocks_text(rules@.subrange(0, i as int)),
            decreases rules@.len() - i,
        {
            let (query, value) = &rules[i];
            append_str(&mut s, query.as_str());
            append_str(&mut s, " {\n");
            let body = value.to_css_string();
            append_str(&mut s, body.as_str());
            append_str(&mut s, "\n}");
            proof {
                let sub = rules@.subrange(0, i + 1);
                assert(sub.drop_last() =~= rules@.subrange(0, i as int));
            }
            i = i + 1;
        }
        proof {
            assert(rules@.subrange(0, rules@.len() as int) =~= rules@);
        }
        s
    }
    /// Appends the declaration `overflow`.
    pub fn overflow(self, rule: CssOverflow) -> (r: Self)
        ensures
            r.rules() == self.rules().push(("overflow"@, rule.css_text())),
    {
        self.insert("overflow", rule.to_css_string())
    }

    /// Appends the declaration `background-color`.
    pub fn background_color(self, color: CssColor) -> (r: Self)
        ensures
            r.rules() == self.rules().push(("background-color"@, color.css_text())),
    {
        self.insert("background-color", color.to_css_string())
    }

    /// Appends the declaration `background-image`.
    pub fn background_image(self, image: String) -> (r: Self)
        ensures
            r.rules() == self.rules().push(("background-image"@, image@)),
    {
        self.insert("background-image", image)
    }

    /// Appends the declaration `background-filter`.
    pub fn background_filter(self, f: String) -> (r: Self)
        ensures
            r.rules() == self.rules().push(("background-filter"@, f@)),
    {
        self.insert("background-filter", f)
    }

    /// Appends the declaration `color`.
    pub fn color(self, color: CssColor) -> (r: Self)
        ensures
            r.rules() == self.rules().push(("color"@, color.css_text())),
    {
        self.insert("color", color.to_css_string())
    }

    /// Appends the declaration `border-color`.
    pub fn border_color(self, color: CssColor) -> (r: Self)
        ensures
            r.rules() == self.rules().push(("border-color"@, color.css_text())),
    {
        self.insert("border-color", color.to_css_string())
    }

    /// Appends the declaration `font-family`.
    pub fn font_family(self, font: String) -> (r: Self)
        ensures
            r.rules() == self.rules().push(("font-family"@, font@)),
    {
        self.insert("font-family", font)
    }

    /// Appends the declaration `font-style`.
    pub fn font_style(self, style: CssFontStyle) -> (r: Self)
        ensures
            r.rules() == self.rules().push(("font-style"@, style.css_text())),
    {
        self.insert("font-style", style.to_css_string())
    }

    /// Appends the declaration `font-weight`.
    pub fn font_weight(self, weight: CssFontWeight) -> (r: Self)
        ensures
            r.rules() == self.rules().push(("font-weight"@, weight.css_text())),
    {
        self.insert("font-weight", weight.to_css_string())
    }

    /// Appends the declaration `text-align`.
    pub fn text_align(self, align: CssTextAlign) -> (r: Self)
        ensures
            r.rules() == self.rules().push(("text-align"@, align.css_text())),
    {
        self.insert("text-align", align.to_css_string())
    }

    /// Appends the declaration `vertical-align`.
    pub fn vertical_align(self, align: CssVerticalAlign) -> (r: Self)
        ensures
            r.rules() == self.rules().push(("vertical-align"@, align.css_text())),
    {
        self.insert("vertical-align", align.to_css_string())
    }

    /// Appends the declaration `text-overflow`.
    pub fn text_overflow(self, overflow: CssTextOverflow) -> (r: Self)
        ensures
            r.rules() == self.rules().push(("text-overflow"@, overflow.css_text())),
    {
        self.insert("text-overflow", overflow.to_css_string())
    }

    /// Appends the declaration `cursor`.
    pub fn cursor(self, cursor: &str) -> (r: Self)
        ensures
            r.rules() == self.rules().push(("cursor"@, cursor@)),
    {
        self.insert("cursor", cursor.to_owned())
    }

    /// Appends the declaration `display`.
    pub fn display(self, display: CssDisplay) -> (r: Self)
        ensures
            r.rules() == self.rules().push(("display"@, display.css_text())),
    {
        self.insert("display", display.to_css_string())
    }

    /// Appends the declaration `flex-direction`.
    pub fn flex_direction(self, direction: CssFlexDirection) -> (r: Self)
        ensures
            r.rules() == self.rules().push(("flex-direction"@, direction.css_text())),
    {
        self.insert("flex-direction", direction.to_css_string())
    }

    /// Appends the declaration `flex-wrap`.
    pub fn flex_wrap(self, wrap: CssFlexWrap) -> (r: Self)
        ensures
            r.rules() == self.rules().push(("flex-wrap"@, wrap.css_text())),
    {
        self.insert("flex-wrap", wrap.to_css_string())
    }

    /// Appends the declaration `justify-content`.
    pub fn justify_content(self, content: CssFlexJustifyContent) -> (r: Self)
        ensures
            r.rules() == self.rules().push(("justify-content"@, content.css_text())),
    {
        self.insert("justify-content", content.to_css_string())
    }

    /// Appends the declaration `align-items`.
    pub fn align_items(self, items: CssFlexAlignItems) -> (r: Self)
        ensures
            r.rules() == self.rules().push(("align-items"@, items.css_text())),
    {
        self.insert("align-items", items.to_css_string())
    }

    /// Appends the declaration `position`.
    pub fn position(self, position: CssPosition) -> (r: Self)
        ensures
            r.rules() == self.rules().push(("position"@, position.css_text())),
    {
        self.insert("position", position.to_css_string())
    }

    /// Appends the declaration `z-index`.
    pub fn z_index(self, z_index: i32) -> (r: Self)
        ensures
            r.rules() == self.rules().push(("z-index"@, signed_decimal(z_index as int))),
    {
        self.insert("z-index", signed_decimal_string(z_index as i64))
    }

    /// Appends the declaration `tranform-origin`.
    pub fn transform_origin(self, origin: String) -> (r: Self)
        ensures
            r.rules() == self.rules().push(("tranform-origin"@, origin@)),
    {
        self.insert("tranform-origin", origin)
    }

    /// Appends the declaration `transition-timing-function`.
    pub fn transform_timing_function(self, function: CssTimingFunction) -> (r: Self)
        ensures
            r.rules() == self.rules().push(("transition-timing-function"@, function.css_text())),
    {
        self.insert("transition-timing-function", function.to_css_string())
    }

    /// Appends the declaration `transition-property`.
    pub fn transform_property(self, property: String) -> (r: Self)
        ensures
            r.rules() == self.rules().push(("transition-property"@, property@)),
    {
        self.insert("transition-property", property)
    }

    /// Appends the declaration `box-sizing`.
    pub fn box_sizing(self, box_sizing: CssBoxSizing) -> (r: Self)
        ensures
            r.rules() == self.rules().push(("box-sizing"@, box_sizing.css_text())),
    {
        self.insert("box-sizing", box_sizing.to_css_string())
    }

    /// Appends the declaration `text-decoration`.
    pub fn text_decoration(self, decoration: CssTextDecoration) -> (r: Self)
        ensures
            r.rules() == self.rules().push(("text-decoration"@, decoration.css_text())),
    {
        self.insert("text-decoration", decoration.to_css_string())
    }
}

} // verus!
