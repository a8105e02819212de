//! Keyword values of CSS properties and their textual form.

use vstd::prelude::*;
use vstd::string::*;

use crate::text::{append_decimal, append_hex_padded2, append_str, decimal, hex_padded2};

verus! {

/// Positioning scheme of an element (`position`).
#[derive(Debug, Clone, Copy, PartialEq, Eq)]
pub enum CssPosition {
    Static,
    Relative,
    Absolute,
    Fixed,
}

impl CssPosition {
    /// The CSS text of this value.
    pub open spec fn css_text(&self) -> Seq<char> {
        match self {
            CssPosition::Static => "static"@,
            CssPosition::Relative => "relative"@,
            CssPosition::Absolute => "absolute"@,
            CssPosition::Fixed => "fixed"@,
        }
    }

    /// Renders the value as it is written in a style sheet.
    pub fn to_css_string(&self) -> (s: String)
        ensures
            s@ == self.css_text(),
    {
        match self {
            CssPosition::Static => String::from_str("static"),
            CssPosition::Relative => String::from_str("relative"),
            CssPosition::Absolute => String::from_str("absolute"),
            CssPosition::Fixed => String::from_str("fixed"),
        }
    }
}

/// Slant of a font (`font-style`).
#[derive(Debug, Clone, Copy, PartialEq, Eq)]
pub enum CssFontStyle {
    Normal,
    Italic,
    Oblique,
}

impl CssFontStyle {
    /// The CSS text of this value.
    pub open spec fn css_text(&self) -> Seq<char> {
        match self {
            CssFontStyle::Normal => "normal"@,
            CssFontStyle::Italic => "italic"@,
            CssFontStyle::Oblique => "oblique"@,
        }
    }

    /// Renders the value as it is written in a style sheet.
    pub fn to_css_string(&self) -> (s: String)
        ensures
            s@ == self.css_text(),
    {
        match self {
            CssFontStyle::Normal => String::from_str("normal"),
            CssFontStyle::Italic => String::from_str("italic"),
            CssFontStyle::Oblique => String::from_str("oblique"),
        }
    }
}

/// Display type of an element (`display`).
#[derive(Debug, Clone, Copy, PartialEq, Eq)]
pub enum CssDisplay {
    Flex,
    FlexColumn,
    FlexRow,
    FlexWrap,
    Inline,
    Block,
    InlineBlock,
    DisplayNone,
}

impl CssDisplay {
    /// The CSS text of this value.
    pub open spec fn css_text(&self) -> Seq<char> {
        match self {
            CssDisplay::Flex => "flex"@,
            CssDisplay::FlexColumn => "flex-column"@,
            CssDisplay::FlexRow => "flex-row"@,
            CssDisplay::FlexWrap => "flex-wrap"@,
            CssDisplay::Inline => "inline"@,
            CssDisplay::Block => "block"@,
            CssDisplay::InlineBlock => "inline-block"@,
            CssDisplay::DisplayNone => "none"@,
        }
    }

    /// Renders the value as it is written in a style sheet.
    pub fn to_css_string(&self) -> (s: String)
        ensures
            s@ == self.css_text(),
    {
        match self {
            CssDisplay::Flex => String::from_str("flex"),
            CssDisplay::FlexColumn => String::from_str("flex-column"),
            CssDisplay::FlexRow => String::from_str("flex-row"),
            CssDisplay::FlexWrap => String::from_str("flex-wrap"),
            CssDisplay::Inline => String::from_str("inline"),
            CssDisplay::Block => String::from_str("block"),
            CssDisplay::InlineBlock => String::from_str("inline-block"),
            CssDisplay::DisplayNone => String::from_str("none"),
        }
    }
}

/// Wrapping of flex items (`flex-wrap`).
#[derive(Debug, Clone, Copy, PartialEq, Eq)]
pub enum CssFlexWrap {
    NoWrap,
    Wrap,
    WrapReverse,
}

impl CssFlexWrap {
    /// The CSS text of this value.
    pub open spec fn css_text(&self) -> Seq<char> {
        match self {
            CssFlexWrap::NoWrap => "nowrap"@,
            CssFlexWrap::Wrap => "wrap"@,
            CssFlexWrap::WrapReverse => "wrap-reverse"@,
        }
    }

    /// Renders the value as it is written in a style sheet.
    pub fn to_css_string(&self) -> (s: String)
        ensures
            s@ == self.css_text(),
    {
        match self {
            CssFlexWrap::NoWrap => String::from_str("nowrap"),
            CssFlexWrap::Wrap => String::from_str("wrap"),
            CssFlexWrap::WrapReverse => String::from_str("wrap-reverse"),
        }
    }
}

/// Main axis of a flex container (`flex-direction`).
#[derive(Debug, Clone, Copy, PartialEq, Eq)]
pub enum CssFlexDirection {
    Row,
    RowReverse,
    Column,
    ColumnReverse,
}

impl CssFlexDirection {
    /// The CSS text of this value.
    pub open spec fn css_text(&self) -> Seq<char> {
        match self {
            CssFlexDirection::Row => "row"@,
            CssFlexDirection::RowReverse => "row-reverse"@,
            CssFlexDirection::Column => "column"@,
            CssFlexDirection::ColumnReverse => "column-reverse"@,
        }
    }

    /// Renders the value as it is written in a style sheet.
    pub fn to_css_string(&self) -> (s: String)
        ensures
            s@ == self.css_text(),
    {
        match self {
            CssFlexDirection::Row => String::from_str("row"),
            CssFlexDirection::RowReverse => String::from_str("row-reverse"),
            CssFlexDirection::Column => String::from_str("column"),
            CssFlexDirection::ColumnReverse => String::from_str("column-reverse"),
        }
    }
}

/// Vertical alignment of inline content (`vertical-align`).
#[derive(Debug, Clone, Copy, PartialEq, Eq)]
pub enum CssVerticalAlign {
    Top,
    Middle,
    Bottom,
}

impl CssVerticalAlign {
    /// The CSS text of this value.
    pub open spec fn css_text(&self) -> Seq<char> {
        match self {
            CssVerticalAlign::Top => "top"@,
            CssVerticalAlign::Middle => "middle"@,
            CssVerticalAlign::Bottom => "bottom"@,
        }
    }

    /// Renders the value as it is written in a style sheet.
    pub fn to_css_string(&self) -> (s: String)
        ensures
            s@ == self.css_text(),
    {
        match self {
            CssVerticalAlign::Top => String::from_str("top"),
            CssVerticalAlign::Middle => String::from_str("middle"),
            CssVerticalAlign::Bottom => String::from_str("bottom"),
        }
    }
}

/// Distribution of flex items on the main axis (`justify-content`).
#[derive(Debug, Clone, Copy, PartialEq, Eq)]
pub enum CssFlexJustifyContent {
    FlexStart,
    FlexEnd,
    Center,
    SpaceBetween,
    SpaceAround,
    SpaceEvenly,
}

impl CssFlexJustifyContent {
    /// The CSS text of this value.
    pub open spec fn css_text(&self) -> Seq<char> {
        match self {
            CssFlexJustifyContent::FlexStart => "flex-start"@,
            CssFlexJustifyContent::FlexEnd => "flex-end"@,
            CssFlexJustifyContent::Center => "center"@,
            CssFlexJustifyContent::SpaceBetween => "space-between"@,
            CssFlexJustifyContent::SpaceAround => "space-around"@,
            CssFlexJustifyContent::SpaceEvenly => "space-evenly"@,
        }
    }

    /// Renders the value as it is written in a style sheet.
    pub fn to_css_string(&self) -> (s: String)
        ensures
            s@ == self.css_text(),
    {
        match self {
            CssFlexJustifyContent::FlexStart => String::from_str("flex-start"),
            CssFlexJustifyContent::FlexEnd => String::from_str("flex-end"),
            CssFlexJustifyContent::Center => String::from_str("center"),
            CssFlexJustifyContent::SpaceBetween => String::from_str("space-between"),
            CssFlexJustifyContent::SpaceAround => String::from_str("space-around"),
            CssFlexJustifyContent::SpaceEvenly => String::from_str("space-evenly"),
        }
    }
}

/// Alignment of flex items on the cross axis (`align-items`).
#[derive(Debug, Clone, Copy, PartialEq, Eq)]
pub enum CssFlexAlignItems {
    FlexStart,
    FlexEnd,
    Center,
    Baseline,
    Stretch,
}

impl CssFlexAlignItems {
    /// The CSS text of this value.
    pub open spec fn css_text(&self) -> Seq<char> {
        match self {
            CssFlexAlignItems::FlexStart => "flex-start"@,
            CssFlexAlignItems::FlexEnd => "flex-end"@,
            CssFlexAlignItems::Center => "center"@,
            CssFlexAlignItems::Baseline => "baseline"@,
            CssFlexAlignItems::Stretch => "stretch"@,
        }
    }

    /// Renders the value as it is written in a style sheet.
    pub fn to_css_string(&self) -> (s: String)
        ensures
            s@ == self.css_text(),
    {
        match self {
            CssFlexAlignItems::FlexStart => String::from_str("flex-start"),
            CssFlexAlignItems::FlexEnd => String::from_str("flex-end"),
            CssFlexAlignItems::Center => String::from_str("center"),
            CssFlexAlignItems::Baseline => String::from_str("baseline"),
            CssFlexAlignItems::Stretch => String::from_str("stretch"),
        }
    }
}

/// Line style of a border or an outline.
#[derive(Debug, Clone, PartialEq, Eq)]
pub enum CssBorderStyle {
    Solid,
    Dashed,
    Dotted,
}

impl CssBorderStyle {
    /// The CSS text of this value.
    pub open spec fn css_text(&self) -> Seq<char> {
        match self {
            CssBorderStyle::Solid => "solid"@,
            CssBorderStyle::Dashed => "dashed"@,
            CssBorderStyle::Dotted => "dotted"@,
        }
    }

    /// Renders the value as it is written in a style sheet.
    pub fn to_css_string(&self) -> (s: String)
        ensures
            s@ == self.css_text(),
    {
        match self {
            CssBorderStyle::Solid => String::from_str("solid"),
            CssBorderStyle::Dashed => String::from_str("dashed"),
            CssBorderStyle::Dotted => String::from_str("dotted"),
        }
    }
}

/// Handling of overflowing content (`overflow`).
#[derive(Debug, Clone, Copy, PartialEq, Eq)]
pub enum CssOverflow {
    Visible,
    Hidden,
    Scroll,
    Auto,
}

impl CssOverflow {
    /// The CSS text of this value.
    pub open spec fn css_text(&self) -> Seq<char> {
        match self {
            CssOverflow::Visible => "visible"@,
            CssOverflow::Hidden => "hidden"@,
            CssOverflow::Scroll => "scroll"@,
            CssOverflow::Auto => "auto"@,
        }
    }

    /// Renders the value as it is written in a style sheet.
    pub fn to_css_string(&self) -> (s: String)
        ensures
            s@ == self.css_text(),
    {
        match self {
            CssOverflow::Visible => String::from_str("visible"),
            CssOverflow::Hidden => String::from_str("hidden"),
            CssOverflow::Scroll => String::from_str("scroll"),
            CssOverflow::Auto => String::from_str("auto"),
        }
    }
}

/// Easing of a transition (`transition-timing-function`).
#[derive(Debug, Clone, Copy, PartialEq, Eq, Hash)]
pub enum CssTimingFunction {
    Linear,
    Ease,
    EaseIn,
    EaseOut,
    EaseInOut,
    StepStart,
    StepEnd,
}

impl CssTimingFunction {
    /// The CSS text of this value.
    pub open spec fn css_text(&self) -> Seq<char> {
        match self {
            CssTimingFunction::Linear => "linear"@,
            CssTimingFunction::Ease => "ease"@,
            CssTimingFunction::EaseIn => "ease-in"@,
            CssTimingFunction::EaseOut => "ease-out"@,
            CssTimingFunction::EaseInOut => "ease-in-out"@,
            CssTimingFunction::StepStart => "step-start"@,
            CssTimingFunction::StepEnd => "step-end"@,
        }
    }

    /// Renders the value as it is written in a style sheet.
    pub fn to_css_string(&self) -> (s: String)
        ensures
            s@ == self.css_text(),
    {
        match self {
            CssTimingFunction::Linear => String::from_str("linear"),
            CssTimingFunction::Ease => String::from_str("ease"),
            CssTimingFunction::EaseIn => String::from_str("ease-in"),
            CssTimingFunction::EaseOut => String::from_str("ease-out"),
            CssTimingFunction::EaseInOut => String::from_str("ease-in-out"),
            CssTimingFunction::StepStart => String::from_str("step-start"),
            CssTimingFunction::StepEnd => String::from_str("step-end"),
        }
    }
}

/// Rendering of clipped text (`text-overflow`).
#[derive(Debug, Clone, PartialEq, Eq, Hash)]
pub enum CssTextOverflow {
    Clip,
    Ellipsis,
}

impl CssTextOverflow {
    /// The CSS text of this value.
    pub open spec fn css_text(&self) -> Seq<char> {
        match self {
            CssTextOverflow::Clip => "clip"@,
            CssTextOverflow::Ellipsis => "ellipsis"@,
        }
    }

    /// Renders the value as it is written in a style sheet.
    pub fn to_css_string(&self) -> (s: String)
        ensures
            s@ == self.css_text(),
    {
        match self {
            CssTextOverflow::Clip => String::from_str("clip"),
            CssTextOverflow::Ellipsis => String::from_str("ellipsis"),
        }
    }
}

/// Box model used for sizes (`box-sizing`).
#[derive(Debug, Clone, PartialEq, Eq, Hash)]
pub enum CssBoxSizing {
    ContentBox,
    BorderBox,
}

impl CssBoxSizing {
    /// The CSS text of this value.
    pub open spec fn css_text(&self) -> Seq<char> {
        match self {
            CssBoxSizing::ContentBox => "content-box"@,
            CssBoxSizing::BorderBox => "border-box"@,
        }
    }

    /// Renders the value as it is written in a style sheet.
    pub fn to_css_string(&self) -> (s: String)
        ensures
            s@ == self.css_text(),
    {
        match self {
            CssBoxSizing::ContentBox => String::from_str("content-box"),
            CssBoxSizing::BorderBox => String::from_str("border-box"),
        }
    }
}

/// Horizontal alignment of text (`text-align`).
#[derive(Debug, Clone, PartialEq, Eq, Hash)]
pub enum CssTextAlign {
    Left,
    Right,
    Center,
    Justify,
}

impl CssTextAlign {
    /// The CSS text of this value.
    pub open spec fn css_text(&self) -> Seq<char> {
        match self {
            CssTextAlign::Left => "left"@,
            CssTextAlign::Right => "right"@,
            CssTextAlign::Center => "center"@,
            CssTextAlign::Justify => "justify"@,
        }
    }

    /// Renders the value as it is written in a style sheet.
    pub fn to_css_string(&self) -> (s: String)
        ensures
            s@ == self.css_text(),
    {
        match self {
            CssTextAlign::Left => String::from_str("left"),
            CssTextAlign::Right => String::from_str("right"),
            CssTextAlign::Center => String::from_str("center"),
            CssTextAlign::Justify => String::from_str("justify"),
        }
    }
}

/// Decoration lines of text (`text-decoration`).
#[derive(Debug, Clone, PartialEq, Eq)]
pub enum CssTextDecoration {
    Underline,
    NoDecoration,
}

impl CssTextDecoration {
    /// The CSS text of this value.
    pub open spec fn css_text(&self) -> Seq<char> {
        match self {
            CssTextDecoration::Underline => "underline"@,
            CssTextDecoration::NoDecoration => "none"@,
        }
    }

    /// Renders the value as it is written in a style sheet.
    pub fn to_css_string(&self) -> (s: String)
        ensures
            s@ == self.css_text(),
    {
        match self {
            CssTextDecoration::Underline => String::from_str("underline"),
            CssTextDecoration::NoDecoration => String::from_str("none"),
        }
    }
}
/// Thickness of a font (`font-weight`): a keyword or a numeric weight.
#[derive(Debug, Clone, PartialEq, Eq, Hash)]
pub enum CssFontWeight {
    Normal,
    Bold,
    Bolder,
    Lighter,
    Weight(u32),
}

impl CssFontWeight {
    /// The CSS text of this value; a numeric weight is written in decimal.
    pub open spec fn css_text(&self) -> Seq<char> {
        match self {
            CssFontWeight::Normal => "normal"@,
            CssFontWeight::Bold => "bold"@,
            CssFontWeight::Bolder => "bolder"@,
            CssFontWeight::Lighter => "lighter"@,
            CssFontWeight::Weight(w) => decimal(*w as nat),
        }
    }

    /// Renders the value as it is written in a style sheet.
    pub fn to_css_string(&self) -> (s: String)
        ensures
            s@ == self.css_text(),
    {
        match self {
            CssFontWeight::Normal => String::from_str("normal"),
            CssFontWeight::Bold => String::from_str("bold"),
            CssFontWeight::Bolder => String::from_str("bolder"),
            CssFontWeight::Lighter => String::from_str("lighter"),
            CssFontWeight::Weight(w) => {
                let mut s = String::new();
                append_decimal(&mut s, *w as u64);
                assert(Seq::<char>::empty() + decimal(*w as nat) == decimal(*w as nat));
                s
            },
        }
    }
}

/// A color given by integer channels or by name.
/// Colors with fractional channels are written by the caller and inserted as text.
#[derive(Debug, Clone, Copy, PartialEq, Eq)]
pub enum CssColor {
    /// hue 0~360, saturation 0~100, lightness 0~100
    Hsl(u16, u16, u16),
    /// 0~255, 0~255, 0~255
    Rgb(u16, u16, u16),
    /// 0~255, 0~255, 0~255, written as `#rrggbb`
    Hex(u16, u16, u16),
    Red,
    Green,
    Blue,
    White,
    Black,
    Gray,
    Yellow,
    Purple,
    Cyan,
    Orange,
    Pink,
}

/// `hsl(h, s%, l%)`
pub open spec fn hsl_text(h: nat, s: nat, l: nat) -> Seq<char> {
    "hsl("@ + decimal(h) + ", "@ + decimal(s) + "%, "@ + decimal(l) + "%)"@
}

/// `rgb(r, g, b)`
pub open spec fn rgb_text(r: nat, g: nat, b: nat) -> Seq<char> {
    "rgb("@ + decimal(r) + ", "@ + decimal(g) + ", "@ + decimal(b) + ")"@
}

/// `#rrggbb`, each channel in lower-case hexadecimal with at least two digits
pub open spec fn hex_color_text(r: nat, g: nat, b: nat) -> Seq<char> {
    "#"@ + hex_padded2(r) + hex_padded2(g) + hex_padded2(b)
}

impl CssColor {
    /// The CSS text of this color.
    pub open spec fn css_text(&self) -> Seq<char> {
        match self {
            CssColor::Hsl(h, s, l) => hsl_text(*h as nat, *s as nat, *l as nat),
            CssColor::Rgb(r, g, b) => rgb_text(*r as nat, *g as nat, *b as nat),
            CssColor::Hex(r, g, b) => hex_color_text(*r as nat, *g as nat, *b as nat),
            CssColor::Red => "red"@,
            CssColor::Green => "green"@,
            CssColor::Blue => "blue"@,
            CssColor::White => "white"@,
            CssColor::Black => "black"@,
            CssColor::Gray => "gray"@,
            CssColor::Yellow => "yellow"@,
            CssColor::Purple => "purple"@,
            CssColor::Cyan => "cyan"@,
            CssColor::Orange => "orange"@,
            CssColor::Pink => "pink"@,
        }
    }

    /// Renders the color as it is written in a style sheet.
    pub fn to_css_string(&self) -> (s: String)
        ensures
            s@ == self.css_text(),
    {
        match self {
            CssColor::Hsl(h, sat, l) => {
                let mut s = String::from_str("hsl(");
                append_decimal(&mut s, *h as u64);
                append_str(&mut s, ", ");
                append_decimal(&mut s, *sat as u64);
                append_str(&mut s, "%, ");
                append_decimal(&mut s, *l as u64);
                append_str(&mut s, "%)");
                s
            },
            CssColor::Rgb(r, g, b) => {
                let mut s = String::from_str("rgb(");
                append_decimal(&mut s, *r as u64);
                append_str(&mut s, ", ");
                append_decimal(&mut s, *g as u64);
                append_str(&mut s, ", ");
                append_decimal(&mut s, *b as u64);
                append_str(&mut s, ")");
                s
            },
            CssColor::Hex(r, g, b) => {
                let mut s = String::from_str("#");
                append_hex_padded2(&mut s, *r as u64);
                append_hex_padded2(&mut s, *g as u64);
                append_hex_padded2(&mut s, *b as u64);
                s
            },
            CssColor::Red => String::from_str("red"),
            CssColor::Green => String::from_str("green"),
            CssColor::Blue => String::from_str("blue"),
            CssColor::White => String::from_str("white"),
            CssColor::Black => String::from_str("black"),
            CssColor::Gray => String::from_str("gray"),
            CssColor::Yellow => String::from_str("yellow"),
            CssColor::Purple => String::from_str("purple"),
            CssColor::Cyan => String::from_str("cyan"),
            CssColor::Orange => String::from_str("orange"),
            CssColor::Pink => String::from_str("pink"),
        }
    }
}



/// A CSS keyword: letters, digits and hyphens, starting with a letter.
pub open spec fn is_css_keyword(t: Seq<char>) -> bool {
    &&& t.len() > 0
    &&& 'a' <= t[0] <= 'z'
    &&& forall|i: int| 0 <= i < t.len() ==> ('a' <= #[trigger] t[i] <= 'z' || '0' <= t[i] <= '9' || t[i] == '-')
}

/// Distinct `CssPosition` values are written as distinct CSS keywords.
pub proof fn law_position_keywords(a: CssPosition, b: CssPosition)
    ensures
        a.css_text() == b.css_text() ==> a == b,
        is_css_keyword(a.css_text()),
{
    reveal_strlit("absolute");
    reveal_strlit("fixed");
    reveal_strlit("relative");
    reveal_strlit("static");
    match a {
        CssPosition::Static => match b {
            CssPosition::Static => {},
            CssPosition::Relative => {
                assert("static"@.len() != "relative"@.len());
            },
            CssPosition::Absolute => {
                assert("static"@.len() != "absolute"@.len());
            },
            CssPosition::Fixed => {
                assert("static"@.len() != "fixed"@.len());
            },
        },
        CssPosition::Relative => match b {
            CssPosition::Static => {
                assert("relative"@.len() != "static"@.len());
            },
            CssPosition::Relative => {},
            CssPosition::Absolute => {
                assert("relative"@[0] != "absolute"@[0]);
            },
            CssPosition::Fixed => {
                assert("relative"@.len() != "fixed"@.len());
            },
        },
        CssPosition::Absolute => match b {
            CssPosition::Static => {
                assert("absolute"@.len() != "static"@.len());
            },
            CssPosition::Relative => {
                assert("absolute"@[0] != "relative"@[0]);
            },
            CssPosition::Absolute => {},
            CssPosition::Fixed => {
                assert("absolute"@.len() != "fixed"@.len());
            },
        },
        CssPosition::Fixed => match b {
            CssPosition::Static => {
                assert("fixed"@.len() != "static"@.len());
            },
            CssPosition::Relative => {
                assert("fixed"@.len() != "relative"@.len());
            },
            CssPosition::Absolute => {
                assert("fixed"@.len() != "absolute"@.len());
            },
            CssPosition::Fixed => {},
        },
    }
}

/// Distinct `CssFontStyle` values are written as distinct CSS keywords.
pub proof fn law_font_style_keywords(a: CssFontStyle, b: CssFontStyle)
    ensures
        a.css_text() == b.css_text() ==> a == b,
        is_css_keyword(a.css_text()),
{
    reveal_strlit("italic");
    reveal_strlit("normal");
    reveal_strlit("oblique");
    match a {
        CssFontStyle::Normal => match b {
            CssFontStyle::Normal => {},
            CssFontStyle::Italic => {
                assert("normal"@[0] != "italic"@[0]);
            },
            CssFontStyle::Oblique => {
                assert("normal"@.len() != "oblique"@.len());
            },
        },
        CssFontStyle::Italic => match b {
            CssFontStyle::Normal => {
                assert("italic"@[0] != "normal"@[0]);
            },
            CssFontStyle::Italic => {},
            CssFontStyle::Oblique => {
                assert("italic"@.len() != "oblique"@.len());
            },
        },
        CssFontStyle::Oblique => match b {
            CssFontStyle::Normal => {
                assert("oblique"@.len() != "normal"@.len());
            },
            CssFontStyle::Italic => {
                assert("oblique"@.len() != "italic"@.len());
            },
            CssFontStyle::Oblique => {},
        },
    }
}

/// Distinct `CssDisplay` values are written as distinct CSS keywords.
pub proof fn law_display_keywords(a: CssDisplay, b: CssDisplay)
    ensures
        a.css_text() == b.css_text() ==> a == b,
        is_css_keyword(a.css_text()),
{
    reveal_strlit("block");
    reveal_strlit("flex");
    reveal_strlit("flex-column");
    reveal_strlit("flex-row");
    reveal_strlit("flex-wrap");
    reveal_strlit("inline");
    reveal_strlit("inline-block");
    reveal_strlit("none");
    match a {
        CssDisplay::Flex => match b {
            CssDisplay::Flex => {},
            CssDisplay::FlexColumn => {
                assert("flex"@.len() != "flex-column"@.len());
            },
            CssDisplay::FlexRow => {
                assert("flex"@.len() != "flex-row"@.len());
            },
            CssDisplay::FlexWrap => {
                assert("flex"@.len() != "flex-wrap"@.len());
            },
            CssDisplay::Inline => {
                assert("flex"@.len() != "inline"@.len());
            },
            CssDisplay::Block => {
                assert("flex"@.len() != "block"@.len());
            },
            CssDisplay::InlineBlock => {
                assert("flex"@.len() != "inline-block"@.len());
            },
            CssDisplay::DisplayNone => {
                assert("flex"@[0] != "none"@[0]);
            },
        },
        CssDisplay::FlexColumn => match b {
            CssDisplay::Flex => {
                assert("flex-column"@.len() != "flex"@.len());
            },
            CssDisplay::FlexColumn => {},
            CssDisplay::FlexRow => {
                assert("flex-column"@.len() != "flex-row"@.len());
            },
            CssDisplay::FlexWrap => {
                assert("flex-column"@.len() != "flex-wrap"@.len());
            },
            CssDisplay::Inline => {
                assert("flex-column"@.len() != "inline"@.len());
            },
            CssDisplay::Block => {
                assert("flex-column"@.len() != "block"@.len());
            },
            CssDisplay::InlineBlock => {
                assert("flex-column"@.len() != "inline-block"@.len());
            },
            CssDisplay::DisplayNone => {
                assert("flex-column"@.len() != "none"@.len());
            },
        },
        CssDisplay::FlexRow => match b {
            CssDisplay::Flex => {
                assert("flex-row"@.len() != "flex"@.len());
            },
            CssDisplay::FlexColumn => {
                assert("flex-row"@.len() != "flex-column"@.len());
            },
            CssDisplay::FlexRow => {},
            CssDisplay::FlexWrap => {
                assert("flex-row"@.len() != "flex-wrap"@.len());
            },
            CssDisplay::Inline => {
                assert("flex-row"@.len() != "inline"@.len());
            },
            CssDisplay::Block => {
                assert("flex-row"@.len() != "block"@.len());
            },
            CssDisplay::InlineBlock => {
                assert("flex-row"@.len() != "inline-block"@.len());
            },
            CssDisplay::DisplayNone => {
                assert("flex-row"@.len() != "none"@.len());
            },
        },
        CssDisplay::FlexWrap => match b {
            CssDisplay::Flex => {
                assert("flex-wrap"@.len() != "flex"@.len());
            },
            CssDisplay::FlexColumn => {
                assert("flex-wrap"@.len() != "flex-column"@.len());
            },
            CssDisplay::FlexRow => {
                assert("flex-wrap"@.len() != "flex-row"@.len());
            },
            CssDisplay::FlexWrap => {},
            CssDisplay::Inline => {
                assert("flex-wrap"@.len() != "inline"@.len());
            },
            CssDisplay::Block => {
                assert("flex-wrap"@.len() != "block"@.len());
            },
            CssDisplay::InlineBlock => {
                assert("flex-wrap"@.len() != "inline-block"@.len());
            },
            CssDisplay::DisplayNone => {
                assert("flex-wrap"@.len() != "none"@.len());
            },
        },
        CssDisplay::Inline => match b {
            CssDisplay::Flex => {
                assert("inline"@.len() != "flex"@.len());
            },
            CssDisplay::FlexColumn => {
                assert("inline"@.len() != "flex-column"@.len());
            },
            CssDisplay::FlexRow => {
                assert("inline"@.len() != "flex-row"@.len());
            },
            CssDisplay::FlexWrap => {
                assert("inline"@.len() != "flex-wrap"@.len());
            },
            CssDisplay::Inline => {},
            CssDisplay::Block => {
                assert("inline"@.len() != "block"@.len());
            },
            CssDisplay::InlineBlock => {
                assert("inline"@.len() != "inline-block"@.len());
            },
            CssDisplay::DisplayNone => {
                assert("inline"@.len() != "none"@.len());
            },
        },
        CssDisplay::Block => match b {
            CssDisplay::Flex => {
                assert("block"@.len() != "flex"@.len());
            },
            CssDisplay::FlexColumn => {
                assert("block"@.len() != "flex-column"@.len());
            },
            CssDisplay::FlexRow => {
                assert("block"@.len() != "flex-row"@.len());
            },
            CssDisplay::FlexWrap => {
                assert("block"@.len() != "flex-wrap"@.len());
            },
            CssDisplay::Inline => {
                assert("block"@.len() != "inline"@.len());
            },
            CssDisplay::Block => {},
            CssDisplay::InlineBlock => {
                assert("block"@.len() != "inline-block"@.len());
            },
            CssDisplay::DisplayNone => {
                assert("block"@.len() != "none"@.len());
            },
        },
        CssDisplay::InlineBlock => match b {
            CssDisplay::Flex => {
                assert("inline-block"@.len() != "flex"@.len());
            },
            CssDisplay::FlexColumn => {
                assert("inline-block"@.len() != "flex-column"@.len());
            },
            CssDisplay::FlexRow => {
                assert("inline-block"@.len() != "flex-row"@.len());
            },
            CssDisplay::FlexWrap => {
                assert("inline-block"@.len() != "flex-wrap"@.len());
            },
            CssDisplay::Inline => {
                assert("inline-block"@.len() != "inline"@.len());
            },
            CssDisplay::Block => {
                assert("inline-block"@.len() != "block"@.len());
            },
            CssDisplay::InlineBlock => {},
            CssDisplay::DisplayNone => {
                assert("inline-block"@.len() != "none"@.len());
            },
        },
        CssDisplay::DisplayNone => match b {
            CssDisplay::Flex => {
                assert("none"@[0] != "flex"@[0]);
            },
            CssDisplay::FlexColumn => {
                assert("none"@.len() != "flex-column"@.len());
            },
            CssDisplay::FlexRow => {
                assert("none"@.len() != "flex-row"@.len());
            },
            CssDisplay::FlexWrap => {
                assert("none"@.len() != "flex-wrap"@.len());
            },
            CssDisplay::Inline => {
                assert("none"@.len() != "inline"@.len());
            },
            CssDisplay::Block => {
                assert("none"@.len() != "block"@.len());
            },
            CssDisplay::InlineBlock => {
                assert("none"@.len() != "inline-block"@.len());
            },
            CssDisplay::DisplayNone => {},
        },
    }
}

/// Distinct `CssFlexWrap` values are written as distinct CSS keywords.
pub proof fn law_flex_wrap_keywords(a: CssFlexWrap, b: CssFlexWrap)
    ensures
        a.css_text() == b.css_text() ==> a == b,
        is_css_keyword(a.css_text()),
{
    reveal_strlit("nowrap");
    reveal_strlit("wrap");
    reveal_strlit("wrap-reverse");
    match a {
        CssFlexWrap::NoWrap => match b {
            CssFlexWrap::NoWrap => {},
            CssFlexWrap::Wrap => {
                assert("nowrap"@.len() != "wrap"@.len());
            },
            CssFlexWrap::WrapReverse => {
                assert("nowrap"@.len() != "wrap-reverse"@.len());
            },
        },
        CssFlexWrap::Wrap => match b {
            CssFlexWrap::NoWrap => {
                assert("wrap"@.len() != "nowrap"@.len());
            },
            CssFlexWrap::Wrap => {},
            CssFlexWrap::WrapReverse => {
                assert("wrap"@.len() != "wrap-reverse"@.len());
            },
        },
        CssFlexWrap::WrapReverse => match b {
            CssFlexWrap::NoWrap => {
                assert("wrap-reverse"@.len() != "nowrap"@.len());
            },
            CssFlexWrap::Wrap => {
                assert("wrap-reverse"@.len() != "wrap"@.len());
            },
            CssFlexWrap::WrapReverse => {},
        },
    }
}

/// Distinct `CssFlexDirection` values are written as distinct CSS keywords.
pub proof fn law_flex_direction_keywords(a: CssFlexDirection, b: CssFlexDirection)
    ensures
        a.css_text() == b.css_text() ==> a == b,
        is_css_keyword(a.css_text()),
{
    reveal_strlit("column");
    reveal_strlit("column-reverse");
    reveal_strlit("row");
    reveal_strlit("row-reverse");
    match a {
        CssFlexDirection::Row => match b {
            CssFlexDirection::Row => {},
            CssFlexDirection::RowReverse => {
                assert("row"@.len() != "row-reverse"@.len());
            },
            CssFlexDirection::Column => {
                assert("row"@.len() != "column"@.len());
            },
            CssFlexDirection::ColumnReverse => {
                assert("row"@.len() != "column-reverse"@.len());
            },
        },
        CssFlexDirection::RowReverse => match b {
            CssFlexDirection::Row => {
                assert("row-reverse"@.len() != "row"@.len());
            },
            CssFlexDirection::RowReverse => {},
            CssFlexDirection::Column => {
                assert("row-reverse"@.len() != "column"@.len());
            },
            CssFlexDirection::ColumnReverse => {
                assert("row-reverse"@.len() != "column-reverse"@.len());
            },
        },
        CssFlexDirection::Column => match b {
            CssFlexDirection::Row => {
                assert("column"@.len() != "row"@.len());
            },
            CssFlexDirection::RowReverse => {
                assert("column"@.len() != "row-reverse"@.len());
            },
            CssFlexDirection::Column => {},
            CssFlexDirection::ColumnReverse => {
                assert("column"@.len() != "column-reverse"@.len());
            },
        },
        CssFlexDirection::ColumnReverse => match b {
            CssFlexDirection::Row => {
                assert("column-reverse"@.len() != "row"@.len());
            },
            CssFlexDirection::RowReverse => {
                assert("column-reverse"@.len() != "row-reverse"@.len());
            },
            CssFlexDirection::Column => {
                assert("column-reverse"@.len() != "column"@.len());
            },
            CssFlexDirection::ColumnReverse => {},
        },
    }
}

/// Distinct `CssVerticalAlign` values are written as distinct CSS keywords.
pub proof fn law_vertical_align_keywords(a: CssVerticalAlign, b: CssVerticalAlign)
    ensures
        a.css_text() == b.css_text() ==> a == b,
        is_css_keyword(a.css_text()),
{
    reveal_strlit("bottom");
    reveal_strlit("middle");
    reveal_strlit("top");
    match a {
        CssVerticalAlign::Top => match b {
            CssVerticalAlign::Top => {},
            CssVerticalAlign::Middle => {
                assert("top"@.len() != "middle"@.len());
            },
            CssVerticalAlign::Bottom => {
                assert("top"@.len() != "bottom"@.len());
            },
        },
        CssVerticalAlign::Middle => match b {
            CssVerticalAlign::Top => {
                assert("middle"@.len() != "top"@.len());
            },
            CssVerticalAlign::Middle => {},
            CssVerticalAlign::Bottom => {
                assert("middle"@[0] != "bottom"@[0]);
            },
        },
        CssVerticalAlign::Bottom => match b {
            CssVerticalAlign::Top => {
                assert("bottom"@.len() != "top"@.len());
            },
            CssVerticalAlign::Middle => {
                assert("bottom"@[0] != "middle"@[0]);
            },
            CssVerticalAlign::Bottom => {},
        },
    }
}

/// Distinct `CssFlexJustifyContent` values are written as distinct CSS keywords.
pub proof fn law_flex_justify_content_keywords(a: CssFlexJustifyContent, b: CssFlexJustifyContent)
    ensures
        a.css_text() == b.css_text() ==> a == b,
        is_css_keyword(a.css_text()),
{
    reveal_strlit("center");
    reveal_strlit("flex-end");
    reveal_strlit("flex-start");
    reveal_strlit("space-around");
    reveal_strlit("space-between");
    reveal_strlit("space-evenly");
    match a {
        CssFlexJustifyContent::FlexStart => match b {
            CssFlexJustifyContent::FlexStart => {},
            CssFlexJustifyContent::FlexEnd => {
                assert("flex-start"@.len() != "flex-end"@.len());
            },
            CssFlexJustifyContent::Center => {
                assert("flex-start"@.len() != "center"@.len());
            },
            CssFlexJustifyContent::SpaceBetween => {
                assert("flex-start"@.len() != "space-between"@.len());
            },
            CssFlexJustifyContent::SpaceAround => {
                assert("flex-start"@.len() != "space-around"@.len());
            },
            CssFlexJustifyContent::SpaceEvenly => {
                assert("flex-start"@.len() != "space-evenly"@.len());
            },
        },
        CssFlexJustifyContent::FlexEnd => match b {
            CssFlexJustifyContent::FlexStart => {
                assert("flex-end"@.len() != "flex-start"@.len());
            },
            CssFlexJustifyContent::FlexEnd => {},
            CssFlexJustifyContent::Center => {
                assert("flex-end"@.len() != "center"@.len());
            },
            CssFlexJustifyContent::SpaceBetween => {
                assert("flex-end"@.len() != "space-between"@.len());
            },
            CssFlexJustifyContent::SpaceAround => {
                assert("flex-end"@.len() != "space-around"@.len());
            },
            CssFlexJustifyContent::SpaceEvenly => {
                assert("flex-end"@.len() != "space-evenly"@.len());
            },
        },
        CssFlexJustifyContent::Center => match b {
            CssFlexJustifyContent::FlexStart => {
                assert("center"@.len() != "flex-start"@.len());
            },
            CssFlexJustifyContent::FlexEnd => {
                assert("center"@.len() != "flex-end"@.len());
            },
            CssFlexJustifyContent::Center => {},
            CssFlexJustifyContent::SpaceBetween => {
                assert("center"@.len() != "space-between"@.len());
            },
            CssFlexJustifyContent::SpaceAround => {
                assert("center"@.len() != "space-around"@.len());
            },
            CssFlexJustifyContent::SpaceEvenly => {
                assert("center"@.len() != "space-evenly"@.len());
            },
        },
        CssFlexJustifyContent::SpaceBetween => match b {
            CssFlexJustifyContent::FlexStart => {
                assert("space-between"@.len() != "flex-start"@.len());
            },
            CssFlexJustifyContent::FlexEnd => {
                assert("space-between"@.len() != "flex-end"@.len());
            },
            CssFlexJustifyContent::Center => {
                assert("space-between"@.len() != "center"@.len());
            },
            CssFlexJustifyContent::SpaceBetween => {},
            CssFlexJustifyContent::SpaceAround => {
                assert("space-between"@.len() != "space-around"@.len());
            },
            CssFlexJustifyContent::SpaceEvenly => {
                assert("space-between"@.len() != "space-evenly"@.len());
            },
        },
        CssFlexJustifyContent::SpaceAround => match b {
            CssFlexJustifyContent::FlexStart => {
                assert("space-around"@.len() != "flex-start"@.len());
            },
            CssFlexJustifyContent::FlexEnd => {
                assert("space-around"@.len() != "flex-end"@.len());
            },
            CssFlexJustifyContent::Center => {
                assert("space-around"@.len() != "center"@.len());
            },
            CssFlexJustifyContent::SpaceBetween => {
                assert("space-around"@.len() != "space-between"@.len());
            },
            CssFlexJustifyContent::SpaceAround => {},
            CssFlexJustifyContent::SpaceEvenly => {
                assert("space-around"@[6] != "space-evenly"@[6]);
            },
        },
        CssFlexJustifyContent::SpaceEvenly => match b {
            CssFlexJustifyContent::FlexStart => {
                assert("space-evenly"@.len() != "flex-start"@.len());
            },
            CssFlexJustifyContent::FlexEnd => {
                assert("space-evenly"@.len() != "flex-end"@.len());
            },
            CssFlexJustifyContent::Center => {
                assert("space-evenly"@.len() != "center"@.len());
            },
            CssFlexJustifyContent::SpaceBetween => {
                assert("space-evenly"@.len() != "space-between"@.len());
            },
            CssFlexJustifyContent::SpaceAround => {
                assert("space-evenly"@[6] != "space-around"@[6]);
            },
            CssFlexJustifyContent::SpaceEvenly => {},
        },
    }
}

/// Distinct `CssFlexAlignItems` values are written as distinct CSS keywords.
pub proof fn law_flex_align_items_keywords(a: CssFlexAlignItems, b: CssFlexAlignItems)
    ensures
        a.css_text() == b.css_text() ==> a == b,
        is_css_keyword(a.css_text()),
{
    reveal_strlit("baseline");
    reveal_strlit("center");
    reveal_strlit("flex-end");
    reveal_strlit("flex-start");
    reveal_strlit("stretch");
    match a {
        CssFlexAlignItems::FlexStart => match b {
            CssFlexAlignItems::FlexStart => {},
            CssFlexAlignItems::FlexEnd => {
                assert("flex-start"@.len() != "flex-end"@.len());
            },
            CssFlexAlignItems::Center => {
                assert("flex-start"@.len() != "center"@.len());
            },
            CssFlexAlignItems::Baseline => {
                assert("flex-start"@.len() != "baseline"@.len());
            },
            CssFlexAlignItems::Stretch => {
                assert("flex-start"@.len() != "stretch"@.len());
            },
        },
        CssFlexAlignItems::FlexEnd => match b {
            CssFlexAlignItems::FlexStart => {
                assert("flex-end"@.len() != "flex-start"@.len());
            },
            CssFlexAlignItems::FlexEnd => {},
            CssFlexAlignItems::Center => {
                assert("flex-end"@.len() != "center"@.len());
            },
            CssFlexAlignItems::Baseline => {
                assert("flex-end"@[0] != "baseline"@[0]);
            },
            CssFlexAlignItems::Stretch => {
                assert("flex-end"@.len() != "stretch"@.len());
            },
        },
        CssFlexAlignItems::Center => match b {
            CssFlexAlignItems::FlexStart => {
                assert("center"@.len() != "flex-start"@.len());
            },
            CssFlexAlignItems::FlexEnd => {
                assert("center"@.len() != "flex-end"@.len());
            },
            CssFlexAlignItems::Center => {},
            CssFlexAlignItems::Baseline => {
                assert("center"@.len() != "baseline"@.len());
            },
            CssFlexAlignItems::Stretch => {
                assert("center"@.len() != "stretch"@.len());
            },
        },
        CssFlexAlignItems::Baseline => match b {
            CssFlexAlignItems::FlexStart => {
                assert("baseline"@.len() != "flex-start"@.len());
            },
            CssFlexAlignItems::FlexEnd => {
                assert("baseline"@[0] != "flex-end"@[0]);
            },
            CssFlexAlignItems::Center => {
                assert("baseline"@.len() != "center"@.len());
            },
            CssFlexAlignItems::Baseline => {},
            CssFlexAlignItems::Stretch => {
                assert("baseline"@.len() != "stretch"@.len());
            },
        },
        CssFlexAlignItems::Stretch => match b {
            CssFlexAlignItems::FlexStart => {
                assert("stretch"@.len() != "flex-start"@.len());
            },
            CssFlexAlignItems::FlexEnd => {
                assert("stretch"@.len() != "flex-end"@.len());
            },
            CssFlexAlignItems::Center => {
                assert("stretch"@.len() != "center"@.len());
            },
            CssFlexAlignItems::Baseline => {
                assert("stretch"@.len() != "baseline"@.len());
            },
            CssFlexAlignItems::Stretch => {},
        },
    }
}

/// Distinct `CssBorderStyle` values are written as distinct CSS keywords.
pub proof fn law_border_style_keywords(a: CssBorderStyle, b: CssBorderStyle)
    ensures
        a.css_text() == b.css_text() ==> a == b,
        is_css_keyword(a.css_text()),
{
    reveal_strlit("dashed");
    reveal_strlit("dotted");
    reveal_strlit("solid");
    match a {
        CssBorderStyle::Solid => match b {
            CssBorderStyle::Solid => {},
            CssBorderStyle::Dashed => {
                assert("solid"@.len() != "dashed"@.len());
            },
            CssBorderStyle::Dotted => {
                assert("solid"@.len() != "dotted"@.len());
            },
        },
        CssBorderStyle::Dashed => match b {
            CssBorderStyle::Solid => {
                assert("dashed"@.len() != "solid"@.len());
            },
            CssBorderStyle::Dashed => {},
            CssBorderStyle::Dotted => {
                assert("dashed"@[1] != "dotted"@[1]);
            },
        },
        CssBorderStyle::Dotted => match b {
            CssBorderStyle::Solid => {
                assert("dotted"@.len() != "solid"@.len());
            },
            CssBorderStyle::Dashed => {
                assert("dotted"@[1] != "dashed"@[1]);
            },
            CssBorderStyle::Dotted => {},
        },
    }
}

/// Distinct `CssOverflow` values are written as distinct CSS keywords.
pub proof fn law_overflow_keywords(a: CssOverflow, b: CssOverflow)
    ensures
        a.css_text() == b.css_text() ==> a == b,
        is_css_keyword(a.css_text()),
{
    reveal_strlit("auto");
    reveal_strlit("hidden");
    reveal_strlit("scroll");
    reveal_strlit("visible");
    match a {
        CssOverflow::Visible => match b {
            CssOverflow::Visible => {},
            CssOverflow::Hidden => {
                assert("visible"@.len() != "hidden"@.len());
            },
            CssOverflow::Scroll => {
                assert("visible"@.len() != "scroll"@.len());
            },
            CssOverflow::Auto => {
                assert("visible"@.len() != "auto"@.len());
            },
        },
        CssOverflow::Hidden => match b {
            CssOverflow::Visible => {
                assert("hidden"@.len() != "visible"@.len());
            },
            CssOverflow::Hidden => {},
            CssOverflow::Scroll => {
                assert("hidden"@[0] != "scroll"@[0]);
            },
            CssOverflow::Auto => {
                assert("hidden"@.len() != "auto"@.len());
            },
        },
        CssOverflow::Scroll => match b {
            CssOverflow::Visible => {
                assert("scroll"@.len() != "visible"@.len());
            },
            CssOverflow::Hidden => {
                assert("scroll"@[0] != "hidden"@[0]);
            },
            CssOverflow::Scroll => {},
            CssOverflow::Auto => {
                assert("scroll"@.len() != "auto"@.len());
            },
        },
        CssOverflow::Auto => match b {
            CssOverflow::Visible => {
                assert("auto"@.len() != "visible"@.len());
            },
            CssOverflow::Hidden => {
                assert("auto"@.len() != "hidden"@.len());
            },
            CssOverflow::Scroll => {
                assert("auto"@.len() != "scroll"@.len());
            },
            CssOverflow::Auto => {},
        },
    }
}

/// Distinct `CssTimingFunction` values are written as distinct CSS keywords.
pub proof fn law_timing_function_keywords(a: CssTimingFunction, b: CssTimingFunction)
    ensures
        a.css_text() == b.css_text() ==> a == b,
        is_css_keyword(a.css_text()),
{
    reveal_strlit("ease");
    reveal_strlit("ease-in");
    reveal_strlit("ease-in-out");
    reveal_strlit("ease-out");
    reveal_strlit("linear");
    reveal_strlit("step-end");
    reveal_strlit("step-start");
    match a {
        CssTimingFunction::Linear => match b {
            CssTimingFunction::Linear => {},
            CssTimingFunction::Ease => {
                assert("linear"@.len() != "ease"@.len());
            },
            CssTimingFunction::EaseIn => {
                assert("linear"@.len() != "ease-in"@.len());
            },
            CssTimingFunction::EaseOut => {
                assert("linear"@.len() != "ease-out"@.len());
            },
            CssTimingFunction::EaseInOut => {
                assert("linear"@.len() != "ease-in-out"@.len());
            },
            CssTimingFunction::StepStart => {
                assert("linear"@.len() != "step-start"@.len());
            },
            CssTimingFunction::StepEnd => {
                assert("linear"@.len() != "step-end"@.len());
            },
        },
        CssTimingFunction::Ease => match b {
            CssTimingFunction::Linear => {
                assert("ease"@.len() != "linear"@.len());
            },
            CssTimingFunction::Ease => {},
            CssTimingFunction::EaseIn => {
                assert("ease"@.len() != "ease-in"@.len());
            },
            CssTimingFunction::EaseOut => {
                assert("ease"@.len() != "ease-out"@.len());
            },
            CssTimingFunction::EaseInOut => {
                assert("ease"@.len() != "ease-in-out"@.len());
            },
            CssTimingFunction::StepStart => {
                assert("ease"@.len() != "step-start"@.len());
            },
            CssTimingFunction::StepEnd => {
                assert("ease"@.len() != "step-end"@.len());
            },
        },
        CssTimingFunction::EaseIn => match b {
            CssTimingFunction::Linear => {
                assert("ease-in"@.len() != "linear"@.len());
            },
            CssTimingFunction::Ease => {
                assert("ease-in"@.len() != "ease"@.len());
            },
            CssTimingFunction::EaseIn => {},
            CssTimingFunction::EaseOut => {
                assert("ease-in"@.len() != "ease-out"@.len());
            },
            CssTimingFunction::EaseInOut => {
                assert("ease-in"@.len() != "ease-in-out"@.len());
            },
            CssTimingFunction::StepStart => {
                assert("ease-in"@.len() != "step-start"@.len());
            },
            CssTimingFunction::StepEnd => {
                assert("ease-in"@.len() != "step-end"@.len());
            },
        },
        CssTimingFunction::EaseOut => match b {
            CssTimingFunction::Linear => {
                assert("ease-out"@.len() != "linear"@.len());
            },
            CssTimingFunction::Ease => {
                assert("ease-out"@.len() != "ease"@.len());
            },
            CssTimingFunction::EaseIn => {
                assert("ease-out"@.len() != "ease-in"@.len());
            },
            CssTimingFunction::EaseOut => {},
            CssTimingFunction::EaseInOut => {
                assert("ease-out"@.len() != "ease-in-out"@.len());
            },
            CssTimingFunction::StepStart => {
                assert("ease-out"@.len() != "step-start"@.len());
            },
            CssTimingFunction::StepEnd => {
                assert("ease-out"@[0] != "step-end"@[0]);
            },
        },
        CssTimingFunction::EaseInOut => match b {
            CssTimingFunction::Linear => {
                assert("ease-in-out"@.len() != "linear"@.len());
            },
            CssTimingFunction::Ease => {
                assert("ease-in-out"@.len() != "ease"@.len());
            },
            CssTimingFunction::EaseIn => {
                assert("ease-in-out"@.len() != "ease-in"@.len());
            },
            CssTimingFunction::EaseOut => {
                assert("ease-in-out"@.len() != "ease-out"@.len());
            },
            CssTimingFunction::EaseInOut => {},
            CssTimingFunction::StepStart => {
                assert("ease-in-out"@.len() != "step-start"@.len());
            },
            CssTimingFunction::StepEnd => {
                assert("ease-in-out"@.len() != "step-end"@.len());
            },
        },
        CssTimingFunction::StepStart => match b {
            CssTimingFunction::Linear => {
                assert("step-start"@.len() != "linear"@.len());
            },
            CssTimingFunction::Ease => {
                assert("step-start"@.len() != "ease"@.len());
            },
            CssTimingFunction::EaseIn => {
                assert("step-start"@.len() != "ease-in"@.len());
            },
            CssTimingFunction::EaseOut => {
                assert("step-start"@.len() != "ease-out"@.len());
            },
            CssTimingFunction::EaseInOut => {
                assert("step-start"@.len() != "ease-in-out"@.len());
            },
            CssTimingFunction::StepStart => {},
            CssTimingFunction::StepEnd => {
                assert("step-start"@.len() != "step-end"@.len());
            },
        },
        CssTimingFunction::StepEnd => match b {
            CssTimingFunction::Linear => {
                assert("step-end"@.len() != "linear"@.len());
            },
            CssTimingFunction::Ease => {
                assert("step-end"@.len() != "ease"@.len());
            },
            CssTimingFunction::EaseIn => {
                assert("step-end"@.len() != "ease-in"@.len());
            },
            CssTimingFunction::EaseOut => {
                assert("step-end"@[0] != "ease-out"@[0]);
            },
            CssTimingFunction::EaseInOut => {
                assert("step-end"@.len() != "ease-in-out"@.len());
            },
            CssTimingFunction::StepStart => {
                assert("step-end"@.len() != "step-start"@.len());
            },
            CssTimingFunction::StepEnd => {},
        },
    }
}

/// Distinct `CssTextOverflow` values are written as distinct CSS keywords.
pub proof fn law_text_overflow_keywords(a: CssTextOverflow, b: CssTextOverflow)
    ensures
        a.css_text() == b.css_text() ==> a == b,
        is_css_keyword(a.css_text()),
{
    reveal_strlit("clip");
    reveal_strlit("ellipsis");
    match a {
        CssTextOverflow::Clip => match b {
            CssTextOverflow::Clip => {},
            CssTextOverflow::Ellipsis => {
                assert("clip"@.len() != "ellipsis"@.len());
            },
        },
        CssTextOverflow::Ellipsis => match b {
            CssTextOverflow::Clip => {
                assert("ellipsis"@.len() != "clip"@.len());
            },
            CssTextOverflow::Ellipsis => {},
        },
    }
}

/// Distinct `CssBoxSizing` values are written as distinct CSS keywords.
pub proof fn law_box_sizing_keywords(a: CssBoxSizing, b: CssBoxSizing)
    ensures
        a.css_text() == b.css_text() ==> a == b,
        is_css_keyword(a.css_text()),
{
    reveal_strlit("border-box");
    reveal_strlit("content-box");
    match a {
        CssBoxSizing::ContentBox => match b {
            CssBoxSizing::ContentBox => {},
            CssBoxSizing::BorderBox => {
                assert("content-box"@.len() != "border-box"@.len());
            },
        },
        CssBoxSizing::BorderBox => match b {
            CssBoxSizing::ContentBox => {
                assert("border-box"@.len() != "content-box"@.len());
            },
            CssBoxSizing::BorderBox => {},
        },
    }
}

/// Distinct `CssTextAlign` values are written as distinct CSS keywords.
pub proof fn law_text_align_keywords(a: CssTextAlign, b: CssTextAlign)
    ensures
        a.css_text() == b.css_text() ==> a == b,
        is_css_keyword(a.css_text()),
{
    reveal_strlit("center");
    reveal_strlit("justify");
    reveal_strlit("left");
    reveal_strlit("right");
    match a {
        CssTextAlign::Left => match b {
            CssTextAlign::Left => {},
            CssTextAlign::Right => {
                assert("left"@.len() != "right"@.len());
            },
            CssTextAlign::Center => {
                assert("left"@.len() != "center"@.len());
            },
            CssTextAlign::Justify => {
                assert("left"@.len() != "justify"@.len());
            },
        },
        CssTextAlign::Right => match b {
            CssTextAlign::Left => {
                assert("right"@.len() != "left"@.len());
            },
            CssTextAlign::Right => {},
            CssTextAlign::Center => {
                assert("right"@.len() != "center"@.len());
            },
            CssTextAlign::Justify => {
                assert("right"@.len() != "justify"@.len());
            },
        },
        CssTextAlign::Center => match b {
            CssTextAlign::Left => {
                assert("center"@.len() != "left"@.len());
            },
            CssTextAlign::Right => {
                assert("center"@.len() != "right"@.len());
            },
            CssTextAlign::Center => {},
            CssTextAlign::Justify => {
                assert("center"@.len() != "justify"@.len());
            },
        },
        CssTextAlign::Justify => match b {
            CssTextAlign::Left => {
                assert("justify"@.len() != "left"@.len());
            },
            CssTextAlign::Right => {
                assert("justify"@.len() != "right"@.len());
            },
            CssTextAlign::Center => {
                assert("justify"@.len() != "center"@.len());
            },
            CssTextAlign::Justify => {},
        },
    }
}

/// Distinct `CssTextDecoration` values are written as distinct CSS keywords.
pub proof fn law_text_decoration_keywords(a: CssTextDecoration, b: CssTextDecoration)
    ensures
        a.css_text() == b.css_text() ==> a == b,
        is_css_keyword(a.css_text()),
{
    reveal_strlit("none");
    reveal_strlit("underline");
    match a {
        CssTextDecoration::Underline => match b {
            CssTextDecoration::Underline => {},
            CssTextDecoration::NoDecoration => {
                assert("underline"@.len() != "none"@.len());
            },
        },
        CssTextDecoration::NoDecoration => match b {
            CssTextDecoration::Underline => {
                assert("none"@.len() != "underline"@.len());
            },
            CssTextDecoration::NoDecoration => {},
        },
    }
}

} // verus!
