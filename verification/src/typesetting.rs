//! How lines of type are set within a block of text, and which properties
//! of the type the layout engine is told, in which order.

use crate::render::Scalar;
use vstd::prelude::*;

verus! {

/// Alignment of the lines within a text block.
#[derive(Clone, Copy, Debug, PartialEq, Eq, Hash, Structural)]
pub enum TextAlign {
    Left,
    Center,
    Right,
    JustifyLeft,
}

/// The alignments of the layout engine, with the variants it declares.
#[verifier::external_type_specification]
pub struct ExAlignment(parley::Alignment);

impl TextAlign {
    /// The alignment that the layout engine knows this one by.
    pub open spec fn layout_alignment(self) -> parley::Alignment {
        match self {
            TextAlign::Left => parley::Alignment::Left,
            TextAlign::Center => parley::Alignment::Center,
            TextAlign::Right => parley::Alignment::Right,
            TextAlign::JustifyLeft => parley::Alignment::Justify,
        }
    }

    /// The alignment that the layout engine knows this one by.
    pub fn to_alignment(self) -> (r: parley::Alignment)
        ensures
            r == self.layout_alignment(),
    {
        match self {
            TextAlign::Left => parley::Alignment::Left,
            TextAlign::Center => parley::Alignment::Center,
            TextAlign::Right => parley::Alignment::Right,
            TextAlign::JustifyLeft => parley::Alignment::Justify,
        }
    }

    /// The words that a panel shows for the alignment.
    pub fn label(self) -> (r: &'static str)
        ensures
            r@ == match self {
                TextAlign::Left => "Left"@,
                TextAlign::Center => "Center"@,
                TextAlign::Right => "Right"@,
                TextAlign::JustifyLeft => "Justify"@,
            },
    {
        match self {
            TextAlign::Left => "Left",
            TextAlign::Center => "Center",
            TextAlign::Right => "Right",
            TextAlign::JustifyLeft => "Justify",
        }
    }
}

impl Default for TextAlign {
    fn default() -> (r: TextAlign)
        ensures
            r == TextAlign::Left,
    {
        TextAlign::Left
    }
}

impl From<TextAlign> for parley::Alignment {
    fn from(val: TextAlign) -> (r: Self) {
        val.to_alignment()
    }
}

impl vstd::std_specs::convert::FromSpecImpl<TextAlign> for parley::Alignment {
    open spec fn obeys_from_spec() -> bool {
        true
    }

    open spec fn from_spec(val: TextAlign) -> Self {
        val.layout_alignment()
    }
}

/// The settings of a block of text. Sizes are in pixels, the line height is
/// a multiple of the font size, and a block without a width or a height has
/// no limit in that direction.
#[derive(Clone, Copy, Debug, PartialEq, Eq, Structural)]
pub struct TypesettingConfig {
    pub font_size: Scalar,
    pub line_height_ratio: Scalar,
    pub character_spacing: Scalar,
    pub max_width: Option<Scalar>,
    pub max_height: Option<Scalar>,
    pub tilt: Scalar,
    pub align: TextAlign,
}

/// The number twenty-four.
pub open spec fn scalar_twenty_four() -> Scalar {
    Scalar(0x4038_0000_0000_0000)
}

/// The number one and a fifth, as close as a double-precision number comes
/// to it.
pub open spec fn scalar_one_and_a_fifth() -> Scalar {
    Scalar(0x3FF3_3333_3333_3333)
}

impl Default for TypesettingConfig {
    /// Type of twenty-four pixels, lines one and a fifth of that apart, no
    /// extra spacing, no limits, upright, flush left.
    fn default() -> (r: TypesettingConfig)
        ensures
            r == (TypesettingConfig {
                font_size: scalar_twenty_four(),
                line_height_ratio: scalar_one_and_a_fifth(),
                character_spacing: Scalar(0),
                max_width: None,
                max_height: None,
                tilt: Scalar(0),
                align: TextAlign::Left,
            }),
    {
        TypesettingConfig {
            font_size: Scalar(0x4038_0000_0000_0000),
            line_height_ratio: Scalar(0x3FF3_3333_3333_3333),
            character_spacing: Scalar(0),
            max_width: None,
            max_height: None,
            tilt: Scalar(0),
            align: TextAlign::Left,
        }
    }
}

/// A font by the names of its family and its style.
#[derive(Clone, Debug, PartialEq, Eq, Hash)]
pub struct Font {
    pub font_family: String,
    pub font_style: String,
}

/// A colour of four channels, each a single-precision number held as its
/// bit pattern.
#[derive(Clone, Copy, Debug, PartialEq, Eq, Hash, Structural)]
pub struct Color {
    pub red: u32,
    pub green: u32,
    pub blue: u32,
    pub alpha: u32,
}

/// The styling of a range of text. What is absent is inherited from the
/// block.
#[derive(Clone, Debug, PartialEq, Eq)]
pub struct TextStyle {
    pub font: Option<Font>,
    pub size: Option<Scalar>,
    pub color: Option<Color>,
    pub line_height: Option<Scalar>,
    pub letter_spacing: Option<Scalar>,
}

/// A range of the text, from the byte at `start` to before the byte at
/// `end`, and its styling.
#[derive(Clone, Debug, PartialEq, Eq)]
pub struct StyleSpan {
    pub start: usize,
    pub end: usize,
    pub style: TextStyle,
}

/// A text and the spans that style parts of it. Spans may overlap; a later
/// span wins over an earlier one.
#[derive(Clone, Debug, PartialEq, Eq)]
pub struct StyledText {
    pub text: String,
    pub spans: Vec<StyleSpan>,
}

impl StyledText {
    /// The text without any styling of its own.
    pub fn plain(text: String) -> (r: StyledText)
        ensures
            r.text == text,
            r.spans@.len() == 0,
    {
        StyledText { text, spans: Vec::new() }
    }
}

impl From<String> for StyledText {
    fn from(text: String) -> (r: Self) {
        StyledText::plain(text)
    }
}

impl vstd::std_specs::convert::FromSpecImpl<String> for StyledText {
    open spec fn obeys_from_spec() -> bool {
        false
    }

    open spec fn from_spec(text: String) -> Self {
        arbitrary()
    }
}

impl From<&str> for StyledText {
    fn from(text: &str) -> (r: Self) {
        StyledText::plain(text.to_owned())
    }
}

impl vstd::std_specs::convert::FromSpecImpl<&str> for StyledText {
    open spec fn obeys_from_spec() -> bool {
        false
    }

    open spec fn from_spec(text: &str) -> Self {
        arbitrary()
    }
}

impl TextStyle {
    /// A style that inherits everything.
    pub fn inherit() -> (r: TextStyle)
        ensures
            r.font is None,
            r.size is None,
            r.color is None,
            r.line_height is None,
            r.letter_spacing is None,
    {
        TextStyle { font: None, size: None, color: None, line_height: None, letter_spacing: None }
    }
}

/// One property of the type that the layout engine is told. The four
/// properties of a font take their values from the font that was resolved
/// for the block or the span.
#[derive(Clone, Copy, Debug, PartialEq, Eq, Structural)]
pub enum StyleDirective {
    FontSize(Scalar),
    LetterSpacing(Scalar),
    LineHeight(Scalar),
    FontFamily,
    FontWeight,
    FontStyle,
    FontWidth,
}

/// What the layout engine is told of a whole block, in this order: the size
/// of the type, the spacing of the letters, the four properties of the
/// font, and the height of the lines as a multiple of the font size.
pub open spec fn block_directives(config: TypesettingConfig) -> Seq<StyleDirective> {
    seq![
        StyleDirective::FontSize(config.font_size),
        StyleDirective::LetterSpacing(config.character_spacing),
        StyleDirective::FontFamily,
        StyleDirective::FontWeight,
        StyleDirective::FontStyle,
        StyleDirective::FontWidth,
        StyleDirective::LineHeight(config.line_height_ratio),
    ]
}

/// What the layout engine is told of a span, in this order: the size, the
/// spacing of the letters and the height of the lines, each only if the
/// style sets it, and the four properties of the font if a font was resolved
/// for the span. The colour is not a matter of layout.
pub open spec fn span_directives(style: TextStyle, font_resolved: bool) -> Seq<StyleDirective> {
    let size = match style.size {
        Some(size) => seq![StyleDirective::FontSize(size)],
        None => Seq::empty(),
    };
    let spacing = match style.letter_spacing {
        Some(spacing) => seq![StyleDirective::LetterSpacing(spacing)],
        None => Seq::empty(),
    };
    let height = match style.line_height {
        Some(height) => seq![StyleDirective::LineHeight(height)],
        None => Seq::empty(),
    };
    let font = if font_resolved {
        seq![StyleDirective::FontFamily, StyleDirective::FontWeight, StyleDirective::FontStyle, StyleDirective::FontWidth]
    } else {
        Seq::empty()
    };
    size + spacing + height + font
}

/// What the layout engine is told of a whole block.
pub fn default_style(config: &TypesettingConfig) -> (r: Vec<StyleDirective>)
    ensures
        r@ == block_directives(*config),
{
    let mut directives: Vec<StyleDirective> = Vec::new();
    directives.push(StyleDirective::FontSize(config.font_size));
    directives.push(StyleDirective::LetterSpacing(config.character_spacing));
    directives.push(StyleDirective::FontFamily);
    directives.push(StyleDirective::FontWeight);
    directives.push(StyleDirective::FontStyle);
    directives.push(StyleDirective::FontWidth);
    directives.push(StyleDirective::LineHeight(config.line_height_ratio));
    assert(directives@ =~= block_directives(*config));
    directives
}

/// What the layout engine is told of a span.
pub fn apply_style(style: &TextStyle, font_resolved: bool) -> (r: Vec<StyleDirective>)
    ensures
        r@ == span_directives(*style, font_resolved),
{
    let mut directives: Vec<StyleDirective> = Vec::new();
    if let Some(size) = style.size {
        directives.push(StyleDirective::FontSize(size));
    }
    if let Some(letter_spacing) = style.letter_spacing {
        directives.push(StyleDirective::LetterSpacing(letter_spacing));
    }
    if let Some(line_height) = style.line_height {
        directives.push(StyleDirective::LineHeight(line_height));
    }
    if font_resolved {
        directives.push(StyleDirective::FontFamily);
        directives.push(StyleDirective::FontWeight);
        directives.push(StyleDirective::FontStyle);
        directives.push(StyleDirective::FontWidth);
    }
    assert(directives@ =~= span_directives(*style, font_resolved));
    directives
}

/// Whether the box of a block is known without laying the text out: it is
/// when the block has both limits and the box is not wanted to test for
/// clipping.
pub fn box_is_given(config: &TypesettingConfig, for_clipping_test: bool) -> (r: bool)
    ensures
        r == (!for_clipping_test && config.max_height is Some && config.max_width is Some),
{
    !for_clipping_test && config.max_height.is_some() && config.max_width.is_some()
}

} // verus!
