use vstd::prelude::*;

use crate::color::{role_color, Color, LabelColor, Palette};
use crate::runs::{byte_len, runs_of, text_runs, total_len, well_formed_runs, TextRun};

verus! {

/// How tall a label's line is.
#[derive(Clone, Copy, Debug, PartialEq, Eq, Structural)]
pub enum LineHeightStyle {
    /// The line height of the surrounding text style.
    TextLabel,
    /// A line height of exactly one.
    UILabel,
}

impl Default for LineHeightStyle {
    fn default() -> (r: LineHeightStyle)
        ensures
            r == LineHeightStyle::TextLabel,
    {
        LineHeightStyle::TextLabel
    }
}

/// Colour of the strikethrough line, when there is one.
pub open spec fn strike_color(strikethrough: bool, palette: Palette) -> Option<Color> {
    if strikethrough {
        Some(palette.hidden)
    } else {
        None
    }
}

fn strike_line(strikethrough: bool, palette: &Palette) -> (r: Option<Color>)
    ensures
        r == strike_color(strikethrough, *palette),
{
    if strikethrough {
        Some(palette.hidden)
    } else {
        None
    }
}

/// A single-coloured text label.
pub struct Label {
    pub label: String,
    pub line_height_style: LineHeightStyle,
    pub color: LabelColor,
    pub strikethrough: bool,
}

/// What a plain label draws: its text in one colour, an optional
/// strikethrough line, and whether the line height is fixed at one.
pub struct LabelLayout {
    pub text: String,
    pub text_color: Color,
    pub strikethrough: Option<Color>,
    pub unit_line_height: bool,
}

impl Label {
    pub fn new(label: &str) -> (r: Label)
        ensures
            r.label@ == label@,
            r.line_height_style == LineHeightStyle::TextLabel,
            r.color == LabelColor::Default,
            !r.strikethrough,
    {
        Label {
            label: label.to_owned(),
            line_height_style: LineHeightStyle::default(),
            color: LabelColor::Default,
            strikethrough: false,
        }
    }

    pub fn color(self, color: LabelColor) -> (r: Label)
        ensures
            r.label == self.label,
            r.line_height_style == self.line_height_style,
            r.color == color,
            r.strikethrough == self.strikethrough,
    {
        Label { color, ..self }
    }

    pub fn line_height_style(self, line_height_style: LineHeightStyle) -> (r: Label)
        ensures
            r.label == self.label,
            r.line_height_style == line_height_style,
            r.color == self.color,
            r.strikethrough == self.strikethrough,
    {
        Label { line_height_style, ..self }
    }

    pub fn set_strikethrough(self, strikethrough: bool) -> (r: Label)
        ensures
            r.label == self.label,
            r.line_height_style == self.line_height_style,
            r.color == self.color,
            r.strikethrough == strikethrough,
    {
        Label { strikethrough, ..self }
    }

    /// Resolves the label against a palette into what is drawn.
    pub fn render(self, palette: &Palette) -> (r: LabelLayout)
        ensures
            r.text == self.label,
            r.text_color == role_color(*palette, self.color),
            r.strikethrough == strike_color(self.strikethrough, *palette),
            r.unit_line_height == (self.line_height_style == LineHeightStyle::UILabel),
    {
        let unit_line_height = match self.line_height_style {
            LineHeightStyle::UILabel => true,
            LineHeightStyle::TextLabel => false,
        };
        LabelLayout {
            text_color: self.color.hsla(palette),
            strikethrough: strike_line(self.strikethrough, palette),
            unit_line_height,
            text: self.label,
        }
    }
}

/// A label in which the characters at given byte offsets are drawn in the
/// accent colour.
pub struct HighlightedLabel {
    pub label: String,
    pub color: LabelColor,
    pub highlight_indices: Vec<usize>,
    pub strikethrough: bool,
}

/// What a highlighted label draws: its text split into coloured runs, and an
/// optional strikethrough line.
pub struct HighlightedLayout {
    pub text: String,
    pub runs: Vec<TextRun>,
    pub strikethrough: Option<Color>,
}

impl HighlightedLabel {
    /// A label with the characters that start at the given UTF-8 byte offsets
    /// highlighted.
    pub fn new(label: &str, highlight_indices: Vec<usize>) -> (r: HighlightedLabel)
        ensures
            r.label@ == label@,
            r.color == LabelColor::Default,
            r.highlight_indices == highlight_indices,
            !r.strikethrough,
    {
        HighlightedLabel {
            label: label.to_owned(),
            color: LabelColor::Default,
            highlight_indices,
            strikethrough: false,
        }
    }

    pub fn color(self, color: LabelColor) -> (r: HighlightedLabel)
        ensures
            r.label == self.label,
            r.color == color,
            r.highlight_indices == self.highlight_indices,
            r.strikethrough == self.strikethrough,
    {
        HighlightedLabel { color, ..self }
    }

    pub fn set_strikethrough(self, strikethrough: bool) -> (r: HighlightedLabel)
        ensures
            r.label == self.label,
            r.color == self.color,
            r.highlight_indices == self.highlight_indices,
            r.strikethrough == strikethrough,
    {
        HighlightedLabel { strikethrough, ..self }
    }

    /// Resolves the label against a palette: the text is drawn in the colour
    /// of its role, and its highlighted characters in the palette's accent.
    pub fn render(self, palette: &Palette) -> (r: HighlightedLayout)
        ensures
            r.text == self.label,
            r.runs@ == runs_of(
                self.label@,
                self.highlight_indices@,
                role_color(*palette, self.color),
                palette.text_accent,
            ),
            well_formed_runs(r.runs@),
            total_len(r.runs@) == byte_len(self.label@),
            r.strikethrough == strike_color(self.strikethrough, *palette),
    {
        let runs = text_runs(
            self.label.as_str(),
            self.highlight_indices.as_slice(),
            self.color.hsla(palette),
            palette.text_accent,
        );
        HighlightedLayout {
            text: self.label,
            runs,
            strikethrough: strike_line(self.strikethrough, palette),
        }
    }
}

/// A gallery of example labels.
pub struct LabelStory;

fn offsets(a: usize, b: usize, c: usize, d: usize, e: usize, f: usize) -> (r: Vec<usize>)
    ensures
        r@ == seq![a, b, c, d, e, f],
{
    let mut v: Vec<usize> = Vec::new();
    v.push(a);
    v.push(b);
    v.push(c);
    v.push(d);
    v.push(e);
    v.push(f);
    assert(v@ =~= seq![a, b, c, d, e, f]);
    v
}

impl LabelStory {
    /// The labels that the gallery shows, from top to bottom: a plain label,
    /// then an ASCII and a non-ASCII highlighted label.
    pub fn render(&self) -> (r: (Label, Vec<HighlightedLabel>))
        ensures
            r.0.label@ == "Hello, world!"@,
            r.0.line_height_style == LineHeightStyle::TextLabel,
            r.0.color == LabelColor::Default,
            !r.0.strikethrough,
            r.1@.len() == 2,
            r.1@[0].label@ == "Hello, world!"@,
            r.1@[0].color == LabelColor::Default,
            r.1@[0].highlight_indices@ == seq![0usize, 1, 2, 7, 8, 12],
            !r.1@[0].strikethrough,
            r.1@[1].label@ == "H\u{e9}llo, world!"@,
            r.1@[1].color == LabelColor::Default,
            r.1@[1].highlight_indices@ == seq![0usize, 1, 3, 8, 9, 13],
            !r.1@[1].strikethrough,
    {
        let plain = Label::new("Hello, world!");
        let mut highlighted: Vec<HighlightedLabel> = Vec::new();
        highlighted.push(HighlightedLabel::new("Hello, world!", offsets(0, 1, 2, 7, 8, 12)));
        highlighted.push(HighlightedLabel::new("H\u{e9}llo, world!", offsets(0, 1, 3, 8, 9, 13)));
        (plain, highlighted)
    }
}

} // verus!
