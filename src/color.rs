use vstd::prelude::*;

verus! {

/// An opaque colour, packed as red, green, blue and alpha bytes.
#[derive(Clone, Copy, Debug, PartialEq, Eq, Structural)]
pub struct Color {
    pub rgba: u32,
}

impl Color {
    pub fn from_rgba(rgba: u32) -> (r: Color)
        ensures
            r.rgba == rgba,
    {
        Color { rgba }
    }
}

/// The theme colours that labels draw with.
#[derive(Clone, Copy, Debug, PartialEq, Eq, Structural)]
pub struct Palette {
    pub text: Color,
    pub text_muted: Color,
    pub text_disabled: Color,
    pub text_placeholder: Color,
    pub text_accent: Color,
    pub created: Color,
    pub modified: Color,
    pub deleted: Color,
    pub hidden: Color,
}

/// The semantic role of a label's colour.
#[derive(Clone, Copy, Debug, PartialEq, Eq, Structural)]
pub enum LabelColor {
    Default,
    Muted,
    Created,
    Modified,
    Deleted,
    Disabled,
    Hidden,
    Placeholder,
    Accent,
}

/// The palette entry that a role stands for.
pub open spec fn role_color(palette: Palette, role: LabelColor) -> Color {
    match role {
        LabelColor::Default => palette.text,
        LabelColor::Muted => palette.text_muted,
        LabelColor::Created => palette.created,
        LabelColor::Modified => palette.modified,
        LabelColor::Deleted => palette.deleted,
        LabelColor::Disabled => palette.text_disabled,
        LabelColor::Hidden => palette.hidden,
        LabelColor::Placeholder => palette.text_placeholder,
        LabelColor::Accent => palette.text_accent,
    }
}

impl LabelColor {
    /// Resolves the role against a palette.
    pub fn hsla(&self, palette: &Palette) -> (r: Color)
        ensures
            r == role_color(*palette, *self),
    {
        match self {
            LabelColor::Default => palette.text,
            LabelColor::Muted => palette.text_muted,
            LabelColor::Created => palette.created,
            LabelColor::Modified => palette.modified,
            LabelColor::Deleted => palette.deleted,
            LabelColor::Disabled => palette.text_disabled,
            LabelColor::Hidden => palette.hidden,
            LabelColor::Placeholder => palette.text_placeholder,
            LabelColor::Accent => palette.text_accent,
        }
    }
}

impl Default for LabelColor {
    fn default() -> (r: LabelColor)
        ensures
            r == LabelColor::Default,
    {
        LabelColor::Default
    }
}

} // verus!
