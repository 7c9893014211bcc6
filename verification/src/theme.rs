//! Default colors, fonts and button styles.

use vstd::prelude::*;

use crate::button::{ButtonStyle, ButtonStyleSheet};
use crate::display::{Color, Font, FONT_BOLD_ID};

verus! {

/// Background color.
pub fn bg() -> (c: Color)
    ensures
        c == (Color { value: 0x0000 }),
{
    Color { value: 0x0000 }
}

/// Foreground color.
pub fn fg() -> (c: Color)
    ensures
        c == (Color { value: 0xFFFF }),
{
    Color { value: 0xFFFF }
}

/// A dimmed foreground color used for hyphens and ellipses.
pub fn grey_light() -> (c: Color)
    ensures
        c == (Color { value: 0xCE59 }),
{
    Color { value: 0xCE59 }
}

/// The regular text font.
pub fn font_normal() -> (f: Font)
    ensures
        f == (Font { id: 1 }),
{
    Font { id: 1 }
}

/// The bold font.
pub fn font_bold() -> (f: Font)
    ensures
        f == (Font { id: FONT_BOLD_ID }),
{
    Font { id: FONT_BOLD_ID }
}

/// The monospace font.
pub fn font_mono() -> (f: Font)
    ensures
        f == (Font { id: 3 }),
{
    Font { id: 3 }
}

/// The default button style sheet.
pub fn button_default() -> (s: ButtonStyleSheet)
    ensures
        s == spec_button_default(),
{
    ButtonStyleSheet {
        normal: ButtonStyle {
            font: Font { id: 1 },
            text_color: Color { value: 0x0000 },
            background_color: Color { value: 0xFFFF },
            border_horiz: true,
        },
        active: ButtonStyle {
            font: Font { id: 1 },
            text_color: Color { value: 0xFFFF },
            background_color: Color { value: 0x0000 },
            border_horiz: true,
        },
        disabled: ButtonStyle {
            font: Font { id: 1 },
            text_color: Color { value: 0xCE59 },
            background_color: Color { value: 0x0000 },
            border_horiz: true,
        },
    }
}

pub open spec fn spec_button_default() -> ButtonStyleSheet {
    ButtonStyleSheet {
        normal: ButtonStyle {
            font: Font { id: 1 },
            text_color: Color { value: 0x0000 },
            background_color: Color { value: 0xFFFF },
            border_horiz: true,
        },
        active: ButtonStyle {
            font: Font { id: 1 },
            text_color: Color { value: 0xFFFF },
            background_color: Color { value: 0x0000 },
            border_horiz: true,
        },
        disabled: ButtonStyle {
            font: Font { id: 1 },
            text_color: Color { value: 0xCE59 },
            background_color: Color { value: 0x0000 },
            border_horiz: true,
        },
    }
}

} // verus!
