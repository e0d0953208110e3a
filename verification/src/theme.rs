//! The colour palettes of the interface.

use vstd::prelude::*;

verus! {

/// A colour with red, green, blue and opacity channels.
#[derive(Clone, Copy, Debug, PartialEq, Eq, Structural)]
pub struct Rgba {
    pub r: u8,
    pub g: u8,
    pub b: u8,
    pub a: u8,
}

/// An opaque colour.
pub open spec fn rgb(r: u8, g: u8, b: u8) -> Rgba {
    Rgba { r, g, b, a: 255 }
}

/// The fully transparent colour.
pub open spec fn transparent() -> Rgba {
    Rgba { r: 0, g: 0, b: 0, a: 0 }
}

/// An opaque colour.
pub fn from_rgb(r: u8, g: u8, b: u8) -> (c: Rgba)
    ensures
        c == rgb(r, g, b),
{
    Rgba { r, g, b, a: 255 }
}

/// The dark palette.
pub open spec fn dark_palette() -> ThemeTokens {
    ThemeTokens {
        bg_base: rgb(18, 18, 20),
        bg_surface: rgb(26, 26, 30),
        bg_subtle: rgb(34, 34, 40),
        border_subtle: rgb(44, 44, 52),
        border_strong: rgb(64, 64, 76),
        accent_primary: rgb(234, 88, 12),
        text_primary: rgb(244, 244, 245),
        text_secondary: rgb(161, 161, 170),
        user_bubble_bg: rgb(34, 34, 42),
        assistant_bubble_bg: transparent(),
    }
}

/// The light palette.
pub open spec fn light_palette() -> ThemeTokens {
    ThemeTokens {
        bg_base: rgb(248, 249, 250),
        bg_surface: rgb(255, 255, 255),
        bg_subtle: rgb(241, 243, 245),
        border_subtle: rgb(226, 232, 240),
        border_strong: rgb(203, 213, 225),
        accent_primary: rgb(234, 88, 12),
        text_primary: rgb(15, 23, 42),
        text_secondary: rgb(100, 116, 139),
        user_bubble_bg: rgb(241, 245, 249),
        assistant_bubble_bg: transparent(),
    }
}

/// The dark palette of the first design.
pub open spec fn classic_dark_palette() -> ThemeTokens {
    ThemeTokens {
        bg_base: rgb(18, 18, 22),
        bg_surface: rgb(24, 24, 28),
        bg_subtle: rgb(32, 32, 38),
        border_subtle: rgb(42, 42, 50),
        border_strong: rgb(63, 63, 74),
        accent_primary: rgb(99, 102, 241),
        text_primary: rgb(244, 244, 245),
        text_secondary: rgb(161, 161, 170),
        user_bubble_bg: rgb(79, 70, 229),
        assistant_bubble_bg: rgb(28, 28, 34),
    }
}

/// The light palette of the first design.
pub open spec fn classic_light_palette() -> ThemeTokens {
    ThemeTokens {
        bg_base: rgb(250, 250, 250),
        bg_surface: rgb(255, 255, 255),
        bg_subtle: rgb(244, 244, 245),
        border_subtle: rgb(228, 228, 231),
        border_strong: rgb(212, 212, 216),
        accent_primary: rgb(79, 70, 229),
        text_primary: rgb(24, 24, 27),
        text_secondary: rgb(113, 113, 122),
        user_bubble_bg: rgb(79, 70, 229),
        assistant_bubble_bg: rgb(244, 244, 245),
    }
}

/// The colours the interface is drawn with.
#[derive(Clone, Copy, Debug, PartialEq, Eq, Structural)]
pub struct ThemeTokens {
    pub bg_base: Rgba,
    pub bg_surface: Rgba,
    pub bg_subtle: Rgba,
    pub border_subtle: Rgba,
    pub border_strong: Rgba,
    pub accent_primary: Rgba,
    pub text_primary: Rgba,
    pub text_secondary: Rgba,
    pub user_bubble_bg: Rgba,
    pub assistant_bubble_bg: Rgba,
}

impl ThemeTokens {
    /// The dark palette, with an orange accent and replies drawn without a
    /// bubble.
    pub fn dark() -> (t: ThemeTokens)
        ensures
            t == dark_palette(),
    {
        ThemeTokens {
            bg_base: from_rgb(18, 18, 20),
            bg_surface: from_rgb(26, 26, 30),
            bg_subtle: from_rgb(34, 34, 40),
            border_subtle: from_rgb(44, 44, 52),
            border_strong: from_rgb(64, 64, 76),
            accent_primary: from_rgb(234, 88, 12),
            text_primary: from_rgb(244, 244, 245),
            text_secondary: from_rgb(161, 161, 170),
            user_bubble_bg: from_rgb(34, 34, 42),
            assistant_bubble_bg: Rgba { r: 0, g: 0, b: 0, a: 0 },
        }
    }

    /// The light palette, with an orange accent and replies drawn without a
    /// bubble.
    pub fn light() -> (t: ThemeTokens)
        ensures
            t == light_palette(),
    {
        ThemeTokens {
            bg_base: from_rgb(248, 249, 250),
            bg_surface: from_rgb(255, 255, 255),
            bg_subtle: from_rgb(241, 243, 245),
            border_subtle: from_rgb(226, 232, 240),
            border_strong: from_rgb(203, 213, 225),
            accent_primary: from_rgb(234, 88, 12),
            text_primary: from_rgb(15, 23, 42),
            text_secondary: from_rgb(100, 116, 139),
            user_bubble_bg: from_rgb(241, 245, 249),
            assistant_bubble_bg: Rgba { r: 0, g: 0, b: 0, a: 0 },
        }
    }

    /// The dark palette of the first design, with an indigo accent and
    /// bubbles around replies.
    pub fn classic_dark() -> (t: ThemeTokens)
        ensures
            t == classic_dark_palette(),
    {
        ThemeTokens {
            bg_base: from_rgb(18, 18, 22),
            bg_surface: from_rgb(24, 24, 28),
            bg_subtle: from_rgb(32, 32, 38),
            border_subtle: from_rgb(42, 42, 50),
            border_strong: from_rgb(63, 63, 74),
            accent_primary: from_rgb(99, 102, 241),
            text_primary: from_rgb(244, 244, 245),
            text_secondary: from_rgb(161, 161, 170),
            user_bubble_bg: from_rgb(79, 70, 229),
            assistant_bubble_bg: from_rgb(28, 28, 34),
        }
    }

    /// The light palette of the first design.
    pub fn classic_light() -> (t: ThemeTokens)
        ensures
            t == classic_light_palette(),
    {
        ThemeTokens {
            bg_base: from_rgb(250, 250, 250),
            bg_surface: from_rgb(255, 255, 255),
            bg_subtle: from_rgb(244, 244, 245),
            border_subtle: from_rgb(228, 228, 231),
            border_strong: from_rgb(212, 212, 216),
            accent_primary: from_rgb(79, 70, 229),
            text_primary: from_rgb(24, 24, 27),
            text_secondary: from_rgb(113, 113, 122),
            user_bubble_bg: from_rgb(79, 70, 229),
            assistant_bubble_bg: from_rgb(244, 244, 245),
        }
    }

    /// The palette for the chosen mode.
    pub fn for_mode(dark_mode: bool) -> (t: ThemeTokens)
        ensures
            t == if dark_mode {
                dark_palette()
            } else {
                light_palette()
            },
    {
        if dark_mode {
            ThemeTokens::dark()
        } else {
            ThemeTokens::light()
        }
    }
}

/// The fill of a control under the pointer.
pub fn hover_fill(dark_mode: bool) -> (c: Rgba)
    ensures
        c == if dark_mode {
            rgb(45, 45, 55)
        } else {
            rgb(230, 235, 240)
        },
{
    if dark_mode {
        from_rgb(45, 45, 55)
    } else {
        from_rgb(230, 235, 240)
    }
}

/// The fill of a control under the pointer, in the first design.
pub fn classic_hover_fill(dark_mode: bool) -> (c: Rgba)
    ensures
        c == if dark_mode {
            rgb(45, 45, 56)
        } else {
            rgb(238, 238, 242)
        },
{
    if dark_mode {
        from_rgb(45, 45, 56)
    } else {
        from_rgb(238, 238, 242)
    }
}

} // verus!
