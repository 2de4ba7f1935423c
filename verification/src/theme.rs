//! Theme primitives shared across apps: the glyph-set preference, colours
//! as the theme logic reads them, and the black-or-white text picker.

use vstd::prelude::*;

verus! {

/// Operator's preferred glyph set. `Unicode` is the default; `Ascii` is
/// for terminals that can't render common Unicode glyphs at all (CI logs,
/// some legacy emulators); `Powerline` opts into the patched-font / Nerd
/// Font range (E0B0+ separators, MDI icons) when the user knows their font
/// supports it (or the font probe auto-detected it).
#[derive(Debug, Clone, Copy, PartialEq, Eq, Structural)]
pub enum IconStyle {
    Unicode,
    Ascii,
    /// Opt-in glyph set for terminals using a Powerline-patched or Nerd
    /// Font. Uses U+E0B0+ separators in headers / breadcrumbs / footers;
    /// otherwise behaves like Unicode for icons whose Powerline equivalent
    /// isn't a clear win.
    Powerline,
}

/// A terminal colour: one of the sixteen named ANSI colours, the terminal's
/// default (`Reset`), a 24-bit `Rgb` colour or an 8-bit `Indexed` one. The
/// variants are those of `ratatui`'s `Color`, one for one.
#[derive(Debug, Clone, Copy, PartialEq, Eq, Hash, Structural)]
pub enum Color {
    Reset,
    Black,
    Red,
    Green,
    Yellow,
    Blue,
    Magenta,
    Cyan,
    Gray,
    DarkGray,
    LightRed,
    LightGreen,
    LightYellow,
    LightBlue,
    LightMagenta,
    LightCyan,
    White,
    Rgb(u8, u8, u8),
    Indexed(u8),
}

/// Perceived luminance of an RGB colour, scaled by 1000: the exact value
/// 0.299·R + 0.587·G + 0.114·B times 1000.
pub open spec fn luminance_milli(r: u8, g: u8, b: u8) -> int {
    299 * r + 587 * g + 114 * b
}

/// Black text on backgrounds whose luminance exceeds 140 (of 255), white
/// text on the others;
/// the fallback for colours that are not RGB.
pub open spec fn contrast_text_spec(bg: Color, non_rgb_fallback: Color) -> Color {
    match bg {
        Color::Rgb(r, g, b) => if luminance_milli(r, g, b) > 140_000 {
            Color::Black
        } else {
            Color::White
        },
        _ => non_rgb_fallback,
    }
}

/// Pick black or white text against a coloured background, whichever
/// gives better contrast. Uses the perceived-luminance formula
/// (0.299·R + 0.587·G + 0.114·B), thresholded at 140/255 to favour black
/// text on bright pill backgrounds. Falls back to `non_rgb_fallback` for
/// non-RGB colours (`Color::Black` / `Color::Reset` / etc.): the caller
/// passes whichever foreground their theme uses as the default, so themed
/// pill text stays readable across terminals that re-map the 16-colour
/// palette.
pub fn contrast_text_for(bg: Color, non_rgb_fallback: Color) -> (r: Color)
    ensures
        r == contrast_text_spec(bg, non_rgb_fallback),
        bg matches Color::Rgb(red, green, blue) ==> r == (if 299 * red + 587 * green + 114 * blue
            > 140_000 {
            Color::Black
        } else {
            Color::White
        }),
        !(bg is Rgb) ==> r == non_rgb_fallback,
{
    proof {
        contrast_follows_weighted_luminance(bg, non_rgb_fallback);
    }
    match bg {
        Color::Rgb(r, g, b) => {
            let luminance_milli = 299 * (r as u32) + 587 * (g as u32) + 114 * (b as u32);
            if luminance_milli > 140_000 {
                Color::Black
            } else {
                Color::White
            }
        },
        _ => non_rgb_fallback,
    }
}

/// The text colour is black exactly when the background's luminance
/// 0.299·R + 0.587·G + 0.114·B exceeds 140 (red weighted 299, green 587,
/// blue 114, per mille), white on other RGB backgrounds, and the fallback
/// on every colour that is not RGB.
pub proof fn contrast_follows_weighted_luminance(bg: Color, fb: Color)
    ensures
        bg matches Color::Rgb(r, g, b) ==> contrast_text_spec(bg, fb) == (if 299 * r + 587 * g
            + 114 * b > 140_000 {
            Color::Black
        } else {
            Color::White
        }),
        !(bg is Rgb) ==> contrast_text_spec(bg, fb) == fb,
{
}

/// The picked text colour is black or white on every RGB background, and
/// brighter backgrounds never get white text where a darker one gets black.
pub proof fn contrast_is_monotone(r1: u8, g1: u8, b1: u8, r2: u8, g2: u8, b2: u8, fb: Color)
    requires
        r1 <= r2,
        g1 <= g2,
        b1 <= b2,
    ensures
        contrast_text_spec(Color::Rgb(r1, g1, b1), fb) == Color::Black || contrast_text_spec(
            Color::Rgb(r1, g1, b1),
            fb,
        ) == Color::White,
        contrast_text_spec(Color::Rgb(r1, g1, b1), fb) == Color::Black ==> contrast_text_spec(
            Color::Rgb(r2, g2, b2),
            fb,
        ) == Color::Black,
{
}

} // verus!
