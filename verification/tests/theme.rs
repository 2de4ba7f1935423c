use tui_common::theme::{contrast_text_for, Color, IconStyle};

#[test]
fn contrast_text_picks_black_on_bright_rgb() {
    // Bright yellow (luminance ~205) → black text.
    assert_eq!(
        contrast_text_for(Color::Rgb(240, 210, 130), Color::Magenta),
        Color::Black
    );
    // Bright green (~180) → black text.
    assert_eq!(
        contrast_text_for(Color::Rgb(140, 220, 160), Color::Magenta),
        Color::Black
    );
}

#[test]
fn contrast_text_picks_white_on_dark_rgb() {
    // Dark blue (~50) → white text.
    assert_eq!(
        contrast_text_for(Color::Rgb(40, 60, 90), Color::Magenta),
        Color::White
    );
    // Dark red (~75) → white text.
    assert_eq!(
        contrast_text_for(Color::Rgb(170, 30, 40), Color::Magenta),
        Color::White
    );
}

#[test]
fn contrast_text_uses_fallback_for_non_rgb() {
    // The helper must not panic on Color::Black / Color::Reset /
    // 16-palette indices etc., and should return the caller's
    // preferred fallback for them.
    let fallback = Color::Rgb(220, 222, 230);
    assert_eq!(contrast_text_for(Color::Reset, fallback), fallback);
    assert_eq!(contrast_text_for(Color::Black, fallback), fallback);
    assert_eq!(contrast_text_for(Color::Indexed(4), fallback), fallback);
}

#[test]
fn contrast_threshold_is_strictly_above_140() {
    // 299*140 + 587*140 + 114*140 = 140000 → luminance exactly 140 → white.
    assert_eq!(contrast_text_for(Color::Rgb(140, 140, 140), Color::Reset), Color::White);
    // 141 grey → 141 → black.
    assert_eq!(contrast_text_for(Color::Rgb(141, 141, 141), Color::Reset), Color::Black);
    assert_eq!(contrast_text_for(Color::Rgb(255, 255, 255), Color::Reset), Color::Black);
    // Exact luminance 140.299 is above the threshold → black.
    assert_eq!(contrast_text_for(Color::Rgb(141, 140, 140), Color::Reset), Color::Black);
    // 140 - 0.114 → white.
    assert_eq!(contrast_text_for(Color::Rgb(140, 140, 139), Color::Reset), Color::White);
    assert_eq!(contrast_text_for(Color::Rgb(0, 0, 0), Color::Reset), Color::White);
}

#[test]
fn icon_styles_are_distinct() {
    assert_ne!(IconStyle::Unicode, IconStyle::Ascii);
    assert_ne!(IconStyle::Ascii, IconStyle::Powerline);
    assert_eq!(IconStyle::Powerline, IconStyle::Powerline);
}
