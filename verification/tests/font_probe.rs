use tui_common::font_probe::{classify_advance, classify_auto, resolve_icons_setting};

fn no_probe() -> (bool, bool) {
    panic!("the probe must only run for `auto`")
}

#[test]
fn classify_one_cell_advance_is_supported() {
    assert!(classify_advance(1));
}

#[test]
fn classify_other_advances_are_unsupported() {
    assert!(!classify_advance(0));
    assert!(!classify_advance(2));
    assert!(!classify_advance(7));
}

#[test]
fn classify_auto_powerline_with_tab_icons_works_cleanly() {
    let r = classify_auto(true, true);
    assert_eq!(r.icons, "powerline");
    assert!(!r.warn_tab_icons_missing);
}

#[test]
fn classify_auto_powerline_without_tab_icons_warns() {
    // Common case: Powerline-aware terminal font (E0B0 works) but no
    // MDI codepoints (F048B doesn't). The auto-resolve still picks
    // powerline because most of the chrome works, but the warning
    // flag fires so the user gets a log entry pointing at the
    // tab-strip misalignment.
    let r = classify_auto(true, false);
    assert_eq!(r.icons, "powerline");
    assert!(r.warn_tab_icons_missing);
}

#[test]
fn classify_auto_no_powerline_picks_unicode_and_does_not_warn() {
    // No Powerline support at all → unicode fallback; tab-icon probe
    // is irrelevant because we never use those glyphs in unicode mode.
    // Warning would be confusing in this case.
    let r = classify_auto(false, false);
    assert_eq!(r.icons, "unicode");
    assert!(!r.warn_tab_icons_missing);

    // Same outcome if tab_icons somehow probes true but Powerline
    // didn't — the icons setting is the gatekeeper, no warning needed.
    let r = classify_auto(false, true);
    assert_eq!(r.icons, "unicode");
    assert!(!r.warn_tab_icons_missing);
}

#[test]
fn resolve_passes_through_non_auto_values() {
    assert_eq!(resolve_icons_setting("unicode", no_probe).icons, "unicode");
    assert_eq!(resolve_icons_setting("ascii", no_probe).icons, "ascii");
    assert_eq!(resolve_icons_setting("powerline", no_probe).icons, "powerline");
    // Unknown values are passed through untouched; the theme parser
    // has the fallback logic for those.
    assert_eq!(resolve_icons_setting("nerd", no_probe).icons, "nerd");
    assert_eq!(resolve_icons_setting("bogus", no_probe).icons, "bogus");
}

#[test]
fn resolve_only_literal_auto_runs_the_probe() {
    let r = resolve_icons_setting("auto", || (true, false));
    assert_eq!(r.icons, "powerline");
    assert!(r.warn_tab_icons_missing);
    let r = resolve_icons_setting("auto", || (false, true));
    assert_eq!(r.icons, "unicode");
    assert!(!r.warn_tab_icons_missing);
    let r = resolve_icons_setting("auto", || (true, true));
    assert_eq!(r.icons, "powerline");
    assert!(!r.warn_tab_icons_missing);
    // Case variants are not `auto`: they pass through, probe untouched.
    let r = resolve_icons_setting("AUTO", no_probe);
    assert_eq!(r.icons, "AUTO");
    assert!(!r.warn_tab_icons_missing);
    let r = resolve_icons_setting("Auto", no_probe);
    assert_eq!(r.icons, "Auto");
    let r = resolve_icons_setting("unicode", no_probe);
    assert!(!r.warn_tab_icons_missing);
}
