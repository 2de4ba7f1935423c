//! Decisions around the terminal font probe.
//!
//! The probe itself writes a Powerline triangle (`U+E0B0`) and asks the
//! terminal where the cursor ended up: a patched font draws the glyph in
//! one cell. That terminal I/O is the caller's; what stands here is how
//! its answers are read and how a configured icon style is resolved.

use vstd::prelude::*;

use crate::util::str_eq;

verus! {

/// A one-cell advance signals a patched font. Anything else (zero when the
/// glyph was dropped entirely; two when a wide replacement fired; large
/// when the terminal swallowed the probe and gave a stale answer) is
/// treated as unsupported.
pub fn classify_advance(advance: u16) -> (r: bool)
    ensures
        r == (advance == 1),
{
    advance == 1
}

/// Resolved-from-`auto` outcome: the final icons setting plus a flag that
/// says "powerline was picked, but the MDI block looks broken: warn".
#[derive(Debug, PartialEq, Eq)]
pub struct AutoResolved {
    pub icons: &'static str,
    pub warn_tab_icons_missing: bool,
}

/// `auto` resolves to `powerline` when the Powerline glyph renders in one
/// cell, warning when the Nerd Font MDI glyph does not; otherwise to
/// `unicode`, without a warning.
pub fn classify_auto(powerline: bool, tab_icons: bool) -> (r: AutoResolved)
    ensures
        r.icons@ == (if powerline {
            "powerline"@
        } else {
            "unicode"@
        }),
        r.warn_tab_icons_missing == (powerline && !tab_icons),
{
    if powerline {
        AutoResolved { icons: "powerline", warn_tab_icons_missing: !tab_icons }
    } else {
        AutoResolved { icons: "unicode", warn_tab_icons_missing: false }
    }
}

/// A resolved icon setting, and whether the caller should warn that the
/// Detail-view tab icons may misalign.
#[derive(Debug, PartialEq, Eq)]
pub struct IconsSetting {
    pub icons: String,
    pub warn_tab_icons_missing: bool,
}

/// Resolve a configured icon style. Exactly `"auto"` runs
/// `probe`, which answers whether the Powerline glyph (`U+E0B0`) and the
/// Nerd Font MDI glyph (`U+F048B`) render one cell wide, and resolves as
/// [`classify_auto`] does; any other value (`"AUTO"` included) is passed
/// through unchanged, so the theme parser handles it (and its fallback
/// covers typos). `probe` is only run for `"auto"`: it need not be callable
/// for any other value.
pub fn resolve_icons_setting<P: FnOnce() -> (bool, bool)>(raw: &str, probe: P) -> (r:
    IconsSetting)
    requires
        raw@ == "auto"@ ==> probe.requires(()),
    ensures
        raw@ != "auto"@ ==> r.icons@ == raw@ && !r.warn_tab_icons_missing,
        raw@ == "auto"@ ==> exists|answer: (bool, bool)|
            {
                &&& #[trigger] probe.ensures((), answer)
                &&& r.icons@ == (if answer.0 {
                    "powerline"@
                } else {
                    "unicode"@
                })
                &&& r.warn_tab_icons_missing == (answer.0 && !answer.1)
            },
{
    if str_eq(raw, "auto") {
        let answer = probe();
        let resolved = classify_auto(answer.0, answer.1);
        IconsSetting {
            icons: String::from_str(resolved.icons),
            warn_tab_icons_missing: resolved.warn_tab_icons_missing,
        }
    } else {
        IconsSetting { icons: String::from_str(raw), warn_tab_icons_missing: false }
    }
}

} // verus!
