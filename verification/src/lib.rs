//! Shared helpers for terminal user interfaces: overlay sizing, theme
//! contrast, pixel-art splash frames, an editable single-line text buffer,
//! icon-setting resolution and small parsing utilities.
//!
//! Everything here is pure: terminal probing, file writes and drawing are
//! done by the caller, which hands the results to these functions.

pub mod encoding;
pub mod font_probe;
pub mod key;
pub mod overlay;
pub mod splash;
pub mod text_input;
pub mod theme;
pub mod util;
