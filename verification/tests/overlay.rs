use tui_common::overlay::{centered_overlay, centered_rect, overlay_dims, OverlaySize, Rect};

#[test]
fn overlay_dims_ordering_makes_sense() {
    // Each category is strictly bigger than the previous one on at
    // least one axis. If a future change accidentally inverts this
    // (e.g. Small > Picker), the visual hierarchy breaks.
    let (sw, sh) = overlay_dims(OverlaySize::Small);
    let (pw, ph) = overlay_dims(OverlaySize::Picker);
    let (tw, th) = overlay_dims(OverlaySize::Text);
    let (ww, wh) = overlay_dims(OverlaySize::Wide);
    assert!(sw <= pw && sh <= ph, "Picker not smaller than Small");
    assert!(pw <= tw && ph <= th, "Text not bigger than Picker");
    assert!(tw <= ww && th <= wh, "Wide not bigger than Text");
}

#[test]
fn overlay_dims_are_within_legal_percent_range() {
    // Categories are stored as integer percentages; > 100 would
    // panic the layout, < 10 would render an invisibly tiny
    // popup. Pin both ends.
    for size in [
        OverlaySize::Small,
        OverlaySize::Picker,
        OverlaySize::Text,
        OverlaySize::Wide,
    ] {
        let (w, h) = overlay_dims(size);
        assert!((10..=100).contains(&w), "{size:?} width {w} out of range");
        assert!((10..=100).contains(&h), "{size:?} height {h} out of range");
    }
}

#[test]
fn overlay_dims_exact_table() {
    assert_eq!(overlay_dims(OverlaySize::Small), (50, 40));
    assert_eq!(overlay_dims(OverlaySize::Picker), (60, 60));
    assert_eq!(overlay_dims(OverlaySize::Text), (70, 70));
    assert_eq!(overlay_dims(OverlaySize::Wide), (85, 80));
}

#[test]
fn centered_rect_centres_inside_area() {
    let area = Rect { x: 0, y: 0, width: 100, height: 50 };
    let r = centered_rect(50, 40, area);
    assert_eq!(r, Rect { x: 25, y: 15, width: 50, height: 20 });
    let area = Rect { x: 10, y: 5, width: 200, height: 100 };
    let r = centered_rect(60, 60, area);
    assert_eq!(r, Rect { x: 50, y: 25, width: 120, height: 60 });
}

#[test]
fn centered_overlay_uses_the_category_size() {
    let area = Rect { x: 0, y: 0, width: 100, height: 50 };
    assert_eq!(centered_overlay(OverlaySize::Small, area), centered_rect(50, 40, area));
    assert_eq!(centered_overlay(OverlaySize::Wide, area), centered_rect(85, 80, area));
    let full = centered_rect(100, 100, area);
    assert_eq!(full, area);
}
