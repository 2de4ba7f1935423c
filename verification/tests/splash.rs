use tui_common::splash::{render_frame, Alignment};
use tui_common::theme::Color;

#[test]
fn renders_double_cell_pixels_per_glyph() {
    // Two-row frame, three columns. Palette maps '#' to red, ' '
    // (and anything else) to transparent.
    let frame = &["#.#", ".#."];
    let palette = |c: char| -> Option<Color> {
        if c == '#' {
            Some(Color::Rgb(255, 0, 0))
        } else {
            None
        }
    };
    let lines = render_frame(frame, palette, 3);
    assert_eq!(lines.len(), 2, "one line per row");
    // Every span is exactly two cells wide — the █-block convention.
    for line in &lines {
        assert_eq!(line.spans.len(), 3, "one span per column");
        for span in &line.spans {
            assert_eq!(
                span.content.chars().count(),
                2,
                "every cell renders to exactly two terminal cells",
            );
        }
    }
    // First row: ██ in red, transparent, ██ in red.
    assert_eq!(lines[0].spans[0].content, "██");
    assert_eq!(lines[0].spans[0].style.fg, Some(Color::Rgb(255, 0, 0)));
    assert_eq!(lines[0].spans[1].content, "  ");
    assert_eq!(lines[0].spans[1].style.fg, None);
}

#[test]
fn pads_short_rows_via_palette_default() {
    // Row is two chars, cols = 5 → the last 3 columns get the
    // default ' ' character. Palette returns None for space, so
    // those three cells render transparent.
    let frame = &["##"];
    let palette = |c: char| -> Option<Color> {
        if c == '#' {
            Some(Color::Rgb(0, 255, 0))
        } else {
            None
        }
    };
    let lines = render_frame(frame, palette, 5);
    assert_eq!(lines[0].spans.len(), 5);
    for (i, span) in lines[0].spans.iter().enumerate() {
        if i < 2 {
            assert_eq!(span.content, "██");
        } else {
            assert_eq!(
                span.content,
                "  ",
                "col {i} should be transparent pad"
            );
        }
    }
}

#[test]
fn empty_input_yields_empty_output() {
    let lines = render_frame(&[], |_| Some(Color::Black), 10);
    assert!(lines.is_empty());
}

#[test]
fn lines_are_centred_and_long_rows_are_cut_to_cols() {
    let frame = &["ab\u{e9}xyz"];
    let palette = |c: char| -> Option<Color> {
        match c {
            'a' => Some(Color::Red),
            '\u{e9}' => Some(Color::Indexed(7)),
            ' ' => Some(Color::Blue),
            _ => None,
        }
    };
    let lines = render_frame(frame, palette, 4);
    assert_eq!(lines[0].alignment, Some(Alignment::Center));
    let fgs: Vec<Option<Color>> = lines[0].spans.iter().map(|s| s.style.fg).collect();
    assert_eq!(fgs, vec![Some(Color::Red), None, Some(Color::Indexed(7)), None]);
    // Past the row's end the palette sees a space.
    let lines = render_frame(&["a"], palette, 2);
    assert_eq!(lines[0].spans[1].style.fg, Some(Color::Blue));
    assert_eq!(lines[0].spans[1].content, "██");
}
