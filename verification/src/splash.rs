//! Pixel-art frame rendering for splash / about scenes.
//!
//! Each app brings its own frame data (one string per row) and its own
//! palette (`char -> Option<Color>`); the rendering loop is shared.
//! Logical pixels render as two-cell `██` blocks so they are roughly
//! square in the terminal cell grid; transparent cells (palette returns
//! `None`) render as two spaces.

use vstd::prelude::*;
use vstd::string::*;

use crate::encoding::chars_of;
use crate::theme::Color;

verus! {

/// Horizontal alignment of a line.
#[derive(Debug, Clone, Copy, PartialEq, Eq, Structural)]
pub enum Alignment {
    Left,
    Center,
    Right,
}

/// How a span is drawn: its foreground colour, if any.
#[derive(Debug, Clone, Copy, PartialEq, Eq, Structural)]
pub struct Style {
    pub fg: Option<Color>,
}

/// A run of text drawn in one style.
#[derive(Debug, Clone, Copy, PartialEq, Eq)]
pub struct Span {
    pub content: &'static str,
    pub style: Style,
}

/// One line of spans, with its alignment.
#[derive(Debug, Clone, PartialEq, Eq)]
pub struct Line {
    pub spans: Vec<Span>,
    pub alignment: Option<Alignment>,
}

/// The glyph that decides frame column `col` of a row: the row's
/// character there, or a space past the row's end.
pub open spec fn frame_key(row: Seq<char>, col: int) -> char {
    if col < row.len() {
        row[col]
    } else {
        ' '
    }
}

/// The text of one pixel: a two-cell block when coloured, two spaces when
/// transparent.
pub open spec fn pixel_text(fg: Option<Color>) -> Seq<char> {
    if fg is Some {
        seq!['\u{2588}', '\u{2588}']
    } else {
        seq![' ', ' ']
    }
}

/// `line` renders `row` over `cols` columns with `palette_fn`.
pub open spec fn renders_row<F: Fn(char) -> Option<Color>>(
    line: Line,
    row: Seq<char>,
    palette_fn: F,
    cols: int,
) -> bool {
    &&& line.alignment == Some(Alignment::Center)
    &&& line.spans@.len() == cols
    &&& forall|j: int|
        0 <= j < cols ==> {
            &&& call_ensures(palette_fn, (frame_key(row, j),), (#[trigger] line.spans@[j]).style.fg)
            &&& line.spans@[j].content@ == pixel_text(line.spans@[j].style.fg)
        }
}

/// Render one frame of pixel art into centre-aligned lines. Each frame row
/// gives one line; each of its `cols` columns gives one two-cell span,
/// coloured by `palette_fn` applied to the row's glyph there. Columns past
/// a short row's end render as `palette_fn(' ')`; a palette that maps a
/// space to `None` pads them with transparent cells.
pub fn render_frame<F: Fn(char) -> Option<Color>>(
    frame_rows: &[&str],
    palette_fn: F,
    cols: usize,
) -> (lines: Vec<Line>)
    requires
        forall|c: char| palette_fn.requires((c,)),
    ensures
        lines@.len() == frame_rows@.len(),
        forall|i: int|
            0 <= i < frame_rows@.len() ==> renders_row(
                #[trigger] lines@[i],
                frame_rows@[i]@,
                palette_fn,
                cols as int,
            ),
        forall|i: int|
            0 <= i < frame_rows@.len() ==> (#[trigger] lines@[i]).alignment == Some(
                Alignment::Center,
            ) && lines@[i].spans@.len() == cols,
        forall|i: int, j: int|
            0 <= i < frame_rows@.len() && 0 <= j < cols ==> {
                &&& call_ensures(
                    palette_fn,
                    ((if j < frame_rows@[i]@.len() {
                        frame_rows@[i]@[j]
                    } else {
                        ' '
                    }),),
                    (#[trigger] lines@[i].spans@[j]).style.fg,
                )
                &&& lines@[i].spans@[j].content@ == (if lines@[i].spans@[j].style.fg is Some {
                    seq!['\u{2588}', '\u{2588}']
                } else {
                    seq![' ', ' ']
                })
            },
{
    let lines = render_lines(frame_rows, palette_fn, cols);
    proof {
        assert forall|i: int| 0 <= i < frame_rows@.len() implies (#[trigger] lines@[i]).alignment
            == Some(Alignment::Center) && lines@[i].spans@.len() == cols by {
            assert(renders_row(lines@[i], frame_rows@[i]@, palette_fn, cols as int));
        }
        assert forall|i: int, j: int| 0 <= i < frame_rows@.len() && 0 <= j < cols implies {
            &&& call_ensures(
                palette_fn,
                ((if j < frame_rows@[i]@.len() {
                    frame_rows@[i]@[j]
                } else {
                    ' '
                }),),
                (#[trigger] lines@[i].spans@[j]).style.fg,
            )
            &&& lines@[i].spans@[j].content@ == (if lines@[i].spans@[j].style.fg is Some {
                seq!['\u{2588}', '\u{2588}']
            } else {
                seq![' ', ' ']
            })
        } by {
            assert(renders_row(lines@[i], frame_rows@[i]@, palette_fn, cols as int));
            frame_key_is_glyph_or_space(frame_rows@[i]@, j);
            pixel_text_is_block_or_blank(lines@[i].spans@[j].style.fg);
        }
    }
    lines
}

/// The key for a frame column is the row's own character there, unchanged,
/// and a space past the row's end.
pub proof fn frame_key_is_glyph_or_space(row: Seq<char>, col: int)
    requires
        0 <= col,
    ensures
        col < row.len() ==> frame_key(row, col) == row[col],
        col >= row.len() ==> frame_key(row, col) == ' ',
{
}

/// A coloured pixel is two full blocks, a transparent one two spaces.
pub proof fn pixel_text_is_block_or_blank(fg: Option<Color>)
    ensures
        fg is Some ==> pixel_text(fg) == seq!['\u{2588}', '\u{2588}'],
        fg is None ==> pixel_text(fg) == seq![' ', ' '],
{
}

fn render_lines<F: Fn(char) -> Option<Color>>(
    frame_rows: &[&str],
    palette_fn: F,
    cols: usize,
) -> (lines: Vec<Line>)
    requires
        forall|c: char| palette_fn.requires((c,)),
    ensures
        lines@.len() == frame_rows@.len(),
        forall|i: int|
            0 <= i < frame_rows@.len() ==> renders_row(
                #[trigger] lines@[i],
                frame_rows@[i]@,
                palette_fn,
                cols as int,
            ),
{
    let mut lines: Vec<Line> = Vec::new();
    let mut i: usize = 0;
    while i < frame_rows.len()
        invariant
            i <= frame_rows@.len(),
            lines@.len() == i,
            forall|c: char| palette_fn.requires((c,)),
            forall|k: int|
                0 <= k < i ==> renders_row(
                    #[trigger] lines@[k],
                    frame_rows@[k]@,
                    palette_fn,
                    cols as int,
                ),
        decreases frame_rows@.len() - i,
    {
        let row: &str = frame_rows[i];
        let chars = chars_of(row);
        let mut spans: Vec<Span> = Vec::new();
        let mut col: usize = 0;
        while col < cols
            invariant
                col <= cols,
                chars@ == row@,
                spans@.len() == col,
                forall|c: char| palette_fn.requires((c,)),
                forall|j: int|
                    0 <= j < col ==> {
                        &&& call_ensures(
                            palette_fn,
                            (frame_key(row@, j),),
                            (#[trigger] spans@[j]).style.fg,
                        )
                        &&& spans@[j].content@ == pixel_text(spans@[j].style.fg)
                    },
            decreases cols - col,
        {
            let key = if col < chars.len() {
                chars[col]
            } else {
                ' '
            };
            let fg = palette_fn(key);
            proof {
                reveal_strlit("\u{2588}\u{2588}");
                reveal_strlit("  ");
            }
            let span = match fg {
                Some(color) => Span { content: "\u{2588}\u{2588}", style: Style { fg: Some(color) } },
                None => Span { content: "  ", style: Style { fg: None } },
            };
            spans.push(span);
            col = col + 1;
        }
        let line = Line { spans, alignment: Some(Alignment::Center) };
        lines.push(line);
        i = i + 1;
    }
    lines
}

} // verus!
