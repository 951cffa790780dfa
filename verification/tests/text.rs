use germterm::base::buffer::flat::FlatBuffer;
use germterm::base::buffer::Buffer;
use germterm::base::draw::gfx::text::{draw_string, draw_text, try_draw_string, WrittenTracker};
use germterm::base::draw::{Position, Size};
use germterm::base::timer::NoDelta;
use germterm::base::widget::FrameContext;
use germterm::base::DisplayWidth;
use germterm::color::Color;
use germterm::style::Style;

fn make_buf(sz: Size) -> FlatBuffer {
    FlatBuffer::new(sz)
}

fn make_fc(buf: &mut FlatBuffer) -> FrameContext<'_, FlatBuffer, NoDelta> {
    FrameContext::new(NoDelta::new(), NoDelta::new(), buf, DisplayWidth::default())
}

fn none() -> WrittenTracker {
    WrittenTracker { cells: 0, bytes: 0 }
}

/// The text of every cell, row by row.
fn grid(buf: &FlatBuffer) -> Vec<Vec<String>> {
    let sz = buf.size();
    (0..sz.height)
        .map(|y| (0..sz.width).map(|x| buf.get_cell(Position::new(x, y)).as_str().to_string()).collect())
        .collect()
}

/// A row of the given cells.
fn r(cells: &[&str]) -> Vec<String> {
    cells.iter().map(|c| c.to_string()).collect()
}

/// `n` empty cells.
fn e(n: usize) -> Vec<String> {
    vec![" ".to_string(); n]
}

/// Rows put together from pieces.
fn row(pieces: Vec<Vec<String>>) -> Vec<String> {
    pieces.concat()
}

/// `n` empty rows `w` cells wide.
fn er(n: usize, w: usize) -> Vec<Vec<String>> {
    vec![e(w); n]
}

fn rows(parts: Vec<Vec<Vec<String>>>) -> Vec<Vec<String>> {
    parts.concat()
}

#[test]
fn zero_area_buffer_returns_zero() {
    let mut buf = make_buf(Size::zero());
    let written = draw_string(make_fc(&mut buf), Position::zero(), "hello");
    assert_eq!(written, none());
}

#[test]
fn zero_width_buffer_returns_zero() {
    let mut buf = make_buf(Size::new(0, 5));
    let written = draw_string(make_fc(&mut buf), Position::zero(), "hello");
    assert_eq!(written, none());
}

#[test]
fn zero_height_buffer_returns_zero() {
    let mut buf = make_buf(Size::new(5, 0));
    let written = draw_string(make_fc(&mut buf), Position::zero(), "hello");
    assert_eq!(written, none());
}

#[test]
fn start_x_out_of_bounds_returns_zero() {
    let mut buf = make_buf(Size::new(5, 3));
    let written = draw_string(make_fc(&mut buf), Position::new(5, 0), "hello");
    assert_eq!(written, none());

    assert_eq!(grid(&buf), rows(vec![vec![e(5)], er(2, 5)]));
}

#[test]
fn start_y_out_of_bounds_returns_zero() {
    let mut buf = make_buf(Size::new(5, 3));
    let written = draw_string(make_fc(&mut buf), Position::new(0, 3), "hello");
    assert_eq!(written, none());

    assert_eq!(grid(&buf), rows(vec![er(2, 5), vec![e(5)]]));
}

#[test]
fn empty_string_returns_zero() {
    let mut buf = make_buf(Size::new(5, 3));
    let written = draw_string(make_fc(&mut buf), Position::zero(), "");
    assert_eq!(written, none());

    assert_eq!(grid(&buf), rows(vec![vec![e(5)], er(2, 5)]));
}

#[test]
fn string_fits_entirely() {
    let mut buf = make_buf(Size::new(10, 3));
    let written = draw_string(make_fc(&mut buf), Position::zero(), "hello");
    assert_eq!(written, WrittenTracker { cells: 5, bytes: 5 });

    assert_eq!(grid(&buf), rows(vec![vec![row(vec![r(&["h", "e", "l", "l", "o"]), e(5)])], er(2, 10)]));
}

#[test]
fn string_truncated_at_right_edge() {
    let mut buf = make_buf(Size::new(5, 3));
    let written = draw_string(make_fc(&mut buf), Position::zero(), "hello world");
    assert_eq!(written, WrittenTracker { cells: 5, bytes: 5 });

    assert_eq!(grid(&buf), rows(vec![vec![r(&["h", "e", "l", "l", "o"])], er(2, 5)]));
}

#[test]
fn string_exactly_fills_width() {
    let mut buf = make_buf(Size::new(5, 2));
    let written = draw_string(make_fc(&mut buf), Position::zero(), "abcde");
    assert_eq!(written, WrittenTracker { cells: 5, bytes: 5 });

    assert_eq!(grid(&buf), rows(vec![vec![r(&["a", "b", "c", "d", "e"])], er(1, 5)]));
}

#[test]
fn start_at_nonzero_x() {
    let mut buf = make_buf(Size::new(10, 3));
    let written = draw_string(make_fc(&mut buf), Position::new(4, 0), "hello");
    assert_eq!(written, WrittenTracker { cells: 5, bytes: 5 });

    assert_eq!(
        grid(&buf),
        rows(vec![vec![row(vec![e(4), r(&["h", "e", "l", "l", "o", " "])])], er(2, 10)])
    );
}

#[test]
fn start_at_nonzero_y() {
    let mut buf = make_buf(Size::new(10, 3));
    let written = draw_string(make_fc(&mut buf), Position::new(0, 2), "hello");
    assert_eq!(written, WrittenTracker { cells: 5, bytes: 5 });

    assert_eq!(grid(&buf), rows(vec![er(2, 10), vec![row(vec![r(&["h", "e", "l", "l", "o"]), e(5)])]]));
}

#[test]
fn start_at_nonzero_x_and_y() {
    let mut buf = make_buf(Size::new(10, 3));
    let written = draw_string(make_fc(&mut buf), Position::new(3, 1), "test");
    assert_eq!(written, WrittenTracker { cells: 4, bytes: 4 });

    assert_eq!(
        grid(&buf),
        rows(vec![er(1, 10), vec![r(&[" ", " ", " ", "t", "e", "s", "t", " ", " ", " "])], er(1, 10)])
    );
}

#[test]
fn start_at_nonzero_x_truncated() {
    let mut buf = make_buf(Size::new(8, 2));
    let written = draw_string(make_fc(&mut buf), Position::new(5, 0), "hello");
    assert_eq!(written, WrittenTracker { cells: 3, bytes: 3 });

    assert_eq!(grid(&buf), rows(vec![vec![row(vec![e(5), r(&["h", "e", "l"])])], er(1, 8)]));
}

#[test]
fn single_cell_buffer() {
    let mut buf = make_buf(Size::new(1, 1));
    let written = draw_string(make_fc(&mut buf), Position::zero(), "hello");
    assert_eq!(written, WrittenTracker { cells: 1, bytes: 1 });

    assert_eq!(grid(&buf), vec![r(&["h"])]);
}

#[test]
fn single_char_string() {
    let mut buf = make_buf(Size::new(5, 2));
    let written = draw_string(make_fc(&mut buf), Position::new(2, 0), "x");
    assert_eq!(written, WrittenTracker { cells: 1, bytes: 1 });

    assert_eq!(grid(&buf), rows(vec![vec![row(vec![e(2), r(&["x"]), e(2)])], er(1, 5)]));
}

#[test]
fn emoji_takes_two_cells() {
    let mut buf = make_buf(Size::new(5, 2));
    let written = draw_string(make_fc(&mut buf), Position::zero(), "😀");
    assert_eq!(written, WrittenTracker { cells: 2, bytes: 4 });

    assert_eq!(grid(&buf), rows(vec![vec![row(vec![r(&["😀"]), e(4)])], vec![e(5)]]));
}

#[test]
fn multiple_emoji() {
    let mut buf = make_buf(Size::new(6, 2));
    let written = draw_string(make_fc(&mut buf), Position::zero(), "😀😎");
    assert_eq!(written, WrittenTracker { cells: 4, bytes: 8 });

    assert_eq!(
        grid(&buf),
        rows(vec![vec![row(vec![r(&["😀"]), e(1), r(&["😎"]), e(1), e(2)])], er(1, 6)])
    );
}

#[test]
fn emoji_truncated() {
    let mut buf = make_buf(Size::new(3, 2));
    let written = draw_string(make_fc(&mut buf), Position::zero(), "😀😀😀");
    assert_eq!(written, WrittenTracker { cells: 2, bytes: 4 });

    assert_eq!(grid(&buf), rows(vec![vec![row(vec![r(&["😀"]), e(2)])], er(1, 3)]));
}

#[test]
fn emoji_doesnt_fit_single_cell() {
    let mut buf = make_buf(Size::new(1, 2));
    let written = draw_string(make_fc(&mut buf), Position::zero(), "😀");
    assert_eq!(written, none());

    assert_eq!(grid(&buf), rows(vec![er(1, 1), vec![r(&[" "])]]));
}

#[test]
fn cjk_char_takes_two_cells() {
    let mut buf = make_buf(Size::new(5, 2));
    let written = draw_string(make_fc(&mut buf), Position::zero(), "中");
    assert_eq!(written, WrittenTracker { cells: 2, bytes: 3 });

    assert_eq!(grid(&buf), rows(vec![vec![row(vec![r(&["中"]), e(4)])], er(1, 5)]));
}

#[test]
fn cjk_mixed_with_ascii() {
    let mut buf = make_buf(Size::new(10, 2));
    let written = draw_string(make_fc(&mut buf), Position::zero(), "中文abc");
    assert_eq!(written, WrittenTracker { cells: 7, bytes: 9 });

    assert_eq!(
        grid(&buf),
        rows(vec![
            vec![row(vec![r(&["中"]), e(1), r(&["文"]), e(1), r(&["a", "b", "c"]), e(3)])],
            er(1, 10),
        ])
    );
}

#[test]
fn cjk_truncated() {
    let mut buf = make_buf(Size::new(3, 2));
    let written = draw_string(make_fc(&mut buf), Position::zero(), "中文");
    assert_eq!(written, WrittenTracker { cells: 2, bytes: 3 });

    assert_eq!(grid(&buf), rows(vec![vec![row(vec![r(&["中"]), e(2)])], er(1, 3)]));
}

#[test]
fn superscript_takes_one_cell() {
    let mut buf = make_buf(Size::new(5, 2));
    let written = draw_string(make_fc(&mut buf), Position::zero(), "x²");
    assert_eq!(written, WrittenTracker { cells: 2, bytes: 3 });

    assert_eq!(grid(&buf), rows(vec![vec![row(vec![r(&["x", "²"]), e(3)])], er(1, 5)]));
}

#[test]
fn mathematical_symbols() {
    let mut buf = make_buf(Size::new(10, 2));
    let written = draw_string(make_fc(&mut buf), Position::zero(), "x²+y³=z⁴");
    assert_eq!(written, WrittenTracker { cells: 8, bytes: 12 });

    assert_eq!(
        grid(&buf),
        rows(vec![vec![row(vec![r(&["x", "²", "+", "y", "³", "=", "z", "⁴"]), e(2)])], er(1, 10)])
    );
}

#[test]
fn mixed_unicode_content() {
    let mut buf = make_buf(Size::new(15, 2));
    let written = draw_string(make_fc(&mut buf), Position::zero(), "Hi中😀文");

    assert_eq!(written, WrittenTracker { cells: 8, bytes: 12 });
    assert_eq!(
        grid(&buf),
        rows(vec![
            vec![row(vec![r(&["H", "i", "中"]), e(1), r(&["😀"]), e(1), r(&["文"]), e(8)])],
            vec![e(15)],
        ])
    );
}

#[test]
fn draw_text_lays_its_style_over_written_cells() {
    let mut buf = make_buf(Size::new(6, 1));
    let style = Style::empty().with_fg(Some(Color::green()));
    let written = draw_text(make_fc(&mut buf), Position::new(1, 0), "ab", style, u16::MAX);
    assert_eq!(written, WrittenTracker { cells: 2, bytes: 2 });
    assert_eq!(buf.get_cell(Position::new(1, 0)).style().fg(), Some(Color::green()));
    assert_eq!(buf.get_cell(Position::new(2, 0)).style().fg(), Some(Color::green()));
    assert_eq!(buf.get_cell(Position::new(0, 0)).style().fg(), Some(Color::clear()));
    assert_eq!(buf.get_cell(Position::new(3, 0)).style().fg(), Some(Color::clear()));
}

#[test]
fn draw_text_limit_does_not_cut_inside_the_buffer() {
    let mut buf = make_buf(Size::new(10, 1));
    let written = draw_text(make_fc(&mut buf), Position::new(2, 0), "hello", Style::empty(), 4);
    assert_eq!(written, WrittenTracker { cells: 5, bytes: 5 });
    assert_eq!(grid(&buf), vec![row(vec![e(2), r(&["h", "e", "l", "l", "o"]), e(3)])]);
}

#[test]
fn draw_text_wide_grapheme_at_last_column_is_cut() {
    let mut buf = make_buf(Size::new(5, 1));
    let written = draw_text(make_fc(&mut buf), Position::new(4, 0), "中", Style::empty(), 0);
    assert_eq!(written, WrittenTracker { cells: 0, bytes: 0 });
    let written = draw_text(make_fc(&mut buf), Position::new(4, 0), "中", Style::empty(), u16::MAX);
    assert_eq!(written, WrittenTracker { cells: 0, bytes: 0 });
    assert_eq!(grid(&buf), vec![e(5)]);
}

#[test]
fn try_draw_string_refuses_text_that_would_leave_the_buffer() {
    let mut buf = make_buf(Size::new(4, 1));
    let fc = FrameContext::new(NoDelta::new(), NoDelta::new(), &mut buf, DisplayWidth::default());
    let written = germterm::base::draw::gfx::text::try_draw_text(fc, Position::zero(), "abcd\u{200B}", Style::empty(), 10);
    assert_eq!(written, None);
    assert_eq!(grid(&buf), vec![e(4)]);
}

#[test]
fn try_draw_text_cuts_at_the_edge_whatever_the_limit() {
    let mut buf = make_buf(Size::new(4, 1));
    let fc = FrameContext::new(NoDelta::new(), NoDelta::new(), &mut buf, DisplayWidth::default());
    let written = germterm::base::draw::gfx::text::try_draw_text(fc, Position::zero(), "hello", Style::empty(), 2);
    assert_eq!(written, Some(WrittenTracker { cells: 4, bytes: 4 }));
    assert_eq!(grid(&buf), vec![row(vec![r(&["h", "e", "l", "l"])])]);
}

#[test]
fn try_draw_string_draws_what_fits() {
    let mut buf = make_buf(Size::new(4, 1));
    let written = try_draw_string(make_fc(&mut buf), Position::zero(), "hey");
    assert_eq!(written, Some(WrittenTracker { cells: 3, bytes: 3 }));
    assert_eq!(grid(&buf), vec![row(vec![r(&["h", "e", "y"]), e(1)])]);
}

#[test]
fn display_width_of_wide_and_narrow_text() {
    let dw = DisplayWidth::default();
    assert_eq!(dw.str_width("hello"), 5);
    assert_eq!(dw.str_width("中文"), 4);
    assert_eq!(dw.str_width("😀"), 2);
    assert_eq!(dw.char_width('a'), 1);
    assert_eq!(dw.char_width('中'), 2);
    assert_eq!(dw.char_width('\u{7}'), 0);
}
