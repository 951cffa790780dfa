use germterm::base::buffer::blended::BlendedBuffer;
use germterm::base::buffer::flat::FlatBuffer;
use germterm::base::buffer::layered::LayeredBuffer;
use germterm::base::buffer::{Buffer, Drawer};
use germterm::base::compositor::{compose_cell, merge_octad};
use germterm::base::draw::{Position, Size};
use germterm::cell::{Cell, CellFormat};
use germterm::color::Color;
use germterm::style::{Attributes, Style};

fn pos() -> Position {
    Position::new(0, 0)
}

fn size() -> Size {
    Size::new(1, 1)
}

// Convenience helper for constructing a flat blended 1x1 buffer
fn flat_blended_buf_opaque_fill() -> BlendedBuffer<FlatBuffer> {
    BlendedBuffer::new(FlatBuffer::new(size()))
}

// Convenience helper for constructing a layered blended 1x1 buffer
fn layered_blended_buf() -> LayeredBuffer<BlendedBuffer<FlatBuffer>, impl Fn(Size) -> BlendedBuffer<FlatBuffer>> {
    LayeredBuffer::new(size(), |size| {
        let clear = Style::new(Some(Color::clear()), Some(Color::clear()), Attributes::empty());
        let black_bg_cell = Cell::new(" ", clear.with_bg(Some(Color::black())));
        BlendedBuffer::new(FlatBuffer::new_with_cell(size, black_bg_cell))
    })
}

// Convenience helper for drawing a single standard cell at (0, 0)
fn draw_standard_cell<Buf: Buffer>(buf: &mut Buf, ch: &str, fg: Option<Color>, bg: Option<Color>) {
    buf.set_cell(pos(), Cell::new(ch, Style::empty().with_fg(fg).with_bg(bg)));
}

fn buf_cell<Buf: Buffer>(buf: &Buf) -> &Cell {
    buf.get_cell(pos())
}

fn transparent() -> Option<Color> {
    Some(Color::clear())
}

fn expect(cell: &Cell, ch: &str, style: Style) {
    assert_eq!(cell.as_str(), ch);
    assert_eq!(cell.style(), style);
    assert_eq!(cell.format, CellFormat::Standard);
}

#[test]
fn cell_clear_bg_over_opaque_bg() {
    let mut buf = flat_blended_buf_opaque_fill();

    draw_standard_cell(&mut buf, "a", Some(Color::white()), Some(Color::black()));
    draw_standard_cell(&mut buf, "a", Some(Color::white()), None);

    // A cell without a background clears the background below it.
    expect(buf_cell(&buf), "a", Style::new(Some(Color::white()), None, Attributes::empty()));
}

#[test]
fn cell_opaque_fg_over_opaque_fg() {
    let mut buf = flat_blended_buf_opaque_fill();

    draw_standard_cell(&mut buf, "*", Some(Color::black()), transparent());
    draw_standard_cell(&mut buf, "*", Some(Color::white()), transparent());

    expect(buf_cell(&buf), "*", Style::new(Some(Color::white()), transparent(), Attributes::empty()));
}

#[test]
fn cell_transparent_bg_over_opaque_bg() {
    let mut buf = flat_blended_buf_opaque_fill();

    draw_standard_cell(&mut buf, " ", transparent(), Some(Color::red()));
    draw_standard_cell(&mut buf, " ", transparent(), transparent());

    expect(buf_cell(&buf), " ", Style::new(transparent(), Some(Color::red()), Attributes::empty()));
}

#[test]
fn cell_transparent_fg_over_opaque_fg() {
    let mut buf = flat_blended_buf_opaque_fill();

    draw_standard_cell(&mut buf, "*", Some(Color::red()), transparent());
    draw_standard_cell(&mut buf, "*", transparent(), transparent());

    expect(buf_cell(&buf), "*", Style::new(Some(Color::red()), transparent(), Attributes::empty()));
}

#[test]
fn cell_translucent_bg_over_opaque_bg() {
    let mut buf = flat_blended_buf_opaque_fill();

    draw_standard_cell(&mut buf, " ", transparent(), Some(Color::black()));
    draw_standard_cell(&mut buf, " ", transparent(), Some(Color::red().with_alpha(127)));

    expect(buf_cell(&buf), " ", Style::new(transparent(), Some(Color::new(127, 0, 0, 255)), Attributes::empty()));
}

#[test]
fn cell_translucent_fg_over_opaque_fg() {
    let mut buf = flat_blended_buf_opaque_fill();

    draw_standard_cell(&mut buf, "*", Some(Color::black()), transparent());
    draw_standard_cell(&mut buf, "*", Some(Color::red().with_alpha(127)), transparent());

    expect(buf_cell(&buf), "*", Style::new(Some(Color::new(127, 0, 0, 255)), transparent(), Attributes::empty()));
}

#[test]
fn cell_translucent_bg_over_transparent_bg() {
    let mut buf = flat_blended_buf_opaque_fill();

    draw_standard_cell(&mut buf, " ", transparent(), Some(Color::red().with_alpha(127)));

    expect(buf_cell(&buf), " ", Style::new(transparent(), Some(Color::new(127, 0, 0, 127)), Attributes::empty()));
}

#[test]
fn cell_translucent_fg_over_transparent_fg() {
    let mut buf = flat_blended_buf_opaque_fill();

    draw_standard_cell(&mut buf, "*", Some(Color::red().with_alpha(127)), transparent());

    expect(buf_cell(&buf), "*", Style::new(Some(Color::new(127, 0, 0, 127)), transparent(), Attributes::empty()));
}

#[test]
fn cell_translucent_fg_over_opaque_fg_char_interpolation() {
    let mut buf = flat_blended_buf_opaque_fill();

    draw_standard_cell(&mut buf, "a", Some(Color::red()), transparent());
    draw_standard_cell(&mut buf, "b", Some(Color::blue().with_alpha(127)), transparent());

    expect(buf_cell(&buf), "b", Style::new(Some(Color::new(128, 0, 127, 255)), transparent(), Attributes::empty()));
}

#[test]
fn cell_cover_fg_with_opaque_bg() {
    let mut buf = flat_blended_buf_opaque_fill();

    draw_standard_cell(&mut buf, "*", Some(Color::red()), transparent());
    draw_standard_cell(&mut buf, "a", transparent(), Some(Color::dark_gray()));

    expect(buf_cell(&buf), " ", Style::new(Some(Color::red()), Some(Color::dark_gray()), Attributes::empty()));
}

#[test]
fn cell_transparent_fg_transparent_bg_over_opaque_fg() {
    let mut buf = flat_blended_buf_opaque_fill();

    draw_standard_cell(&mut buf, "*", Some(Color::red()), transparent());
    draw_standard_cell(&mut buf, " ", transparent(), transparent());

    expect(buf_cell(&buf), "*", Style::new(Some(Color::red()), transparent(), Attributes::empty()));
}

#[test]
fn same_layer_transparent_bg_over_opaque_bg() {
    let mut buf = layered_blended_buf();

    draw_standard_cell(&mut buf, " ", transparent(), Some(Color::black()));
    draw_standard_cell(&mut buf, " ", transparent(), Some(Color::red().with_alpha(127)));

    expect(buf_cell(&buf), " ", Style::new(transparent(), Some(Color::new(127, 0, 0, 255)), Attributes::empty()));
}

#[test]
fn layered_draw_composes_every_layer() {
    let mut buf = layered_blended_buf();
    draw_standard_cell(&mut buf, "x", Some(Color::white()), Some(Color::black()));
    buf.select_layer(1);
    draw_standard_cell(&mut buf, "y", Some(Color::red()), None);
    let calls = buf.draw();
    assert_eq!(calls.len(), 1);
    assert_eq!(calls[0].pos, pos());
    assert_eq!(calls[0].cell.as_str(), "y");
    assert_eq!(calls[0].cell.style().fg(), Some(Color::red()));
    // The top layer's cell has no background left: composing it clears it.
    assert_eq!(calls[0].cell.style().bg(), None);
}

#[test]
fn compose_opaque_top_replaces() {
    let mut bottom = Cell::new("a", Style::new(Some(Color::green()), Some(Color::blue()), Attributes::empty()));
    let top = Cell::new("b", Style::new(Some(Color::red()), Some(Color::white()), Attributes::empty()));
    compose_cell(&mut bottom, &top, Color::black());
    assert_eq!(bottom.as_str(), "b");
    assert_eq!(bottom.style().fg(), Some(Color::red()));
    assert_eq!(bottom.style().bg(), Some(Color::white()));
}

#[test]
fn compose_colorless_top_clears_colors() {
    let mut bottom = Cell::new("a", Style::new(Some(Color::green()), Some(Color::blue()), Attributes::empty()));
    let top = Cell::new("b", Style::empty());
    compose_cell(&mut bottom, &top, Color::black());
    assert_eq!(bottom.style().fg(), None);
    assert_eq!(bottom.style().bg(), None);
}

#[test]
fn merge_octad_unions_the_dots() {
    assert_eq!(merge_octad('\u{2801}', '\u{2802}'), '\u{2803}');
    assert_eq!(merge_octad('\u{2800}', '\u{28FF}'), '\u{28FF}');
    assert_eq!(merge_octad('\u{2841}', '\u{2841}'), '\u{2841}');
}

#[test]
fn blend_opaque_top_replaces() {
    let bottom = Color::new(10, 20, 30, 200);
    assert_eq!(germterm::color::blend_source_over(bottom, Color::green()), Color::green());
}

#[test]
fn blend_over_clear_keeps_the_top() {
    let top = Color::new(40, 0, 20, 90);
    assert_eq!(germterm::color::blend_source_over(Color::clear(), top), top);
    assert_eq!(germterm::color::blend_source_over(Color::clear(), Color::clear()), Color::clear());
}

#[test]
fn blend_half_blue_over_red() {
    let top = Color::new(0, 0, 127, 127);
    assert_eq!(germterm::color::blend_source_over(Color::red(), top), Color::new(128, 0, 127, 255));
}

#[test]
fn cell_transparent_bg_over_clear_bg() {
    let mut buf = flat_blended_buf_opaque_fill();

    buf.set_cell(pos(), Cell::new(" ", Style::new(transparent(), None, Attributes::empty())));
    draw_standard_cell(&mut buf, " ", transparent(), transparent());

    expect(buf_cell(&buf), " ", Style::new(transparent(), None, Attributes::empty()));
}

#[test]
fn same_layer_transparent_bg_over_clear_bg() {
    let mut buf = layered_blended_buf();

    buf.set_cell(pos(), Cell::new(" ", Style::new(transparent(), None, Attributes::empty())));
    draw_standard_cell(&mut buf, " ", transparent(), transparent());

    expect(buf_cell(&buf), " ", Style::new(transparent(), None, Attributes::empty()));
}

#[test]
fn cross_layer_transparent_bg_over_opaque_bg() {
    let mut buf = layered_blended_buf();

    draw_standard_cell(&mut buf, " ", transparent(), Some(Color::black()));
    buf.select_layer(1);
    draw_standard_cell(&mut buf, " ", transparent(), Some(Color::red().with_alpha(127)));

    let calls = buf.draw();
    expect(&calls[0].cell, " ", Style::new(transparent(), Some(Color::new(127, 0, 0, 255)), Attributes::empty()));
}
