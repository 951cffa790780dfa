use germterm::base::buffer::flat::FlatBuffer;
use germterm::base::buffer::Buffer;
use germterm::base::draw::gfx::text::WrittenTracker;
use germterm::base::draw::{Position, Size};
use germterm::base::timer::NoDelta;
use germterm::base::widget::text::line::Line;
use germterm::base::widget::text::span::{Span, SpanError};
use germterm::base::widget::text::LineWidth;
use germterm::base::widget::{FrameContext, SimpleWidget, Widget};
use germterm::base::DisplayWidth;
use germterm::color::Color;
use germterm::style::Style;

fn rows_of(buf: &FlatBuffer) -> Vec<String> {
    let sz = buf.size();
    (0..sz.height)
        .map(|y| (0..sz.width).map(|x| buf.get_cell(Position::new(x, y)).as_str().to_string()).collect())
        .collect()
}

fn ctx(buf: &mut FlatBuffer) -> FrameContext<'_, FlatBuffer, NoDelta> {
    FrameContext::new(NoDelta::new(), NoDelta::new(), buf, DisplayWidth::default())
}

fn red() -> Style {
    Style::empty().with_fg(Some(Color::red()))
}

#[test]
fn span_rejects_control_characters() {
    assert_eq!(Span::new("ab\ncd").err(), Some(SpanError::ControlCharacter { at: 2 }));
    assert_eq!(Span::new("\t").err(), Some(SpanError::ControlCharacter { at: 0 }));
    assert_eq!(Span::new("x\u{7f}").err(), Some(SpanError::ControlCharacter { at: 1 }));
    assert_eq!(Span::new("中\u{1b}").err(), Some(SpanError::ControlCharacter { at: 3 }));
    let ok = Span::new("fine text").unwrap();
    assert_eq!(ok.content(), "fine text");
    assert_eq!(ok.style(), Style::empty());
}

#[test]
fn span_content_and_style_setters() {
    let span = Span::new_unchecked("a").set_content("bc").with_style(red());
    assert_eq!(span.content(), "bc");
    assert_eq!(span.style(), red());
    let copy = span.as_borrowed();
    assert_eq!(copy.content(), "bc");
    assert_eq!(copy.style(), red());
    let mut other = Span::new_unchecked("z");
    other.set_style(red());
    assert_eq!(other.style(), red());
    assert_eq!(other.content(), "z");
}

#[test]
fn span_width_is_display_width() {
    let dw = DisplayWidth::default();
    assert_eq!(Span::new("abc").unwrap().width(&dw), 3);
    assert_eq!(Span::new("中文").unwrap().width(&dw), 4);
    assert_eq!(Span::new("").unwrap().width(&dw), 0);
}

#[test]
fn span_fills_cells_row_by_row() {
    let mut buf = FlatBuffer::new(Size::new(3, 2));
    let n = Span::new("abcde").unwrap().with_style(red()).fill_cells(&mut buf, 10);
    assert_eq!(n, 5);
    assert_eq!(rows_of(&buf), vec!["abc", "de "]);
    assert_eq!(buf.get_cell(Position::new(1, 1)).style().fg(), Some(Color::red()));
    assert_eq!(buf.get_cell(Position::new(2, 1)).style().fg(), Some(Color::clear()));
}

#[test]
fn span_fill_stops_at_limit_and_buffer_end() {
    let mut buf = FlatBuffer::new(Size::new(3, 2));
    assert_eq!(Span::new("abcde").unwrap().fill_cells(&mut buf, 2), 2);
    assert_eq!(rows_of(&buf), vec!["ab ", "   "]);
    let mut small = FlatBuffer::new(Size::new(2, 1));
    assert_eq!(Span::new("abcde").unwrap().fill_cells(&mut small, 9), 2);
    assert_eq!(rows_of(&small), vec!["ab"]);
}

#[test]
fn span_draw_fills_one_row() {
    let mut buf = FlatBuffer::new(Size::new(3, 2));
    SimpleWidget::draw(&Span::new("abcdef").unwrap(), ctx(&mut buf));
    assert_eq!(rows_of(&buf), vec!["abc", "   "]);
}

#[test]
fn line_width_sums_its_spans() {
    let dw = DisplayWidth::default();
    let line = Line::new(vec![Span::new("ab").unwrap(), Span::new("中").unwrap(), Span::new("").unwrap()]);
    assert_eq!(line.width(&dw), 4);
    assert_eq!(Line::new(vec![]).width(&dw), 0);
}

#[test]
fn line_width_saturates() {
    let dw = DisplayWidth::default();
    let long = "x".repeat(40000);
    let line = Line::new(vec![Span::new(&long).unwrap(), Span::new(&long).unwrap()]);
    assert_eq!(line.width(&dw), u16::MAX);
}

#[test]
fn line_fills_its_row_with_spans_in_order() {
    let mut buf = FlatBuffer::new(Size::new(6, 2));
    let mut line = Line::new(vec![Span::new("ab").unwrap().with_style(red()), Span::new("cd").unwrap()]);
    let base = Style::empty().with_bg(Some(Color::blue()));
    line.set_style(base);
    assert_eq!(line.style(), base);
    let wt = line.fill_cells(ctx(&mut buf));
    assert_eq!(wt, WrittenTracker { cells: 4, bytes: 4 });
    assert_eq!(rows_of(&buf), vec!["abcd  ", "      "]);
    // span styles over the line style
    assert_eq!(buf.get_cell(Position::new(0, 0)).style().fg(), Some(Color::red()));
    assert_eq!(buf.get_cell(Position::new(0, 0)).style().bg(), Some(Color::blue()));
    assert_eq!(buf.get_cell(Position::new(2, 0)).style().fg(), Some(Color::clear()));
    // the rest of the row takes the line style
    assert_eq!(buf.get_cell(Position::new(5, 0)).style().bg(), Some(Color::blue()));
    // other rows are untouched
    assert_eq!(buf.get_cell(Position::new(0, 1)).style().bg(), Some(Color::clear()));
}

#[test]
fn line_is_cut_at_the_row_end() {
    let mut buf = FlatBuffer::new(Size::new(3, 1));
    let line = Line::new(vec![Span::new("ab").unwrap(), Span::new("cd").unwrap()]);
    let wt = line.fill_cells(ctx(&mut buf));
    assert_eq!(wt, WrittenTracker { cells: 3, bytes: 3 });
    assert_eq!(rows_of(&buf), vec!["abc"]);
}

#[test]
fn line_counts_utf8_bytes() {
    let mut buf = FlatBuffer::new(Size::new(4, 1));
    let line = Line::new(vec![Span::new("é中").unwrap()]);
    let wt = line.fill_cells(ctx(&mut buf));
    assert_eq!(wt, WrittenTracker { cells: 2, bytes: 5 });
}

#[test]
fn line_in_an_empty_buffer_writes_nothing() {
    let mut buf = FlatBuffer::new(Size::new(4, 0));
    let wt = Line::new(vec![Span::new("ab").unwrap()]).fill_cells(ctx(&mut buf));
    assert_eq!(wt, WrittenTracker { cells: 0, bytes: 0 });
}

#[test]
fn simple_widgets_are_widgets() {
    let mut buf = FlatBuffer::new(Size::new(4, 1));
    let line = Line::new(vec![Span::new("ok").unwrap()]);
    Widget::<NoDelta>::draw(&line, ctx(&mut buf));
    assert_eq!(rows_of(&buf), vec!["ok  "]);
}

#[test]
fn frame_context_accessors() {
    let mut buf = FlatBuffer::new(Size::new(2, 2));
    let mut fc = ctx(&mut buf);
    assert_eq!(fc.total_time(), NoDelta::new());
    assert_eq!(fc.delta(), NoDelta::new());
    assert_eq!(fc.buffer().size(), Size::new(2, 2));
    fc.buffer_mut().get_cell_mut(Position::zero()).set_str("q");
    assert_eq!(fc.buffer().get_cell(Position::zero()).as_str(), "q");
}
