use germterm::base::buffer::flat::FlatBuffer;
use germterm::base::buffer::Buffer;
use germterm::base::draw::gfx::normal::{draw_hline, draw_line, draw_style, draw_vline};
use germterm::base::draw::{Position, Rect, Size};
use germterm::cell::Cell;
use germterm::color::Color;
use germterm::style::Style;

fn test_cell() -> Cell {
    Cell::new("#", Style::empty())
}

fn make_buf(sz: Size) -> FlatBuffer {
    FlatBuffer::new(sz)
}

/// The rows of the buffer, each the text of its cells put together.
fn dbts(buf: &FlatBuffer) -> Vec<String> {
    let sz = buf.size();
    let mut rows = Vec::new();
    for y in 0..sz.height {
        let mut row = String::new();
        for x in 0..sz.width {
            row.push_str(buf.get_cell(Position::new(x, y)).as_str());
        }
        rows.push(row);
    }
    rows
}

fn rows(lines: &[&str]) -> Vec<String> {
    lines.iter().map(|l| l.to_string()).collect()
}

#[test]
fn vertical_line() {
    let mut buf = make_buf(Size::new(10, 10));
    let len = 10;
    let written = draw_vline(&mut buf, Position::zero(), len, test_cell());
    assert_eq!(written, len);

    assert_eq!(
        dbts(&buf),
        rows(&[
            "#         ",
            "#         ",
            "#         ",
            "#         ",
            "#         ",
            "#         ",
            "#         ",
            "#         ",
            "#         ",
            "#         ",
        ])
    );
}

#[test]
fn vertical_line_partial() {
    let mut buf = make_buf(Size::new(10, 10));
    let len = 6;
    let start = Position::new(4, 4);
    let written = draw_vline(&mut buf, start, len, test_cell());
    assert_eq!(written, len);

    assert_eq!(
        dbts(&buf),
        rows(&[
            "          ",
            "          ",
            "          ",
            "          ",
            "    #     ",
            "    #     ",
            "    #     ",
            "    #     ",
            "    #     ",
            "    #     ",
        ])
    );
}

#[test]
fn vertical_line_truncated_bottom() {
    let mut buf = make_buf(Size::new(10, 10));
    let written = draw_vline(&mut buf, Position::new(4, 7), 10, test_cell());
    assert_eq!(written, 3);

    assert_eq!(
        dbts(&buf),
        rows(&[
            "          ",
            "          ",
            "          ",
            "          ",
            "          ",
            "          ",
            "          ",
            "    #     ",
            "    #     ",
            "    #     ",
        ]),
    );
}

#[test]
fn vertical_line_truncated_top() {
    let mut buf = make_buf(Size::new(10, 10));
    let written = draw_vline(&mut buf, Position::new(4, 8), 5, test_cell());
    assert_eq!(written, 2);

    assert_eq!(
        dbts(&buf),
        rows(&[
            "          ",
            "          ",
            "          ",
            "          ",
            "          ",
            "          ",
            "          ",
            "          ",
            "    #     ",
            "    #     ",
        ]),
    );
}

#[test]
fn horizontal_line() {
    let mut buf = make_buf(Size::new(10, 10));
    let len = 10;
    let written = draw_hline(&mut buf, Position::zero(), len, test_cell());
    assert_eq!(written, len);

    assert_eq!(
        dbts(&buf),
        rows(&[
            "##########",
            "          ",
            "          ",
            "          ",
            "          ",
            "          ",
            "          ",
            "          ",
            "          ",
            "          ",
        ]),
    );
}

#[test]
fn horizontal_line_partial() {
    let mut buf = make_buf(Size::new(10, 10));
    let len = 4;
    let written = draw_hline(&mut buf, Position::new(2, 2), len, test_cell());
    assert_eq!(written, len);

    assert_eq!(
        dbts(&buf),
        rows(&[
            "          ",
            "          ",
            "  ####    ",
            "          ",
            "          ",
            "          ",
            "          ",
            "          ",
            "          ",
            "          ",
        ]),
    );
}

#[test]
fn horizontal_line_truncated_right() {
    let mut buf = make_buf(Size::new(10, 10));
    let written = draw_hline(&mut buf, Position::new(7, 4), 10, test_cell());
    assert_eq!(written, 3);

    assert_eq!(
        dbts(&buf),
        rows(&[
            "          ",
            "          ",
            "          ",
            "          ",
            "       ###",
            "          ",
            "          ",
            "          ",
            "          ",
            "          ",
        ]),
    );
}

#[test]
fn horizontal_line_truncated_left() {
    let mut buf = make_buf(Size::new(10, 10));
    let written = draw_hline(&mut buf, Position::new(15, 4), 5, test_cell());
    assert_eq!(written, 0);

    assert_eq!(
        dbts(&buf),
        rows(&[
            "          ",
            "          ",
            "          ",
            "          ",
            "          ",
            "          ",
            "          ",
            "          ",
            "          ",
            "          ",
        ]),
    );
}

#[test]
fn diagonal_line() {
    let mut buf = make_buf(Size::new(10, 10));
    let drawn = draw_line(
        &mut buf,
        Position::new(0, 0),
        Position::new(9, 9),
        test_cell(),
    );

    assert_eq!(drawn, 10);

    assert_eq!(
        dbts(&buf),
        rows(&[
            "#         ",
            " #        ",
            "  #       ",
            "   #      ",
            "    #     ",
            "     #    ",
            "      #   ",
            "       #  ",
            "        # ",
            "         #",
        ]),
    );
}

#[test]
fn diagonal_line_partial() {
    let mut buf = make_buf(Size::new(10, 10));
    let drawn = draw_line(
        &mut buf,
        Position::new(2, 1),
        Position::new(5, 7),
        test_cell(),
    );

    assert_eq!(drawn, 7);

    assert_eq!(
        dbts(&buf),
        rows(&[
            "          ",
            "  #       ",
            "   #      ",
            "   #      ",
            "    #     ",
            "    #     ",
            "     #    ",
            "     #    ",
            "          ",
            "          ",
        ]),
    );
}

#[test]
fn diagonal_line_inverted() {
    let mut buf = make_buf(Size::new(10, 10));
    let drawn = draw_line(
        &mut buf,
        Position::new(5, 7),
        Position::new(2, 1),
        test_cell(),
    );

    assert_eq!(drawn, 7);

    assert_eq!(
        dbts(&buf),
        rows(&[
            "          ",
            "  #       ",
            "   #      ",
            "   #      ",
            "    #     ",
            "    #     ",
            "     #    ",
            "     #    ",
            "          ",
            "          ",
        ]),
    );
}

#[test]
fn diagonal_line_truncated_bottom() {
    let mut buf = make_buf(Size::new(10, 10));
    let drawn = draw_line(
        &mut buf,
        Position::new(1, 3),
        Position::new(6, 15),
        test_cell(),
    );

    assert_eq!(drawn, 7);

    assert_eq!(
        dbts(&buf),
        rows(&[
            "          ",
            "          ",
            "          ",
            " #        ",
            " #        ",
            "  #       ",
            "  #       ",
            "   #      ",
            "   #      ",
            "    #     ",
        ]),
    );
}

#[test]
fn diagonal_line_truncated_right() {
    let mut buf = make_buf(Size::new(10, 10));
    let drawn = draw_line(
        &mut buf,
        Position::new(5, 2),
        Position::new(20, 5),
        test_cell(),
    );

    assert_eq!(drawn, 5);

    assert_eq!(
        dbts(&buf),
        rows(&[
            "          ",
            "          ",
            "     #### ",
            "         #",
            "          ",
            "          ",
            "          ",
            "          ",
            "          ",
            "          ",
        ]),
    );
}

#[test]
fn diagonal_line_truncated_left() {
    let mut buf = make_buf(Size::new(10, 10));
    let drawn = draw_line(
        &mut buf,
        Position::new(8, 3),
        Position::new(2, 15),
        test_cell(),
    );

    assert_eq!(drawn, 7);

    assert_eq!(
        dbts(&buf),
        rows(&[
            "          ",
            "          ",
            "          ",
            "        # ",
            "       #  ",
            "       #  ",
            "      #   ",
            "      #   ",
            "     #    ",
            "     #    ",
        ]),
    );
}

#[test]
fn line_is_the_same_both_ways() {
    let ends = [
        (Position::new(1, 3), Position::new(6, 15)),
        (Position::new(8, 3), Position::new(2, 15)),
        (Position::new(5, 2), Position::new(20, 5)),
        (Position::new(9, 0), Position::new(0, 9)),
        (Position::new(3, 3), Position::new(3, 3)),
    ];
    for (a, b) in ends {
        let mut one = make_buf(Size::new(10, 10));
        let mut two = make_buf(Size::new(10, 10));
        if !Size::new(10, 10).is_within(a) || !Size::new(10, 10).is_within(b) {
            // Only lines whose first cell lies in the buffer are drawn.
            continue;
        }
        let n1 = draw_line(&mut one, a, b, test_cell());
        let n2 = draw_line(&mut two, b, a, test_cell());
        assert_eq!(n1, n2);
        assert_eq!(dbts(&one), dbts(&two));
    }
}

#[test]
fn single_point_line() {
    let mut buf = make_buf(Size::new(4, 4));
    let n = draw_line(&mut buf, Position::new(2, 1), Position::new(2, 1), test_cell());
    assert_eq!(n, 1);
    assert_eq!(dbts(&buf), rows(&["    ", "  # ", "    ", "    "]));
}

#[test]
fn line_in_empty_buffer_draws_nothing() {
    let mut buf = make_buf(Size::new(0, 0));
    assert_eq!(draw_line(&mut buf, Position::zero(), Position::new(3, 3), test_cell()), 0);
}

#[test]
fn drawing_a_line_twice_changes_nothing_more() {
    let mut once = make_buf(Size::new(10, 10));
    draw_line(&mut once, Position::new(2, 1), Position::new(5, 7), test_cell());
    let mut twice = make_buf(Size::new(10, 10));
    draw_line(&mut twice, Position::new(2, 1), Position::new(5, 7), test_cell());
    draw_line(&mut twice, Position::new(2, 1), Position::new(5, 7), test_cell());
    assert_eq!(dbts(&once), dbts(&twice));
}

#[test]
fn vline_start_outside_draws_nothing() {
    let mut buf = make_buf(Size::new(3, 3));
    assert_eq!(draw_vline(&mut buf, Position::new(3, 0), 2, test_cell()), 0);
    assert_eq!(dbts(&buf), rows(&["   ", "   ", "   "]));
}

#[test]
fn lines_merge_the_cell_style() {
    let mut buf = make_buf(Size::new(3, 1));
    let red = Cell::new("#", Style::empty().with_fg(Some(Color::red())));
    draw_hline(&mut buf, Position::zero(), 2, red);
    assert_eq!(buf.get_cell(Position::new(0, 0)).style().fg(), Some(Color::red()));
    assert_eq!(buf.get_cell(Position::new(2, 0)).style().fg(), Some(Color::clear()));
}

#[test]
fn draw_style_counts_the_clipped_area() {
    let mut buf = make_buf(Size::new(5, 4));
    let style = Style::empty().with_bg(Some(Color::blue()));
    let n = draw_style(&mut buf, Rect::new(Position::new(3, 2), Size::new(4, 4)), style);
    assert_eq!(n, 4);
    assert_eq!(buf.get_cell(Position::new(3, 2)).style().bg(), Some(Color::blue()));
    assert_eq!(buf.get_cell(Position::new(4, 3)).style().bg(), Some(Color::blue()));
    assert_eq!(buf.get_cell(Position::new(2, 2)).style().bg(), Some(Color::clear()));
    assert_eq!(buf.get_cell(Position::new(3, 1)).style().bg(), Some(Color::clear()));
    assert_eq!(dbts(&buf), rows(&["     ", "     ", "     ", "     "]));
}

#[test]
fn draw_style_outside_counts_nothing() {
    let mut buf = make_buf(Size::new(5, 4));
    let n = draw_style(&mut buf, Rect::new(Position::new(9, 9), Size::new(2, 2)), Style::empty());
    assert_eq!(n, 0);
}
