use germterm::base::buffer::flat::FlatBuffer;
use germterm::base::buffer::Buffer;
use germterm::base::draw::{Position, Size};
use germterm::base::run_outcome;
use germterm::cell::{Cell, CellFormat};
use germterm::color::Color;
use germterm::coord_space::octad::OctadPosition;
use germterm::coord_space::twoxel::TwoxelPosition;
use germterm::coord_space::blocktad::BlocktadPosition;
use germterm::draw::{draw_blocktad, draw_octad, draw_twoxel};

fn cells(buf: &FlatBuffer) -> Vec<String> {
    let size = buf.size();
    let mut out = Vec::new();
    for y in 0..size.height {
        for x in 0..size.width {
            out.push(buf.get_cell(Position::new(x, y)).as_str().to_string());
        }
    }
    out
}

#[test]
fn octad_draws_its_braille_dot_in_its_cell() {
    let mut buf = FlatBuffer::new(Size::new(3, 2));
    draw_octad(&mut buf, OctadPosition::new(1, 5), Color::green());
    let cell = buf.get_cell(Position::new(0, 1));
    assert_eq!(cell.as_str(), "\u{2810}");
    assert_eq!(cell.style().fg(), Some(Color::green()));
    assert_eq!(cell.style().bg(), None);
    assert_eq!(cell.format, CellFormat::Octad);
    assert_eq!(cells(&buf).iter().filter(|c| c.as_str() == " ").count(), 5);
}

#[test]
fn octad_dots_follow_the_braille_layout() {
    let expected = [
        ((0, 0), "\u{2801}"),
        ((0, 1), "\u{2802}"),
        ((0, 2), "\u{2804}"),
        ((0, 3), "\u{2840}"),
        ((1, 0), "\u{2808}"),
        ((1, 1), "\u{2810}"),
        ((1, 2), "\u{2820}"),
        ((1, 3), "\u{2880}"),
    ];
    for ((x, y), ch) in expected {
        let mut buf = FlatBuffer::new(Size::new(1, 1));
        draw_octad(&mut buf, OctadPosition::new(x, y), Color::white());
        assert_eq!(buf.get_cell(Position::zero()).as_str(), ch);
    }
}

#[test]
fn octad_at_negative_sub_position_uses_euclidean_remainder() {
    let mut buf = FlatBuffer::new(Size::new(2, 2));
    // x = -1 falls in column 0 (rounded toward zero) at its right dot column.
    draw_octad(&mut buf, OctadPosition::new(-1, 0), Color::red());
    assert_eq!(buf.get_cell(Position::zero()).as_str(), "\u{2808}");
}

#[test]
fn octad_outside_the_buffer_changes_nothing() {
    let mut buf = FlatBuffer::new(Size::new(2, 2));
    draw_octad(&mut buf, OctadPosition::new(4, 0), Color::red());
    draw_octad(&mut buf, OctadPosition::new(0, -8), Color::red());
    for p in [(0, 0), (1, 0), (0, 1), (1, 1)] {
        assert!(*buf.get_cell(Position::new(p.0, p.1)) == Cell::empty());
    }
}

#[test]
fn twoxel_draws_upper_or_lower_half() {
    let mut buf = FlatBuffer::new(Size::new(4, 2));
    draw_twoxel(&mut buf, TwoxelPosition::new(2, 3), Color::red());
    draw_twoxel(&mut buf, TwoxelPosition::new(1, 2), Color::blue());
    let lower = buf.get_cell(Position::new(2, 1));
    assert_eq!(lower.as_str(), "\u{2584}");
    assert_eq!(lower.style().fg(), Some(Color::red()));
    assert_eq!(lower.format, CellFormat::Twoxel);
    let upper = buf.get_cell(Position::new(1, 1));
    assert_eq!(upper.as_str(), "\u{2580}");
    assert_eq!(upper.style().fg(), Some(Color::blue()));
    assert!(*buf.get_cell(Position::new(0, 0)) == Cell::empty());
}

#[test]
fn twoxel_outside_the_buffer_changes_nothing() {
    let mut buf = FlatBuffer::new(Size::new(1, 1));
    draw_twoxel(&mut buf, TwoxelPosition::new(0, 2), Color::red());
    assert!(*buf.get_cell(Position::zero()) == Cell::empty());
}

#[test]
fn run_outcome_prefers_the_restore_error() {
    assert_eq!(run_outcome::<i32, String>(Ok(3), Ok(())), Ok(3));
    assert_eq!(run_outcome::<i32, String>(Err("render".to_string()), Ok(())), Err("render".to_string()));
    assert_eq!(run_outcome::<i32, String>(Ok(3), Err("restore".to_string())), Err("restore".to_string()));
    assert_eq!(
        run_outcome::<i32, String>(Err("render".to_string()), Err("restore".to_string())),
        Err("restore".to_string())
    );
}

#[test]
fn blocktad_fills_its_sub_cell() {
    let expected = [
        ((0, 0), "\u{1CEA8}"),
        ((1, 0), "\u{1CEAB}"),
        ((0, 1), "\u{1CD00}"),
        ((1, 1), "\u{1CD03}"),
        ((0, 2), "\u{1CD09}"),
        ((1, 2), "\u{1CD18}"),
        ((0, 3), "\u{1CEA3}"),
        ((1, 3), "\u{1CEA0}"),
    ];
    for ((x, y), ch) in expected {
        let mut buf = FlatBuffer::new(Size::new(2, 2));
        draw_blocktad(&mut buf, BlocktadPosition::new(x + 2, y + 4), Color::yellow());
        let cell = buf.get_cell(Position::new(1, 1));
        assert_eq!(cell.as_str(), ch);
        assert_eq!(cell.style().fg(), Some(Color::yellow()));
        assert_eq!(cell.format, CellFormat::Blocktad);
        assert!(*buf.get_cell(Position::zero()) == Cell::empty());
    }
}

#[test]
fn blocktad_outside_the_buffer_changes_nothing() {
    let mut buf = FlatBuffer::new(Size::new(1, 1));
    draw_blocktad(&mut buf, BlocktadPosition::new(2, 0), Color::red());
    assert!(*buf.get_cell(Position::zero()) == Cell::empty());
}
