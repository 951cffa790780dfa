use germterm::base::buffer::classic_diffed::ClassicDiffedBuffers;
use germterm::base::buffer::flat::FlatBuffer;
use germterm::base::buffer::layered::LayeredBuffer;
use germterm::base::buffer::paired::PairedBuffer;
use germterm::base::buffer::utils::buf_cmp;
use germterm::base::buffer::{Buffer, Drawer};
use germterm::base::draw::{ErrorOutOfBoundsAxises, Position, Size};
use germterm::cell::Cell;
use germterm::style::Style;

fn cell(s: &str) -> Cell {
    Cell::new(s, Style::empty())
}

#[test]
fn flat_buffer_reads_back_what_is_written() {
    let mut buf = FlatBuffer::new(Size::new(3, 2));
    buf.set_cell(Position::new(2, 1), cell("z"));
    assert_eq!(buf.get_cell(Position::new(2, 1)).as_str(), "z");
    assert_eq!(buf.get_cell(Position::new(1, 1)).as_str(), " ");
    assert_eq!(buf.set_cell_checked(Position::new(3, 0), cell("q")), Err(ErrorOutOfBoundsAxises::X));
    assert!(buf.get_cell_checked(Position::new(0, 2)).is_err());
    assert_eq!(buf.get_cell_checked(Position::new(2, 1)).map(|c| c.as_str().to_string()), Ok("z".to_string()));
}

#[test]
fn flat_buffer_draws_every_cell_in_order() {
    let mut buf = FlatBuffer::new(Size::new(2, 2));
    buf.set_cell(Position::new(1, 0), cell("a"));
    let calls = buf.draw();
    let got: Vec<(u16, u16, String)> = calls.iter().map(|c| (c.pos.x, c.pos.y, c.cell.as_str().to_string())).collect();
    assert_eq!(
        got,
        vec![
            (0, 0, " ".to_string()),
            (1, 0, "a".to_string()),
            (0, 1, " ".to_string()),
            (1, 1, " ".to_string())
        ]
    );
}

#[test]
fn fill_and_clear() {
    let mut buf = FlatBuffer::new(Size::new(2, 2));
    buf.fill(cell("#"));
    assert_eq!(buf.get_cell(Position::new(1, 1)).as_str(), "#");
    buf.clear();
    assert!(*buf.get_cell(Position::new(1, 1)) == Cell::empty());
}

#[test]
fn paired_buffer_draws_only_changes() {
    let mut buf = PairedBuffer::new(Size::new(3, 1));
    assert!(buf.draw().is_empty());
    buf.set_cell(Position::new(1, 0), cell("x"));
    let calls = buf.draw();
    assert_eq!(calls.len(), 1);
    assert_eq!(calls[0].pos, Position::new(1, 0));
    assert_eq!(calls[0].cell.as_str(), "x");
    // Drawing does not change what there is to draw.
    assert_eq!(buf.draw().len(), 1);
}

#[test]
fn paired_buffer_frames_swap_at_frame_end() {
    let mut buf = PairedBuffer::new(Size::new(2, 1));
    buf.start_frame();
    buf.set_cell(Position::new(0, 0), cell("a"));
    assert_eq!(buf.draw().len(), 1);
    buf.end_frame();
    // The frame just drawn is the baseline now: drawing it again hands out nothing.
    buf.start_frame();
    buf.set_cell(Position::new(0, 0), cell("a"));
    assert!(buf.draw().is_empty());
    buf.end_frame();
    // A different frame hands out the cells that differ.
    buf.start_frame();
    buf.set_cell(Position::new(1, 0), cell("b"));
    let calls = buf.draw();
    assert_eq!(calls.len(), 2);
    assert_eq!((calls[0].pos, calls[0].cell.as_str()), (Position::new(0, 0), " "));
    assert_eq!((calls[1].pos, calls[1].cell.as_str()), (Position::new(1, 0), "b"));
}

#[test]
fn paired_swap_frames_twice_restores() {
    let mut buf = PairedBuffer::new(Size::new(1, 1));
    buf.set_cell(Position::zero(), cell("q"));
    buf.swap_frames();
    assert_eq!(buf.get_cell(Position::zero()).as_str(), " ");
    buf.swap_frames();
    assert_eq!(buf.get_cell(Position::zero()).as_str(), "q");
}

#[test]
fn classic_diffed_hands_out_what_changed_since_last_frame() {
    let size = Size::new(2, 1);
    let mut buf = ClassicDiffedBuffers::new(size, FlatBuffer::new(size));
    // Nothing differs from the empty first frame.
    assert!(buf.draw().is_empty());
    buf.set_cell(Position::new(1, 0), cell("k"));
    let calls = buf.draw();
    assert_eq!(calls.len(), 1);
    assert_eq!(calls[0].pos, Position::new(1, 0));
    buf.end_frame();
    assert!(buf.draw().is_empty());
    buf.current_buffer_mut().set_cell(Position::new(0, 0), cell("m"));
    assert_eq!(buf.draw().len(), 1);
}

#[test]
fn buf_cmp_reports_text_differences() {
    let mut a = FlatBuffer::new(Size::new(2, 2));
    let b = FlatBuffer::new(Size::new(2, 2));
    assert!(buf_cmp(&a, &b).is_empty());
    a.set_cell(Position::new(1, 1), cell("d"));
    let diffs = buf_cmp(&a, &b);
    assert_eq!(diffs.len(), 1);
    assert_eq!(diffs[0].0, Position::new(1, 1));
    let ch = diffs[0].1.ch.as_ref().unwrap();
    assert_eq!((ch.expected.as_str(), ch.found.as_str()), ("d", " "));
    assert!(diffs[0].1.fg.is_none());
    assert!(diffs[0].1.bg.is_none());
}

#[test]
fn layered_buffer_writes_to_the_selected_layer() {
    let mut buf = LayeredBuffer::new(Size::new(2, 1), |size| FlatBuffer::new(size));
    buf.set_cell(Position::new(0, 0), cell("a"));
    buf.select_layer(3);
    assert_eq!(buf.get_cell(Position::new(0, 0)).as_str(), " ");
    buf.set_cell(Position::new(1, 0), cell("b"));
    buf.select_layer(0);
    assert_eq!(buf.get_cell(Position::new(0, 0)).as_str(), "a");
    assert_eq!(buf.get_cell(Position::new(1, 0)).as_str(), " ");
    let calls = buf.draw();
    assert_eq!(calls.len(), 2);
    assert_eq!(calls[0].cell.as_str(), "a");
    assert_eq!(calls[1].cell.as_str(), "b");
    buf.clear();
    assert_eq!(buf.get_cell(Position::new(0, 0)).as_str(), " ");
}
