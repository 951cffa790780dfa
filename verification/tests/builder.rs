use germterm::base::buffer::builder::row::{consumed_counter, BuilderRow, BuilderRowItem};
use germterm::base::buffer::builder::{build, BuilderBuffer, BuilderBufferItem};
use germterm::base::buffer::flat::FlatBuffer;
use germterm::base::buffer::Buffer;
use germterm::base::draw::Position;
use germterm::cell::Cell;
use germterm::style::Style;

fn cell(s: &'static str) -> BuilderRowItem {
    BuilderRowItem::Cell(s, Style::empty())
}

fn row(items: Vec<BuilderRowItem>) -> BuilderBufferItem {
    BuilderBufferItem::Row(BuilderRow::new(items))
}

#[test]
fn build_row() {
    let row_static = BuilderRow::new(vec![cell("a")]);
    let row_const = BuilderRow::new(vec![BuilderRowItem::Cell("a", Style::empty())]);
    assert_eq!(row_static.consumed, row_const.consumed);
}

#[test]
fn simple() {
    let my_buffer = BuilderBuffer::new(vec![
        row(vec![cell("a"), cell("b"), BuilderRowItem::Empty(1)]),
        BuilderBufferItem::Empty(3),
        row(vec![BuilderRowItem::Empty(1), cell("b"), BuilderRowItem::Cell("c", Style::empty())]),
        row(vec![cell("a1"), cell("b"), cell("c")]),
        row(vec![cell("a2"), cell("b"), cell("c")]),
        row(vec![cell("a3"), cell("b"), cell("c")]),
        row(vec![cell("a4"), cell("b"), cell("c")]),
        row(vec![cell("a5"), cell("b"), cell("c")]),
    ]);

    let mut fb = FlatBuffer::new(my_buffer.size);
    build(&my_buffer, &mut fb);

    assert_eq!(fb.get_cell(Position::new(0, 0)).as_str(), "a");
    assert_eq!(fb.get_cell(Position::new(1, 0)).as_str(), "b");
    assert!(*fb.get_cell(Position::new(2, 0)) == Cell::empty());

    assert_eq!(fb.get_cell(Position::new(1, 4)).as_str(), "b");
    assert_eq!(fb.get_cell(Position::new(2, 4)).as_str(), "c");

    assert_eq!(fb.get_cell(Position::new(0, 5)).as_str(), "a1");
    assert_eq!(fb.get_cell(Position::new(0, 6)).as_str(), "a2");
    assert_eq!(fb.get_cell(Position::new(0, 7)).as_str(), "a3");
    assert_eq!(fb.get_cell(Position::new(0, 8)).as_str(), "a4");
    assert_eq!(fb.get_cell(Position::new(0, 9)).as_str(), "a5");
}

#[test]
fn consumed_counter_adds_cells_and_skips() {
    let items = vec![cell("x"), BuilderRowItem::Empty(4), cell("y")];
    assert_eq!(consumed_counter(&items), 6);
    assert_eq!(consumed_counter(&[]), 0);
    assert_eq!(BuilderRowItem::Empty(9).consumed(), 9);
    assert_eq!(cell("z").consumed(), 1);
}

#[test]
fn layout_size_counts_skipped_rows() {
    let items = vec![
        BuilderBufferItem::Empty(2),
        row(vec![cell("a"), cell("b")]),
        BuilderBufferItem::Empty(1),
    ];
    assert_eq!(BuilderBuffer::height(&items), 4);
    assert_eq!(BuilderBuffer::width(&items), 2);
    let size = BuilderBuffer::size(&items);
    assert_eq!((size.width, size.height), (2, 4));
    assert_eq!(items[0].consumed(), None);
    assert_eq!(items[1].consumed(), Some(2));
}

#[test]
fn build_with_skipped_rows_reaching_the_bottom() {
    let layout = BuilderBuffer::new(vec![row(vec![cell("a")]), BuilderBufferItem::Empty(2)]);
    let mut fb = FlatBuffer::new(layout.size);
    build(&layout, &mut fb);
    assert_eq!(fb.get_cell(Position::new(0, 0)).as_str(), "a");
    assert!(*fb.get_cell(Position::new(0, 1)) == Cell::empty());
    assert!(*fb.get_cell(Position::new(0, 2)) == Cell::empty());
}
