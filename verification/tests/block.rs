use germterm::base::buffer::flat::FlatBuffer;
use germterm::base::buffer::paired::PairedBuffer;
use germterm::base::buffer::Buffer;
use germterm::base::draw::{Position, Rect, Size};
use germterm::base::timer::NoDelta;
use germterm::base::widget::block::set::{BlockSet, BorderPiece, SimpleBorderSet};
use germterm::base::widget::block::title::{Title, TitleAlignment, TitlePosition};
use germterm::base::widget::block::{Block, BorderSides};
use germterm::base::widget::text::line::Line;
use germterm::base::widget::text::span::Span;
use germterm::base::widget::{FrameContext, Widget};
use germterm::base::DisplayWidth;

fn rows_of<B: Buffer>(buf: &B) -> Vec<String> {
    let sz = buf.size();
    (0..sz.height)
        .map(|y| (0..sz.width).map(|x| buf.get_cell(Position::new(x, y)).as_str().to_string()).collect())
        .collect()
}

fn line(text: &str) -> Line {
    Line::new(vec![Span::new(text).unwrap()])
}

#[test]
fn test_block_draw_borders() {
    let mut buf = PairedBuffer::new(Size::new(3, 3));
    let block = Block::new(SimpleBorderSet::ascii());
    let ctx = FrameContext {
        total_time: NoDelta::new(),
        delta: NoDelta::new(),
        buffer: &mut buf,
        display_width: DisplayWidth::default(),
    };

    block.draw(ctx);

    // Ascii style: top_left='+', top='-', top_right='+', left='|', right='|', bottom_left='+', bottom='-', bottom_right='+'
    assert_eq!(buf.get_cell(Position::new(0, 0)).as_str(), "+");
    assert_eq!(buf.get_cell(Position::new(1, 0)).as_str(), "-");
    assert_eq!(buf.get_cell(Position::new(2, 0)).as_str(), "+");
    assert_eq!(buf.get_cell(Position::new(0, 1)).as_str(), "|");
    assert_eq!(buf.get_cell(Position::new(2, 1)).as_str(), "|");
    assert_eq!(buf.get_cell(Position::new(0, 2)).as_str(), "+");
    assert_eq!(buf.get_cell(Position::new(1, 2)).as_str(), "-");
    assert_eq!(buf.get_cell(Position::new(2, 2)).as_str(), "+");
}

#[test]
fn block_border_leaves_the_inside_alone() {
    let mut buf = FlatBuffer::new(Size::new(5, 4));
    Block::new(SimpleBorderSet::ascii()).draw(FrameContext::new(
        NoDelta::new(),
        NoDelta::new(),
        &mut buf,
        DisplayWidth::default(),
    ));
    assert_eq!(rows_of(&buf), vec!["+---+", "|   |", "|   |", "+---+"]);
}

#[test]
fn block_without_room_draws_nothing() {
    for size in [Size::new(2, 5), Size::new(5, 2), Size::new(0, 0), Size::new(1, 1)] {
        let mut buf = FlatBuffer::new(size);
        Block::new(SimpleBorderSet::ascii()).draw(FrameContext::new(
            NoDelta::new(),
            NoDelta::new(),
            &mut buf,
            DisplayWidth::default(),
        ));
        let blank: Vec<String> = (0..size.height).map(|_| " ".repeat(size.width as usize)).collect();
        assert_eq!(rows_of(&buf), blank);
    }
}

#[test]
fn block_titles_on_the_borders() {
    let titles = vec![
        Title::new(line("ab")),
        Title::new(line("xy")).with_position(TitlePosition::Bottom).with_alignment(TitleAlignment::Right),
    ];
    let block = Block::new(SimpleBorderSet::ascii()).with_titles(titles);
    let mut buf = FlatBuffer::new(Size::new(7, 3));
    block.draw(FrameContext::new(NoDelta::new(), NoDelta::new(), &mut buf, DisplayWidth::default()));
    assert_eq!(rows_of(&buf), vec!["+ab---+", "|     |", "+----x+"]);
}

#[test]
fn block_centred_title() {
    let titles = vec![Title::new(line("hi")).with_alignment(TitleAlignment::Center)];
    let block = Block::new(SimpleBorderSet::ascii()).with_titles(titles);
    let mut buf = FlatBuffer::new(Size::new(8, 3));
    block.draw(FrameContext::new(NoDelta::new(), NoDelta::new(), &mut buf, DisplayWidth::default()));
    assert_eq!(rows_of(&buf), vec!["+--hi--+", "|      |", "+------+"]);
}

#[test]
fn inner_area_inside_the_borders() {
    let block = Block::new(SimpleBorderSet::ascii());
    let dw = DisplayWidth::default();
    assert_eq!(block.inner_area(Size::new(10, 6), &dw), Rect::new(Position::new(1, 1), Size::new(8, 4)));
    assert_eq!(block.inner_area(Size::new(2, 6), &dw), Rect::new(Position::zero(), Size::new(2, 6)));
    assert_eq!(block.inner_area(Size::new(6, 2), &dw), Rect::new(Position::zero(), Size::new(6, 2)));
    assert_eq!(block.inner_area(Size::new(3, 3), &dw), Rect::new(Position::new(1, 1), Size::new(1, 1)));
}

#[test]
fn border_sides_contain_their_parts() {
    let all = BorderSides::all();
    assert!(all.contains(BorderSides::top()));
    assert!(all.contains(BorderSides::left().union(BorderSides::right())));
    assert!(!BorderSides::top().contains(BorderSides::bottom()));
    assert!(BorderSides::empty().contains(BorderSides::empty()));
    assert_eq!(BorderSides::top().union(BorderSides::bottom()), BorderSides(5));
}

#[test]
fn simple_border_set_ignores_the_cell() {
    let set = SimpleBorderSet::ascii();
    assert_eq!(set.piece(BorderPiece::TopLeft, "x"), "+");
    assert_eq!(set.piece(BorderPiece::Bottom, ""), "-");
    assert_eq!(set.piece(BorderPiece::Right, "abc"), "|");
    let dw = DisplayWidth::default();
    assert_eq!(set.left_width(&dw), 1);
    assert_eq!(set.right_width(&dw), 1);
}

#[test]
fn empty_border_piece_leaves_a_nul() {
    let set = SimpleBorderSet { top: "", ..SimpleBorderSet::ascii() };
    let mut buf = FlatBuffer::new(Size::new(3, 3));
    Block::new(set).draw(FrameContext::new(NoDelta::new(), NoDelta::new(), &mut buf, DisplayWidth::default()));
    assert_eq!(buf.get_cell(Position::new(1, 0)).as_str(), "\0");
    assert_eq!(buf.get_cell(Position::new(1, 2)).as_str(), "-");
}

#[test]
fn title_setters() {
    let mut t = Title::new(line("t"));
    assert_eq!(t.position(), TitlePosition::Top);
    assert_eq!(t.alignment(), TitleAlignment::Left);
    t.set_position(TitlePosition::Bottom);
    t.set_alignment(TitleAlignment::Center);
    assert_eq!(t.position(), TitlePosition::Bottom);
    assert_eq!(t.alignment(), TitleAlignment::Center);
    assert_eq!(TitlePosition::default(), TitlePosition::Top);
    assert_eq!(TitleAlignment::default(), TitleAlignment::Left);
}
