use germterm::coord_space::blocktad::BlocktadPosition;
use germterm::coord_space::conversion::{
    native_to_blocktad, native_to_octad, native_to_twoxel, twoxel_to_blocktad, twoxel_to_native, twoxel_to_octad,
};
use germterm::coord_space::native::{NativePosition, NativeSize};
use germterm::coord_space::octad::{OctadPosition, OctadSize};
use germterm::coord_space::position::Position;
use germterm::coord_space::size::Size;
use germterm::coord_space::twoxel::{TwoxelPosition, TwoxelSize};

#[test]
fn twoxel_to_other_spaces() {
    let p = TwoxelPosition::new(3, 7);
    let n = p.to_native();
    assert_eq!((n.x, n.y), (3, 3));
    let o = p.to_octad();
    assert_eq!((o.x, o.y), (6, 14));
    let b = p.to_blocktad();
    assert_eq!((b.x, b.y), (6, 14));
    let s = TwoxelSize::new(5, 9).to_native();
    assert_eq!((s.width, s.height), (5, 4));
}

#[test]
fn negative_coordinates_round_toward_zero() {
    let n = TwoxelPosition::new(-3, -7).to_native();
    assert_eq!((n.x, n.y), (-3, -3));
    let n = OctadPosition::new(-3, -7).to_native();
    assert_eq!((n.x, n.y), (-1, -1));
}

#[test]
fn octad_and_blocktad_conversions() {
    let o = OctadPosition::new(8, 12);
    let n = o.to_native();
    assert_eq!((n.x, n.y), (4, 3));
    let t = o.to_twoxel();
    assert_eq!((t.x, t.y), (4, 6));
    let b = BlocktadPosition::new(8, 12).to_octad();
    assert_eq!((b.x, b.y), (8, 12));
    let s = OctadSize::new(9, 9).to_native();
    assert_eq!((s.width, s.height), (4, 2));
    let from: NativePosition = NativePosition::from(OctadPosition::new(5, 9));
    assert_eq!((from.x, from.y), (2, 2));
}

#[test]
fn tuples_become_positions_and_sizes() {
    let p = NativePosition::from((4, -2));
    assert_eq!(p.as_tuple(), (4, -2));
    let s = NativeSize::from((7, 8));
    assert_eq!(s.as_tuple(), (7, 8));
    let t = TwoxelPosition::from((1, 2));
    assert_eq!((t.x, t.y), (1, 2));
}

#[test]
fn offsets_move_each_axis() {
    let p = NativePosition::new(1, 2).offset_x(3).offset_y(-4).offset_xy(1, 1);
    assert_eq!(p.as_tuple(), (5, -1));
    let s = NativeSize::new(1, 2).offset_w(3).offset_h(4).offset_wh(-1, -1);
    assert_eq!(s.as_tuple(), (3, 5));
    let g = Position::new(1i16, 1i16).offset_xy(2, 3);
    assert_eq!(g.to_tuple(), (3, 4));
    let gs = Size::new(1i16, 1i16).offset_wh(2, 3);
    assert_eq!(gs.to_tuple(), (3, 4));
}

#[test]
fn generic_conversions() {
    let p = Position::new(3i16, -5i16);
    assert_eq!(native_to_twoxel(p).to_tuple(), (3, -10));
    assert_eq!(native_to_octad(p).to_tuple(), (6, -20));
    assert_eq!(native_to_blocktad(p).to_tuple(), (6, -20));
    assert_eq!(twoxel_to_native(Position::new(3i16, -5i16)).to_tuple(), (3, -2));
    assert_eq!(twoxel_to_octad(p).to_tuple(), (6, -10));
    assert_eq!(twoxel_to_blocktad(p).to_tuple(), (6, -10));
}

#[test]
fn scaling_up_then_down_is_identity() {
    for y in -100i16..100 {
        let p = Position::new(y, y);
        assert_eq!(twoxel_to_native(native_to_twoxel(p)).to_tuple(), p.to_tuple());
        let q = TwoxelPosition::new(y, y).to_octad();
        assert_eq!(OctadPosition::new(q.x, q.y).to_twoxel().y, y);
    }
}

#[test]
fn position_and_size_arithmetic() {
    let a = Position::new(7i16, -9i16);
    let b = Position::new(2i16, 4i16);
    assert_eq!((a + b).to_tuple(), (9, -5));
    assert_eq!((a - b).to_tuple(), (5, -13));
    assert_eq!((a * 3).to_tuple(), (21, -27));
    assert_eq!((a / 2).to_tuple(), (3, -4));
    assert_eq!((a % 2).to_tuple(), (1, -1));
    let s = Size::new(10i16, 4i16);
    assert_eq!((s + s).to_tuple(), (20, 8));
    assert_eq!((s - Size::new(1i16, 1i16)).to_tuple(), (9, 3));
    assert_eq!((s * 2).to_tuple(), (20, 8));
    assert_eq!((s / 3).to_tuple(), (3, 1));
    assert_eq!((s % 3).to_tuple(), (1, 1));
}
