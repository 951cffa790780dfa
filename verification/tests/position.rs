use germterm::base::draw::{ErrorOutOfBoundsAxises, Position, Size};

#[test]
fn clamp_reduces_to_max() {
    let pos = Position::new(10, 20);
    let clamped = pos.clamp(5, 15);
    assert_eq!(clamped.x, 5);
    assert_eq!(clamped.y, 15);
}

#[test]
fn clamp_leaves_smaller_values_unchanged() {
    let pos = Position::new(3, 7);
    let clamped = pos.clamp(10, 10);
    assert_eq!(clamped.x, 3);
    assert_eq!(clamped.y, 7);
}

#[test]
fn clamp_equal_values() {
    let pos = Position::new(5, 5);
    let clamped = pos.clamp(5, 5);
    assert_eq!(clamped.x, 5);
    assert_eq!(clamped.y, 5);
}

#[test]
fn as_tuple_returns_correct_pair() {
    let pos = Position::new(4, 9);
    assert_eq!(pos.as_tuple(), (4, 9));
}

#[test]
fn as_tuple_zero() {
    assert_eq!(Position::zero().as_tuple(), (0, 0));
}

#[test]
fn is_within_inside_bounds() {
    let pos = Position::new(3, 4);
    assert!(pos.is_within(10, 10));
}

#[test]
fn is_within_at_origin() {
    let pos = Position::zero();
    assert!(pos.is_within(1, 1));
}

#[test]
fn is_within_at_edge_is_outside() {
    let pos = Position::new(10, 10);
    assert!(!pos.is_within(10, 10));
}

#[test]
fn is_within_beyond_bounds() {
    let pos = Position::new(15, 20);
    assert!(!pos.is_within(10, 10));
}

#[test]
fn is_within_zero_dimensions() {
    let pos = Position::zero();
    assert!(!pos.is_within(0, 0));
}

#[test]
fn clamp_twice_is_clamp_once() {
    let once = Position::new(40, 2).clamp(12, 7);
    let twice = once.clamp(12, 7);
    assert_eq!(once, twice);
    assert_eq!(once.as_tuple(), (12, 2));
}

#[test]
fn size_is_within_matches_position_is_within() {
    let size = Size::new(4, 3);
    for y in 0..5u16 {
        for x in 0..6u16 {
            let p = Position::new(x, y);
            assert_eq!(size.is_within(p), p.is_within(4, 3));
        }
    }
}

#[test]
fn size_contains_names_the_axes_out_of_bounds() {
    let size = Size::new(4, 3);
    assert_eq!(size.contains(Position::new(1, 1)), Ok(()));
    assert_eq!(size.contains(Position::new(4, 1)), Err(ErrorOutOfBoundsAxises::X));
    assert_eq!(size.contains(Position::new(1, 3)), Err(ErrorOutOfBoundsAxises::Y));
    assert_eq!(size.contains(Position::new(9, 9)), Err(ErrorOutOfBoundsAxises::XY));
}

#[test]
fn size_area_multiplies() {
    assert_eq!(Size::new(7, 9).area(), 63);
    assert_eq!(Size::zero().area(), 0);
    assert_eq!(Size::new(u16::MAX, u16::MAX).area(), 65535u32 * 65535u32);
}
