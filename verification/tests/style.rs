use germterm::cell::{Cell, CellFormat};
use germterm::color::Color;
use germterm::style::{Attributes, Style};

fn bold() -> Attributes {
    Attributes(1)
}

#[test]
fn merge_takes_the_colors_given_and_all_attributes() {
    let base = Style::new(Some(Color::red()), Some(Color::blue()), bold());
    let over = Style::new(None, Some(Color::green()), Attributes(4));
    let merged = base.merged(over);
    assert_eq!(merged.fg(), Some(Color::red()));
    assert_eq!(merged.bg(), Some(Color::green()));
    assert_eq!(merged.attributes(), Attributes(5));
    let mut m = base;
    m.merge(over);
    assert_eq!(m, merged);
}

#[test]
fn merge_laws_on_values() {
    let a = Style::new(Some(Color::red()), None, bold());
    let b = Style::new(None, Some(Color::blue()), Attributes(2));
    let c = Style::new(Some(Color::white()), None, Attributes(8));
    assert_eq!(a.merged(a), a);
    assert_eq!(a.merged(Style::empty()), a);
    assert_eq!(a.merged(b).merged(c), a.merged(b.merged(c)));
}

#[test]
fn style_setters() {
    let mut s = Style::empty();
    assert!(!s.has_fg() && !s.has_bg());
    s.set_fg(Some(Color::cyan()));
    s.set_bg(Some(Color::black()));
    s.set_attributes(bold());
    assert!(s.has_fg() && s.has_bg());
    assert_eq!(s, Style::new(Some(Color::cyan()), Some(Color::black()), bold()));
    assert_eq!(s.with_fg(None).fg(), None);
    assert_eq!(s.with_bg(None).bg(), None);
}

#[test]
fn premultiply_both_colors() {
    let mut s = Style::new(Some(Color::red().with_alpha(127)), Some(Color::white()), Attributes::empty());
    s.premultiply_fg_and_bg();
    assert_eq!(s.fg(), Some(Color::new(127, 0, 0, 127)));
    assert_eq!(s.bg(), Some(Color::white()));
}

#[test]
fn attributes_sets() {
    let a = Attributes(1).union(Attributes(4));
    assert_eq!(a, Attributes(5));
    assert!(a.contains(Attributes(4)));
    assert!(!a.contains(Attributes(2)));
    assert!(a.contains(Attributes::empty()));
}

#[test]
fn cells() {
    let mut c = Cell::new("a", Style::empty());
    assert_eq!(c.as_str(), "a");
    assert_eq!(c.format, CellFormat::Standard);
    c.set_str("b");
    c.style_mut().set_fg(Some(Color::red()));
    assert_eq!(c.as_str(), "b");
    assert_eq!(c.style().fg(), Some(Color::red()));
    let other = Cell::new("z", Style::new(None, Some(Color::blue()), bold()));
    c.merge(&other);
    assert_eq!(c.as_str(), "z");
    assert_eq!(c.style(), Style::new(Some(Color::red()), Some(Color::blue()), bold()));
    let e = Cell::empty();
    assert_eq!(e.as_str(), " ");
    assert_eq!(e.style(), Style::new(Some(Color::clear()), Some(Color::clear()), Attributes::empty()));
    assert!(e.clone() == e);
}
