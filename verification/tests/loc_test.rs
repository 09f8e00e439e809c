use lib_ruby_parser::Loc;

#[test]
fn test_to_range() {
    assert_eq!(Loc { start: 10, end: 20 }.to_range(), 10..20)
}

#[test]
fn test_fmt() {
    assert_eq!(String::from_utf8(Loc { start: 10, end: 20 }.inspect()).unwrap(), "10...20")
}

#[test]
fn test_is_empty() {
    assert!(Loc { start: 1, end: 1 }.is_empty());
    assert!(!Loc { start: 1, end: 2 }.is_empty());
}

#[test]
fn loc_size_and_resize() {
    let l = Loc { start: 3, end: 10 };
    assert_eq!(l.size(), 7);
    assert_eq!(l.resize(2), Loc { start: 3, end: 5 });
    assert_eq!(l.with_start(5), Loc { start: 5, end: 10 });
    assert_eq!(l.with_end(4), Loc { start: 3, end: 4 });
}

#[test]
fn loc_adjust() {
    let l = Loc { start: 3, end: 10 };
    assert_eq!(l.adjust_start(2), Loc { start: 5, end: 10 });
    assert_eq!(l.adjust_start(-3), Loc { start: 0, end: 10 });
    assert_eq!(l.adjust_end(-4), Loc { start: 3, end: 6 });
    assert_eq!(l.adjust_end(5), Loc { start: 3, end: 15 });
}

#[test]
fn loc_join_laws_on_values() {
    let a = Loc { start: 3, end: 10 };
    let b = Loc { start: 1, end: 5 };
    let c = Loc { start: 8, end: 20 };
    assert_eq!(a.join(&b), Loc { start: 1, end: 10 });
    assert_eq!(a.join(&b), b.join(&a));
    assert_eq!(a.join(&b).join(&c), a.join(&b.join(&c)));
    assert_eq!(a.join(&a), a);
    assert_eq!(a.maybe_join(&Some(c)), Loc { start: 3, end: 20 });
    assert_eq!(a.maybe_join(&None), a);
}

#[test]
fn loc_inspect_zero() {
    assert_eq!(String::from_utf8(Loc { start: 0, end: 0 }.inspect()).unwrap(), "0...0");
    assert_eq!(String::from_utf8(Loc { start: 7, end: 123 }.inspect()).unwrap(), "7...123");
}
