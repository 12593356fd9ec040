use xsteps::screen::{NoScreenMatched, PointerState, ScreenDescriptor, ScreenDirectory};

fn screen(x: i32, y: i32, width: u32, height: u32) -> ScreenDescriptor {
    ScreenDescriptor { x, y, width, height }
}

fn at(x: i32, y: i32) -> PointerState {
    PointerState { x, y }
}

fn two_side_by_side() -> ScreenDirectory {
    ScreenDirectory::new(vec![screen(0, 0, 1920, 1080), screen(1920, 0, 1280, 1024)]).unwrap()
}

#[test]
fn empty_enumeration_gives_no_directory() {
    assert!(ScreenDirectory::new(Vec::new()).is_none());
}

#[test]
fn directory_keeps_the_enumeration_order() {
    let directory = two_side_by_side();
    assert_eq!(directory.len(), 2);
    assert_eq!(directory.get(0), Some(screen(0, 0, 1920, 1080)));
    assert_eq!(directory.get(1), Some(screen(1920, 0, 1280, 1024)));
    assert_eq!(directory.get(2), None);
}

#[test]
fn contains_counts_the_edges() {
    let s = screen(10, 20, 100, 50);
    assert!(s.contains(at(10, 20)));
    assert!(s.contains(at(110, 70)));
    assert!(s.contains(at(60, 45)));
    assert!(!s.contains(at(9, 20)));
    assert!(!s.contains(at(111, 70)));
    assert!(!s.contains(at(10, 19)));
    assert!(!s.contains(at(110, 71)));
}

#[test]
fn contains_holds_at_the_limits_of_the_coordinates() {
    let s = screen(i32::MAX - 1, i32::MIN, u32::MAX, u32::MAX);
    assert!(s.contains(at(i32::MAX, i32::MIN)));
    assert!(s.contains(at(i32::MAX, i32::MAX)));
    assert!(!s.contains(at(i32::MAX - 2, 0)));
}

#[test]
fn position_inside_one_screen_resolves_to_it() {
    let directory = two_side_by_side();
    assert_eq!(directory.resolve_screen(at(100, 100)), screen(0, 0, 1920, 1080));
    assert_eq!(directory.resolve_index(at(100, 100)), 0);
    assert_eq!(directory.resolve_screen(at(2500, 500)), screen(1920, 0, 1280, 1024));
    assert_eq!(directory.resolve_index(at(2500, 500)), 1);
}

#[test]
fn overlap_resolves_to_the_first_enumerated() {
    let a = screen(0, 0, 100, 100);
    let b = screen(50, 50, 100, 100);
    let ab = ScreenDirectory::new(vec![a, b]).unwrap();
    let ba = ScreenDirectory::new(vec![b, a]).unwrap();
    let p = at(75, 75);
    assert_eq!(ab.resolve_screen(p), a);
    assert_eq!(ba.resolve_screen(p), b);
    for _ in 0..3 {
        assert_eq!(ab.resolve_index(p), 0);
    }
}

#[test]
fn shared_edge_belongs_to_the_first_enumerated() {
    let directory = two_side_by_side();
    assert_eq!(directory.resolve_index(at(1920, 10)), 0);
    assert_eq!(directory.resolve_index(at(1921, 10)), 1);
}

#[test]
fn position_outside_every_screen_falls_back_to_the_first() {
    let directory = two_side_by_side();
    assert_eq!(directory.resolve_screen(at(-5, -5)), screen(0, 0, 1920, 1080));
    assert_eq!(directory.resolve_index(at(5000, 5000)), 0);
    assert_eq!(directory.resolve_index(at(2500, 1050)), 0);
}

#[test]
fn locate_reports_a_position_outside_every_screen() {
    let directory = two_side_by_side();
    assert_eq!(directory.locate(at(2500, 500)), Ok(1));
    assert_eq!(directory.locate(at(-1, 0)), Err(NoScreenMatched { pointer: at(-1, 0) }));
}

#[test]
fn edge_of_an_earlier_screen_wins_over_the_inside_of_a_later_one() {
    let a = screen(0, 0, 100, 100);
    let b = screen(50, 50, 100, 100);
    let p = at(100, 70);
    assert!(a.contains(p));
    assert!(b.contains(p));
    assert_eq!(ScreenDirectory::new(vec![a, b]).unwrap().resolve_screen(p), a);
    assert_eq!(ScreenDirectory::new(vec![b, a]).unwrap().resolve_screen(p), b);
}
