use roguelike::rect::Rect;

#[test]
fn new_adds_size_to_corner() {
    let r = Rect::new(3, 4, 6, 7);
    assert_eq!((r.x1, r.y1, r.x2, r.y2), (3, 4, 9, 11));
}

#[test]
fn intersect_counts_shared_edges() {
    let a = Rect::new(0, 0, 5, 5);
    let touching = Rect::new(5, 5, 3, 3);
    let apart = Rect::new(6, 0, 3, 3);
    assert!(a.intersect(&touching));
    assert!(touching.intersect(&a));
    assert!(!a.intersect(&apart));
    assert!(!apart.intersect(&a));
}

#[test]
fn center_rounds_toward_zero() {
    assert_eq!(Rect::new(0, 0, 7, 9).center(), (3, 4));
    assert_eq!(Rect::new(-7, -9, 0, 0).center(), (-7, -9));
    assert_eq!(Rect { x1: -8, y1: -3, x2: 1, y2: 0 }.center(), (-3, -1));
    assert_eq!(
        Rect { x1: i32::MAX, y1: i32::MIN, x2: i32::MAX, y2: i32::MIN }.center(),
        (i32::MAX, i32::MIN)
    );
}
