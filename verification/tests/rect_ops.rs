use dungeon_grid::Rect;

#[test]
fn new_derives_corners() {
    let r = Rect::new(2, 3, 4, 5);
    assert_eq!(r.x1, 2);
    assert_eq!(r.y1, 3);
    assert_eq!(r.x2, 6);
    assert_eq!(r.y2, 8);
}

#[test]
fn new_accepts_zero_extent() {
    let r = Rect::new(7, 9, 0, 0);
    assert_eq!(r.x1, 7);
    assert_eq!(r.x2, 7);
    assert_eq!(r.y1, 9);
    assert_eq!(r.y2, 9);
}

#[test]
fn center_truncates() {
    let r = Rect::new(2, 3, 4, 5);
    // x span 2..6 -> 4; y span 3..8 -> 11 / 2 -> 5
    assert_eq!(r.center(), (4, 5));
    let origin = Rect::new(0, 0, 1, 1);
    assert_eq!(origin.center(), (0, 0));
}

#[test]
fn overlap_detects_intersection() {
    let a = Rect::new(1, 1, 4, 4);
    let b = Rect::new(3, 3, 4, 4);
    assert!(a.overlaps_with(&b));
    let far = Rect::new(10, 10, 2, 2);
    assert!(!a.overlaps_with(&far));
}

#[test]
fn overlap_is_inclusive_at_edges() {
    // The rectangles only share the boundary line x = 4, yet they are
    // reported as overlapping: touching counts.
    let a = Rect::new(1, 1, 3, 3);
    let b = Rect::new(4, 1, 3, 3);
    assert!(a.overlaps_with(&b));
}

#[test]
fn overlap_is_symmetric() {
    let pairs = [
        (Rect::new(1, 1, 4, 4), Rect::new(3, 3, 4, 4)),
        (Rect::new(0, 0, 2, 2), Rect::new(10, 10, 2, 2)),
        (Rect::new(5, 0, 1, 9), Rect::new(0, 5, 9, 1)),
    ];
    for (a, b) in pairs.iter() {
        assert_eq!(a.overlaps_with(b), b.overlaps_with(a));
    }
}

#[test]
fn overlap_is_reflexive() {
    let rects = [Rect::new(0, 0, 1, 1), Rect::new(3, 7, 0, 5), Rect::new(9, 2, 6, 6)];
    for r in rects.iter() {
        assert!(r.overlaps_with(r));
    }
}
