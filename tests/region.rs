use vkot::region::Region;

#[test]
fn intersect_clamps_to_screen() {
    let r = Region::new(-5, -3, 100, 30).intersect([80, 24]);
    assert_eq!(r, Region::new(0, 0, 80, 24));
    assert_eq!(r.len(), 80 * 24);
}

#[test]
fn intersect_off_screen_is_empty() {
    let r = Region::new(90, 0, 95, 5).intersect([80, 24]);
    assert!(r.is_empty());
    assert_eq!(r, Region::new(0, 0, 0, 0));
    assert_eq!(r.len(), 0);
}

#[test]
fn intersect_is_idempotent_and_inside() {
    let regions = [
        Region::new(-10, 5, 20, 50),
        Region::new(3, 3, 2, 9),
        Region::new(79, 23, 81, 25),
        Region::new(i16::MIN, i16::MIN, i16::MAX, i16::MAX),
    ];
    for r in regions.iter() {
        let once = r.intersect([80, 24]);
        assert_eq!(once.intersect([80, 24]), once);
        assert!(once.left >= 0 && once.top >= 0);
        assert!(once.right <= 80 && once.bottom <= 24);
        assert!(once.left <= once.right && once.top <= once.bottom);
    }
}

#[test]
fn region_len_counts_cells() {
    assert_eq!(Region::new(2, 3, 5, 7).len(), 12);
    assert_eq!(Region::new(5, 3, 2, 7).len(), 0);
    assert_eq!(Region::new(i16::MIN, i16::MIN, i16::MAX, i16::MAX).len(), 65535 * 65535);
}
