use mcrs::{Coordinate, Coordinate2D, Size, Size2D};

#[test]
fn size_between_is_symmetric() {
    let pairs = [
        (Coordinate::new(0, 0, 0), Coordinate::new(1, 1, 1)),
        (Coordinate::new(287, 67, 167), Coordinate::new(288, 69, 166)),
        (Coordinate::new(-5, 10, -20), Coordinate::new(7, -3, 0)),
        (Coordinate::new(i32::MIN, 0, 3), Coordinate::new(i32::MAX - 1, 0, 3)),
    ];
    for (a, b) in pairs {
        assert_eq!(a.size_between(b), b.size_between(a));
        assert_eq!(a.min(b), b.min(a));
        let m = a.min(b);
        assert_eq!(m.x, a.x.min(b.x));
        assert_eq!(m.y, a.y.min(b.y));
        assert_eq!(m.z, a.z.min(b.z));
    }
    assert_eq!(
        Coordinate::new(287, 67, 167).size_between(Coordinate::new(288, 69, 166)),
        Size::new(2, 3, 2)
    );
    assert_eq!(
        Coordinate::new(i32::MIN, 0, 3).size_between(Coordinate::new(i32::MAX - 1, 0, 3)),
        Size::new(u32::MAX, 1, 1)
    );
    let a = Coordinate2D::new(3, -4);
    let b = Coordinate2D::new(-1, 9);
    assert_eq!(a.size_between(b), b.size_between(a));
    assert_eq!(a.size_between(b), Size2D::new(5, 14));
    assert_eq!(a.min(b), Coordinate2D::new(-1, -4));
}

#[test]
fn index_offset_round_trip() {
    for size in [Size::new(1, 1, 1), Size::new(2, 3, 4), Size::new(5, 1, 3), Size::new(3, 4, 1)] {
        let volume = size.volume();
        assert_eq!(volume, (size.x * size.y * size.z) as usize);
        let mut seen = Vec::new();
        for i in 0..volume {
            let offset = size.index_to_offset(i);
            assert!(size.contains(offset));
            assert_eq!(size.offset_to_index(offset), i);
            assert!(!seen.contains(&offset));
            seen.push(offset);
        }
    }
    for size in [Size2D::new(1, 1), Size2D::new(3, 4), Size2D::new(4, 2)] {
        let area = size.area();
        assert_eq!(area, (size.x * size.z) as usize);
        for i in 0..area {
            let offset = size.index_to_offset(i);
            assert!(size.contains(offset));
            assert_eq!(size.offset_to_index(offset), i);
        }
    }
}

#[test]
fn index_layout_is_z_fastest() {
    let size = Size::new(2, 3, 4);
    assert_eq!(size.index_to_offset(0), Coordinate::new(0, 0, 0));
    assert_eq!(size.index_to_offset(1), Coordinate::new(0, 0, 1));
    assert_eq!(size.index_to_offset(4), Coordinate::new(1, 0, 0));
    assert_eq!(size.index_to_offset(8), Coordinate::new(0, 1, 0));
    assert_eq!(size.index_to_offset(23), Coordinate::new(1, 2, 3));
    assert_eq!(size.offset_to_index(Coordinate::new(1, 2, 3)), 23);
    let flat = Size2D::new(3, 2);
    assert_eq!(flat.index_to_offset(3), Coordinate2D::new(1, 1));
    assert_eq!(flat.offset_to_index(Coordinate2D::new(2, 1)), 5);
}

#[test]
fn contains_checks_every_axis() {
    let size = Size::new(2, 3, 4);
    assert!(size.contains(Coordinate::new(1, 2, 3)));
    assert!(!size.contains(Coordinate::new(2, 0, 0)));
    assert!(!size.contains(Coordinate::new(0, 3, 0)));
    assert!(!size.contains(Coordinate::new(0, 0, 4)));
    assert!(!size.contains(Coordinate::new(-1, 0, 0)));
    let huge = Size::new(u32::MAX, 1, 1);
    assert!(huge.contains(Coordinate::new(i32::MAX, 0, 0)));
    assert!(!Size2D::new(3, 3).contains(Coordinate2D::new(0, -1)));
    assert!(Size2D::new(3, 3).contains(Coordinate2D::new(2, 2)));
}

#[test]
fn coordinate_helpers() {
    let c = Coordinate::new(-3, 64, i32::MIN);
    assert_eq!(c.magnitude(), Size::new(3, 64, 1 << 31));
    assert_eq!(c.flat(), Coordinate2D::new(-3, i32::MIN));
    assert_eq!(c.with_height(70), Coordinate::new(-3, 70, i32::MIN));
    assert_eq!(
        Coordinate::new(1, 2, 3).add(Coordinate::new(10, -20, 30)),
        Coordinate::new(11, -18, 33)
    );
    assert_eq!(
        Coordinate::new(1, 2, 3).sub(Coordinate::new(10, -20, 30)),
        Coordinate::new(-9, 22, -27)
    );
    let d = Coordinate2D::new(-8, 5);
    assert_eq!(d.magnitude(), Size2D::new(8, 5));
    assert_eq!(d.with_height(-1), Coordinate::new(-8, -1, 5));
    assert_eq!(d.flip_if(true), Coordinate2D::new(5, -8));
    assert_eq!(d.flip_if(false), d);
    assert_eq!(d.add(Coordinate2D::new(1, 1)), Coordinate2D::new(-7, 6));
    assert_eq!(d.sub(Coordinate2D::new(1, 1)), Coordinate2D::new(-9, 4));
}

#[test]
fn size_helpers() {
    let size = Size::new(4, 9, 6);
    assert_eq!(size.flat(), Size2D::new(4, 6));
    assert_eq!(size.volume(), 216);
    let flat = Size2D::new(4, 6);
    assert_eq!(flat.area(), 24);
    assert_eq!(flat.with_height(9), size);
    assert_eq!(flat.flip_if(true), Size2D::new(6, 4));
    assert_eq!(flat.flip_if(false), flat);
}

#[test]
fn grid_span_guard() {
    let a = Coordinate::new(0, 0, 0);
    assert!(a.spans_grid_with(Coordinate::new(1, 1, 1)));
    assert!(a.spans_grid_with(Coordinate::new(i32::MAX, 0, 0)));
    assert!(!a.spans_grid_with(Coordinate::new(i32::MIN, 0, 0)));
    assert!(!Coordinate::new(i32::MIN, 0, 0).spans_grid_with(Coordinate::new(i32::MAX, 0, 0)));
    let b = Coordinate2D::new(-1, -1);
    assert!(b.spans_grid_with(Coordinate2D::new(5, 5)));
    assert!(!b.spans_grid_with(Coordinate2D::new(i32::MAX, 0)));
}
