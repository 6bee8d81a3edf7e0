use kobo_wifi_remote::transform::{flags_for, transform_coord, CanonicalRotation, Coord, TouchFlags};

const NONE: TouchFlags = TouchFlags { swap_axes: false, mirror_x: false, mirror_y: false };

#[test]
fn upright_without_flags_is_identity() {
    let f = flags_for(CanonicalRotation::Upright, NONE, None);
    for c in [Coord { x: 0, y: 0 }, Coord { x: 17, y: 900 }, Coord { x: -3, y: 5 }] {
        assert_eq!(transform_coord(c, f, 1072, 1448), c);
    }
}

#[test]
fn clockwise_swaps_and_mirrors_y() {
    let f = flags_for(CanonicalRotation::Clockwise, NONE, None);
    assert_eq!(f, TouchFlags { swap_axes: true, mirror_x: false, mirror_y: true });
    assert_eq!(transform_coord(Coord { x: 10, y: 20 }, f, 100, 200), Coord { x: 179, y: 10 });
}

#[test]
fn rotation_table() {
    assert_eq!(
        flags_for(CanonicalRotation::UpsideDown, NONE, None),
        TouchFlags { swap_axes: false, mirror_x: true, mirror_y: true }
    );
    assert_eq!(
        flags_for(CanonicalRotation::CounterClockwise, NONE, None),
        TouchFlags { swap_axes: true, mirror_x: true, mirror_y: false }
    );
}

#[test]
fn overrides_are_taken_verbatim() {
    let o = TouchFlags { swap_axes: false, mirror_x: false, mirror_y: true };
    let base = TouchFlags { swap_axes: true, mirror_x: true, mirror_y: false };
    assert_eq!(flags_for(CanonicalRotation::Clockwise, base, Some(o)), o);
    assert_eq!(transform_coord(Coord { x: 4, y: 5 }, o, 10, 10), Coord { x: 4, y: 4 });
}

#[test]
fn mirror_then_swap() {
    let f = TouchFlags { swap_axes: true, mirror_x: true, mirror_y: false };
    assert_eq!(transform_coord(Coord { x: 1, y: 2 }, f, 10, 20), Coord { x: 2, y: 8 });
}

#[test]
fn rotation_slots() {
    assert_eq!(CanonicalRotation::Upright.index(), 0);
    assert_eq!(CanonicalRotation::CounterClockwise.index(), 3);
}
