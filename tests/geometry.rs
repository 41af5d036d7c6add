use ball_game::geometry::{
    advance, arena_bounds, clamp_coord, clamp_position, isqrt, normalize, overlaps, reflect,
    Arena, Direction, Position, DIRECTION_SCALE, UNITS_PER_PIXEL,
};

#[test]
fn clamp_keeps_inside_values() {
    assert_eq!(clamp_coord(5, 0, 10), 5);
    assert_eq!(clamp_coord(0, 0, 10), 0);
    assert_eq!(clamp_coord(10, 0, 10), 10);
}

#[test]
fn clamp_raises_and_lowers() {
    assert_eq!(clamp_coord(-3, 0, 10), 0);
    assert_eq!(clamp_coord(15, 0, 10), 10);
}

#[test]
fn clamp_is_idempotent() {
    for p in [-20i64, -1, 0, 3, 10, 11, 99] {
        let once = clamp_coord(p, 0, 10);
        assert!((0..=10).contains(&once));
        assert_eq!(clamp_coord(once, 0, 10), once);
    }
}

#[test]
fn clamp_on_degenerate_range_takes_upper_bound() {
    assert_eq!(clamp_coord(5, 10, 0), 0);
    assert_eq!(clamp_coord(-5, 10, 0), 0);
}

#[test]
fn integer_square_roots() {
    assert_eq!(isqrt(0), 0);
    assert_eq!(isqrt(1), 1);
    assert_eq!(isqrt(15), 3);
    assert_eq!(isqrt(16), 4);
    assert_eq!(isqrt(2_000_000), 1414);
    assert_eq!(isqrt(0x7fff_ffff_ffff_ffff), 3_037_000_499);
}

#[test]
fn normalize_axis_vectors() {
    assert_eq!(normalize(1000, 0), Direction { x: 1_000_000, y: 0 });
    assert_eq!(normalize(0, -5), Direction { x: 0, y: -1_000_000 });
}

#[test]
fn normalize_diagonal() {
    assert_eq!(normalize(1, 1), Direction { x: 707_107, y: 707_107 });
    assert_eq!(normalize(-1000, 1000), Direction { x: -707_106, y: 707_106 });
}

#[test]
fn normalize_three_four_five() {
    assert_eq!(normalize(3, 4), Direction { x: 600_000, y: 800_000 });
    assert_eq!(normalize(-3, -4), Direction { x: -600_000, y: -800_000 });
    assert_eq!(normalize(2048, 1), Direction { x: 999_999, y: 488 });
}

#[test]
fn normalize_zero_stays_zero() {
    assert_eq!(normalize(0, 0), Direction { x: 0, y: 0 });
}

#[test]
fn normalized_vectors_have_unit_length() {
    let s = DIRECTION_SCALE;
    for (x, y) in [(1i64, 1i64), (7, -3), (-1000, 999), (2048, 1), (2, -2048)] {
        let d = normalize(x, y);
        assert!(d.x * d.x + d.y * d.y < (s + 1) * (s + 1));
        let (ax, ay) = (d.x.abs() + 1, d.y.abs() + 1);
        assert!(s * s < ax * ax + ay * ay);
        let length = ((d.x * d.x + d.y * d.y) as f64).sqrt() / s as f64;
        assert!((length - 1.0).abs() < 0.000_002);
    }
}

#[test]
fn touching_circles_do_not_overlap() {
    let a = Position { x: 0, y: 0 };
    let b = Position { x: 10, y: 0 };
    assert!(!overlaps(a, 4, b, 6));
    assert!(overlaps(a, 4, b, 7));
    let c = Position { x: 3, y: 4 };
    assert!(!overlaps(a, 2, c, 3));
    assert!(overlaps(a, 3, c, 3));
}

#[test]
fn overlap_at_extreme_coordinates() {
    let a = Position { x: -4_611_686_018_427_387_904, y: -4_611_686_018_427_387_904 };
    let b = Position { x: 4_611_686_018_427_387_904, y: 4_611_686_018_427_387_904 };
    assert!(!overlaps(a, 0, b, 0));
    assert!(overlaps(a, 1, a, 0));
}

#[test]
fn advance_moves_by_speed_and_time() {
    let p = Position { x: 0, y: 0 };
    let r = advance(p, Direction { x: 1_000_000, y: 0 }, 500, 1_000_000);
    assert_eq!(r, Position { x: 500 * UNITS_PER_PIXEL, y: 0 });
    let r = advance(p, Direction { x: -600_000, y: 800_000 }, 400, 500_000);
    assert_eq!(r, Position { x: -120 * UNITS_PER_PIXEL, y: 160 * UNITS_PER_PIXEL });
}

#[test]
fn advance_rounds_toward_zero() {
    let p = Position { x: 0, y: 0 };
    let r = advance(p, Direction { x: 707_107, y: -707_107 }, 500, 100_000);
    assert_eq!(r, Position { x: 35_355_350_000, y: -35_355_350_000 });
    let r = advance(p, Direction { x: 1, y: -1 }, 1, 999);
    assert_eq!(r, Position { x: 0, y: 0 });
    let r = advance(p, Direction { x: 3, y: -3 }, 1, 999);
    assert_eq!(r, Position { x: 2, y: -2 });
}

#[test]
fn zero_direction_does_not_move() {
    let p = Position { x: 123, y: -456 };
    assert_eq!(advance(p, Direction { x: 0, y: 0 }, 500, 4_000_000_000), p);
}

#[test]
fn bounds_of_an_arena() {
    let b = arena_bounds(Arena { width: 800, height: 600 }, 32);
    assert_eq!(b.x_min, 32 * UNITS_PER_PIXEL);
    assert_eq!(b.x_max, 768 * UNITS_PER_PIXEL);
    assert_eq!(b.y_min, 32 * UNITS_PER_PIXEL);
    assert_eq!(b.y_max, 568 * UNITS_PER_PIXEL);
}

#[test]
fn clamp_position_into_bounds() {
    let b = arena_bounds(Arena { width: 800, height: 600 }, 32);
    let p = clamp_position(Position { x: -5, y: 900 * UNITS_PER_PIXEL }, b);
    assert_eq!(p, Position { x: b.x_min, y: b.y_max });
}

#[test]
fn reflect_only_axes_outside() {
    let b = arena_bounds(Arena { width: 800, height: 600 }, 32);
    let d = Direction { x: -600_000, y: 800_000 };
    let inside = Position { x: 100 * UNITS_PER_PIXEL, y: 100 * UNITS_PER_PIXEL };
    assert_eq!(reflect(inside, d, b), (d, false));
    let left = Position { x: b.x_min - 1, y: 100 * UNITS_PER_PIXEL };
    assert_eq!(reflect(left, d, b), (Direction { x: 600_000, y: 800_000 }, true));
    let corner = Position { x: b.x_max + 1, y: b.y_max + 1 };
    assert_eq!(reflect(corner, d, b), (Direction { x: 600_000, y: -800_000 }, true));
}
