use mc_renderer::geometry::{cos_of, rot_vert_with_orig, sin_of, Axis, Point, Rotation, TRIG_ONE, UNIT};

fn p(x: i64, y: i64, z: i64) -> Point {
    Point { x, y, z }
}

fn units(x: i64, y: i64, z: i64) -> Point {
    p(x * UNIT, y * UNIT, z * UNIT)
}

fn turn(axis: Axis, steps: u8) -> Rotation {
    Rotation { axis, steps }
}

#[test]
fn quarter_turn_about_y_at_the_block_centre() {
    let r = rot_vert_with_orig(turn(Axis::Y, 4), units(8, 8, 8), units(0, 8, 8));
    assert_eq!(r, units(8, 8, 16));
    let (x, y, z) = (r.x as f32 / UNIT as f32, r.y as f32 / UNIT as f32, r.z as f32 / UNIT as f32);
    assert!((x - 8.0).abs() < 1e-6 && (y - 8.0).abs() < 1e-6 && (z - 16.0).abs() < 1e-6);
}

#[test]
fn quarter_turns_about_each_axis() {
    let o = p(0, 0, 0);
    assert_eq!(rot_vert_with_orig(turn(Axis::X, 4), o, p(1, 2, 3)), p(1, -3, 2));
    assert_eq!(rot_vert_with_orig(turn(Axis::Y, 4), o, p(1, 2, 3)), p(3, 2, -1));
    assert_eq!(rot_vert_with_orig(turn(Axis::Z, 4), o, p(1, 2, 3)), p(-2, 1, 3));
    assert_eq!(rot_vert_with_orig(turn(Axis::Z, 8), o, p(1, 2, 3)), p(-1, -2, 3));
    assert_eq!(rot_vert_with_orig(turn(Axis::Z, 12), o, p(1, 2, 3)), p(2, -1, 3));
}

#[test]
fn no_turn_and_full_turn_leave_points_alone() {
    let v = p(-12345, 678, 9);
    let o = p(5, -6, 7);
    for axis in [Axis::X, Axis::Y, Axis::Z] {
        assert_eq!(rot_vert_with_orig(turn(axis, 0), o, v), v);
        assert_eq!(rot_vert_with_orig(turn(axis, 16), o, v), v);
        assert_eq!(rot_vert_with_orig(turn(axis, 32), o, v), v);
    }
}

#[test]
fn four_quarter_turns_come_back() {
    let o = units(8, 8, 8);
    let mut v = units(3, 1, 15);
    for _ in 0..4 {
        v = rot_vert_with_orig(turn(Axis::X, 4), o, v);
    }
    assert_eq!(v, units(3, 1, 15));
}

#[test]
fn origin_is_a_fixed_point() {
    let o = units(8, 3, 5);
    for steps in 0..16 {
        assert_eq!(rot_vert_with_orig(turn(Axis::Z, steps), o, o), o);
    }
}

#[test]
fn one_step_rounds_to_the_nearest_tick() {
    let r = rot_vert_with_orig(turn(Axis::Z, 1), p(0, 0, 0), p(4096, 0, 0));
    assert_eq!(r, p(3784, 1568, 0));
    let r = rot_vert_with_orig(turn(Axis::Z, 15), p(0, 0, 0), p(4096, 0, 0));
    assert_eq!(r, p(3784, -1567, 0));
}

#[test]
fn table_matches_cosine_and_sine() {
    for k in 0u8..16 {
        let angle = (k as f64 * 22.5).to_radians();
        assert!((cos_of(k) as f64 / TRIG_ONE as f64 - angle.cos()).abs() < 1e-4);
        assert!((sin_of(k) as f64 / TRIG_ONE as f64 - angle.sin()).abs() < 1e-4);
    }
    assert_eq!(cos_of(0), 16384);
    assert_eq!(sin_of(4), 16384);
    assert_eq!(cos_of(16), 16384);
    assert_eq!(cos_of(250), cos_of(250 % 16));
}

#[test]
fn rotation_stays_within_a_tick_of_the_exact_value() {
    let o = units(8, 8, 8);
    let v = units(1, 13, 4);
    for k in 0u8..16 {
        let a = (k as f64 * 22.5).to_radians();
        let (dx, dz) = ((v.x - o.x) as f64, (v.z - o.z) as f64);
        let x = dx * a.cos() + dz * a.sin() + o.x as f64;
        let z = -dx * a.sin() + dz * a.cos() + o.z as f64;
        let r = rot_vert_with_orig(turn(Axis::Y, k), o, v);
        assert!((r.x as f64 - x).abs() < 3.0);
        assert!((r.z as f64 - z).abs() < 3.0);
        assert_eq!(r.y, v.y);
    }
}
