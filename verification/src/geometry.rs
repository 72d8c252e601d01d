//! Fixed-point geometry: points, and rotations in steps of 22.5 degrees.
//!
//! Lengths are integers. `UNIT` ticks make one model unit, of which sixteen
//! span a block. Quarter turns are exact; other angles round to the nearest
//! tick.

use vstd::prelude::*;

verus! {

/// Ticks per model unit.
pub const UNIT: i64 = 4096;

/// Ticks across a whole texture, which spans sixteen model units.
pub const UV_ONE: i64 = 65536;

/// The value that stands for a cosine of one.
pub const TRIG_ONE: i64 = 16384;

/// Largest magnitude of a coordinate that the rotations accept.
pub const COORD_LIMIT: i64 = 0x1000_0000_0000;

/// One of the three axes.
#[derive(Clone, Copy, PartialEq, Eq, Debug, Structural)]
pub enum Axis {
    X,
    Y,
    Z,
}

/// A point or a direction, in ticks.
#[derive(Clone, Copy, PartialEq, Eq, Debug, Structural)]
pub struct Point {
    pub x: i64,
    pub y: i64,
    pub z: i64,
}

/// A rotation about an axis by `steps` times 22.5 degrees, counted modulo a
/// full turn of sixteen steps.
#[derive(Clone, Copy, PartialEq, Eq, Debug, Structural)]
pub struct Rotation {
    pub axis: Axis,
    pub steps: u8,
}

/// Cosine of `k` steps of 22.5 degrees, scaled by `TRIG_ONE`.
pub open spec fn cos_steps(k: int) -> int {
    let m = k % 16;
    if m == 0 {
        16384
    } else if m == 1 || m == 15 {
        15137
    } else if m == 2 || m == 14 {
        11585
    } else if m == 3 || m == 13 {
        6270
    } else if m == 4 || m == 12 {
        0
    } else if m == 5 || m == 11 {
        -6270
    } else if m == 6 || m == 10 {
        -11585
    } else if m == 7 || m == 9 {
        -15137
    } else {
        -16384
    }
}

/// Sine of `k` steps of 22.5 degrees, scaled by `TRIG_ONE`.
pub open spec fn sin_steps(k: int) -> int {
    cos_steps(k + 12)
}

/// `n / TRIG_ONE`, rounded to the nearest integer, halves upwards.
pub open spec fn scale_down(n: int) -> int {
    (n + 8192) / 16384
}

/// The pair `(a, b)` turned counter-clockwise by `k` steps.
pub open spec fn rotate_pair(a: int, b: int, k: int) -> (int, int) {
    (
        scale_down(a * cos_steps(k) - b * sin_steps(k)),
        scale_down(a * sin_steps(k) + b * cos_steps(k)),
    )
}

/// The direction `v` turned by `rot` about the origin.
pub open spec fn rotate_vector(rot: Rotation, v: (int, int, int)) -> (int, int, int) {
    let k = rot.steps as int;
    match rot.axis {
        Axis::X => {
            let (y, z) = rotate_pair(v.1, v.2, k);
            (v.0, y, z)
        },
        Axis::Y => {
            let (z, x) = rotate_pair(v.2, v.0, k);
            (x, v.1, z)
        },
        Axis::Z => {
            let (x, y) = rotate_pair(v.0, v.1, k);
            (x, y, v.2)
        },
    }
}

/// The point `vert` turned by `rot` about the point `orig`.
pub open spec fn rotate_about(rot: Rotation, orig: (int, int, int), vert: (int, int, int)) -> (
    int,
    int,
    int,
) {
    let r = rotate_vector(rot, (vert.0 - orig.0, vert.1 - orig.1, vert.2 - orig.2));
    (r.0 + orig.0, r.1 + orig.1, r.2 + orig.2)
}

/// Whether each coordinate of `p` lies within `limit` of zero.
pub open spec fn within(p: (int, int, int), limit: int) -> bool {
    &&& -limit <= p.0 <= limit
    &&& -limit <= p.1 <= limit
    &&& -limit <= p.2 <= limit
}

impl Point {
    /// The point as a triple of integers.
    pub open spec fn view(&self) -> (int, int, int) {
        (self.x as int, self.y as int, self.z as int)
    }
}

/// A product of bounded factors is bounded.
proof fn lemma_product_range(a: int, c: int, la: int, lc: int)
    requires
        -la <= a <= la,
        -lc <= c <= lc,
    ensures
        -(la * lc) <= a * c <= la * lc,
{
    assert(-(la * lc) <= a * c <= la * lc) by (nonlinear_arith)
        requires
            -la <= a <= la,
            -lc <= c <= lc,
    ;
}

/// Cosines and sines stay between minus one and one.
pub proof fn lemma_trig_range(k: int)
    ensures
        -16384 <= cos_steps(k) <= 16384,
        -16384 <= sin_steps(k) <= 16384,
{
}

/// The squares of cosine and sine add up to one, within one part in twenty
/// thousand: a rotation keeps lengths to that accuracy, and quarter turns
/// keep them exactly.
pub proof fn lemma_trig_unit(k: int)
    ensures
        -11006 <= cos_steps(k) * cos_steps(k) + sin_steps(k) * sin_steps(k) - 16384 * 16384 <= 6213,
        k % 4 == 0 ==> cos_steps(k) * cos_steps(k) + sin_steps(k) * sin_steps(k) == 16384 * 16384,
{
    let m = k % 16;
    assert(m == 0 || m == 1 || m == 2 || m == 3 || m == 4 || m == 5 || m == 6 || m == 7 || m == 8
        || m == 9 || m == 10 || m == 11 || m == 12 || m == 13 || m == 14 || m == 15);
    assert((k + 12) % 16 == (m + 12) % 16);
}

/// A turned pair is at most the sum of the magnitudes, plus rounding.
pub proof fn lemma_rotate_pair_range(a: int, b: int, k: int, limit: int)
    requires
        -limit <= a <= limit,
        -limit <= b <= limit,
    ensures
        -(2 * limit) - 1 <= rotate_pair(a, b, k).0 <= 2 * limit + 1,
        -(2 * limit) - 1 <= rotate_pair(a, b, k).1 <= 2 * limit + 1,
{
    lemma_trig_range(k);
    lemma_product_range(a, cos_steps(k), limit, 16384);
    lemma_product_range(b, sin_steps(k), limit, 16384);
    lemma_product_range(a, sin_steps(k), limit, 16384);
    lemma_product_range(b, cos_steps(k), limit, 16384);
}

/// Cosine of `k` steps, scaled by `TRIG_ONE`.
pub fn cos_of(k: u8) -> (c: i64)
    ensures
        c == cos_steps(k as int),
        -16384 <= c <= 16384,
{
    let m: u8 = k % 16;
    if m == 0 {
        16384
    } else if m == 1 || m == 15 {
        15137
    } else if m == 2 || m == 14 {
        11585
    } else if m == 3 || m == 13 {
        6270
    } else if m == 4 || m == 12 {
        0
    } else if m == 5 || m == 11 {
        -6270
    } else if m == 6 || m == 10 {
        -11585
    } else if m == 7 || m == 9 {
        -15137
    } else {
        -16384
    }
}

/// Sine of `k` steps, scaled by `TRIG_ONE`.
pub fn sin_of(k: u8) -> (s: i64)
    ensures
        s == sin_steps(k as int),
        -16384 <= s <= 16384,
{
    let shifted: u8 = (k % 16) + 12;
    cos_of(shifted)
}

/// `n / TRIG_ONE`, rounded to the nearest integer, halves upwards.
fn scale_down_exec(n: i64) -> (r: i64)
    requires
        -0x4000_0000_0000_0000 < n < 0x4000_0000_0000_0000,
    ensures
        r == scale_down(n as int),
{
    let m: i64 = n + 8192;
    if m >= 0 {
        m / 16384
    } else {
        let q: i64 = (-m) / 16384;
        let rem: i64 = (-m) % 16384;
        if rem == 0 {
            -q
        } else {
            -q - 1
        }
    }
}

/// Turns the pair `(a, b)` counter-clockwise by `k` steps.
fn rotate_pair_exec(a: i64, b: i64, k: u8) -> (r: (i64, i64))
    requires
        -2 * COORD_LIMIT <= a <= 2 * COORD_LIMIT,
        -2 * COORD_LIMIT <= b <= 2 * COORD_LIMIT,
    ensures
        (r.0 as int, r.1 as int) == rotate_pair(a as int, b as int, k as int),
{
    let c = cos_of(k);
    let s = sin_of(k);
    proof {
        lemma_product_range(a as int, c as int, 2 * COORD_LIMIT, 16384);
        lemma_product_range(b as int, s as int, 2 * COORD_LIMIT, 16384);
        lemma_product_range(a as int, s as int, 2 * COORD_LIMIT, 16384);
        lemma_product_range(b as int, c as int, 2 * COORD_LIMIT, 16384);
    }
    let first = scale_down_exec(a * c - b * s);
    let second = scale_down_exec(a * s + b * c);
    (first, second)
}

/// Turns `vert` by `rot` about `orig`.
pub fn rot_vert_with_orig(rot: Rotation, orig: Point, vert: Point) -> (r: Point)
    requires
        within(orig@, COORD_LIMIT as int),
        within(vert@, COORD_LIMIT as int),
    ensures
        r@ == rotate_about(rot, orig@, vert@),
{
    let dx = vert.x - orig.x;
    let dy = vert.y - orig.y;
    let dz = vert.z - orig.z;
    proof {
        lemma_rotate_pair_range(dy as int, dz as int, rot.steps as int, 2 * COORD_LIMIT);
        lemma_rotate_pair_range(dz as int, dx as int, rot.steps as int, 2 * COORD_LIMIT);
        lemma_rotate_pair_range(dx as int, dy as int, rot.steps as int, 2 * COORD_LIMIT);
    }
    match rot.axis {
        Axis::X => {
            let (y, z) = rotate_pair_exec(dy, dz, rot.steps);
            Point { x: dx + orig.x, y: y + orig.y, z: z + orig.z }
        },
        Axis::Y => {
            let (z, x) = rotate_pair_exec(dz, dx, rot.steps);
            Point { x: x + orig.x, y: dy + orig.y, z: z + orig.z }
        },
        Axis::Z => {
            let (x, y) = rotate_pair_exec(dx, dy, rot.steps);
            Point { x: x + orig.x, y: y + orig.y, z: dz + orig.z }
        },
    }
}

/// A rotation moves a point at most five times as far from zero as the
/// farther of the point and the centre, plus rounding.
pub proof fn lemma_rotate_about_range(
    rot: Rotation,
    orig: (int, int, int),
    vert: (int, int, int),
    limit: int,
)
    requires
        within(orig, limit),
        within(vert, limit),
    ensures
        within(rotate_about(rot, orig, vert), 5 * limit + 1),
{
    let k = rot.steps as int;
    lemma_rotate_pair_range(vert.1 - orig.1, vert.2 - orig.2, k, 2 * limit);
    lemma_rotate_pair_range(vert.2 - orig.2, vert.0 - orig.0, k, 2 * limit);
    lemma_rotate_pair_range(vert.0 - orig.0, vert.1 - orig.1, k, 2 * limit);
}

/// A quarter turn, a half turn and no turn move a pair exactly.
pub proof fn lemma_quarter_turns_exact(a: int, b: int)
    ensures
        rotate_pair(a, b, 0) == (a, b),
        rotate_pair(a, b, 4) == (-b, a),
        rotate_pair(a, b, 8) == (-a, -b),
        rotate_pair(a, b, 12) == (b, -a),
{
}

/// A quarter turn about the vertical axis takes the offset `(dx, dy, dz)`
/// from the centre to `(dz, dy, -dx)`.
pub proof fn lemma_quarter_turn_about_y(orig: (int, int, int), vert: (int, int, int))
    ensures
        rotate_about(Rotation { axis: Axis::Y, steps: 4 }, orig, vert) == (
            orig.0 + (vert.2 - orig.2),
            vert.1,
            orig.2 - (vert.0 - orig.0),
        ),
{
    lemma_quarter_turns_exact(vert.2 - orig.2, vert.0 - orig.0);
}

/// Turning by no steps leaves every point where it is.
pub proof fn lemma_no_turn(axis: Axis, orig: (int, int, int), vert: (int, int, int))
    ensures
        rotate_about(Rotation { axis, steps: 0 }, orig, vert) == vert,
{
    lemma_quarter_turns_exact(vert.1 - orig.1, vert.2 - orig.2);
    lemma_quarter_turns_exact(vert.2 - orig.2, vert.0 - orig.0);
    lemma_quarter_turns_exact(vert.0 - orig.0, vert.1 - orig.1);
}

} // verus!
