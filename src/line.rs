//! Bresenham rasterization of a pointer drag into the pixels it sweeps over.
use vstd::prelude::*;

verus! {

/// A pixel position.
#[derive(Debug, Clone, Copy, PartialEq, Eq, Structural)]
pub struct Point {
    pub x: i32,
    pub y: i32,
}

pub open spec fn abs(v: int) -> int {
    if v < 0 {
        -v
    } else {
        v
    }
}

pub open spec fn sign(v: int) -> int {
    if v < 0 {
        -1
    } else {
        1
    }
}

/// How far the minor coordinate has moved after `i` steps along the major axis,
/// on a line that moves `minor` along the minor axis over `major` steps:
/// `i * minor / major`, rounded to the nearest integer with halves rounded down.
pub open spec fn line_offset(i: int, major: int, minor: int) -> int {
    if major <= 0 {
        0
    } else {
        (2 * minor * i + major - 1) / (2 * major)
    }
}

/// The points of a line whose x grows by one at each step (`x0 <= x1`,
/// `|y1 - y0| <= x1 - x0`).
pub open spec fn low_line(x0: int, y0: int, x1: int, y1: int) -> Seq<Point> {
    Seq::new(
        (x1 - x0 + 1) as nat,
        |i: int|
            Point {
                x: (x0 + i) as i32,
                y: (y0 + sign(y1 - y0) * line_offset(i, x1 - x0, abs(y1 - y0))) as i32,
            },
    )
}

/// The points of a line whose y grows by one at each step (`y0 <= y1`,
/// `|x1 - x0| <= y1 - y0`).
pub open spec fn high_line(x0: int, y0: int, x1: int, y1: int) -> Seq<Point> {
    Seq::new(
        (y1 - y0 + 1) as nat,
        |i: int|
            Point {
                x: (x0 + sign(x1 - x0) * line_offset(i, y1 - y0, abs(x1 - x0))) as i32,
                y: (y0 + i) as i32,
            },
    )
}

/// The points of the segment from `(x0, y0)` to `(x1, y1)`, walked along its
/// longer axis from the end with the smaller coordinate on that axis.
pub open spec fn line(x0: int, y0: int, x1: int, y1: int) -> Seq<Point> {
    if abs(y1 - y0) < abs(x1 - x0) {
        if x0 > x1 {
            low_line(x1, y1, x0, y0)
        } else {
            low_line(x0, y0, x1, y1)
        }
    } else {
        if y0 > y1 {
            high_line(x1, y1, x0, y0)
        } else {
            high_line(x0, y0, x1, y1)
        }
    }
}

/// `k` is the minor offset after `i` steps: `2*major*k` is the largest multiple
/// of `2*major` not above `2*minor*i + major - 1`.
pub open spec fn offset_bracket(i: int, major: int, minor: int, k: int) -> bool {
    2 * major * k <= 2 * minor * i + major - 1 < 2 * major * k + 2 * major
}

proof fn lemma_bracket_step(i: int, major: int, minor: int, k: int)
    requires
        major > 0,
        0 <= minor <= major,
        offset_bracket(i, major, minor, k),
    ensures
        2 * minor * (i + 1) - major - 2 * major * k > 0 ==> offset_bracket(
            i + 1,
            major,
            minor,
            k + 1,
        ),
        2 * minor * (i + 1) - major - 2 * major * k <= 0 ==> offset_bracket(
            i + 1,
            major,
            minor,
            k,
        ),
{
    assert(2 * minor * (i + 1) == 2 * minor * i + 2 * minor) by (nonlinear_arith);
    assert(2 * major * (k + 1) == 2 * major * k + 2 * major) by (nonlinear_arith);
}

proof fn lemma_bracket_offset(i: int, major: int, minor: int, k: int)
    requires
        major > 0,
        0 <= minor <= major,
        0 <= i <= major,
        offset_bracket(i, major, minor, k),
    ensures
        k == line_offset(i, major, minor),
        0 <= k <= minor,
{
    assert(k * (2 * major) == 2 * major * k) by (nonlinear_arith);
    vstd::arithmetic::div_mod::lemma_fundamental_div_mod_converse(
        2 * minor * i + major - 1,
        2 * major,
        k,
        2 * minor * i + major - 1 - 2 * major * k,
    );
    assert(0 <= k <= minor) by (nonlinear_arith)
        requires
            major > 0,
            0 <= minor,
            0 <= i <= major,
            2 * major * k <= 2 * minor * i + major - 1,
            2 * minor * i + major - 1 < 2 * major * k + 2 * major,
    ;
}

/// The minor offset is zero at the start and `minor` at the end of the line.
pub proof fn lemma_line_offset_ends(major: int, minor: int)
    requires
        0 <= minor <= major,
    ensures
        line_offset(0, major, minor) == 0,
        line_offset(major, major, minor) == minor,
{
    if major > 0 {
        lemma_bracket_offset(0, major, minor, 0);
        assert(offset_bracket(major, major, minor, minor)) by (nonlinear_arith)
            requires
                major > 0,
        ;
        lemma_bracket_offset(major, major, minor, minor);
    }
}

/// Rasterizes a line along which x grows by one at each step.
fn plot_low(x0: i32, y0: i32, x1: i32, y1: i32) -> (points: Vec<Point>)
    requires
        x0 <= x1,
        abs(y1 - y0) <= x1 - x0,
    ensures
        points@ == low_line(x0 as int, y0 as int, x1 as int, y1 as int),
{
    let dx: i64 = x1 as i64 - x0 as i64;
    let mut dy: i64 = y1 as i64 - y0 as i64;
    let mut yi: i64 = 1;
    if dy < 0 {
        yi = -1;
        dy = -dy;
    }
    let mut d: i64 = (2 * dy) - dx;
    let mut k: i64 = 0;
    let mut points: Vec<Point> = Vec::new();
    let mut i: i64 = 0;
    while i <= dx
        invariant
            dx == x1 - x0,
            dy == abs(y1 - y0),
            yi == sign(y1 - y0),
            0 <= dy <= dx,
            0 <= i <= dx + 1,
            0 <= k <= dy + 1,
            dx > 0 && i <= dx ==> offset_bracket(i as int, dx as int, dy as int, k as int),
            dx == 0 ==> k == 0,
            d == 2 * dy * (i + 1) - dx - 2 * dx * k,
            points@.len() == i,
            forall|j: int|
                0 <= j < i ==> points@[j] == #[trigger] low_line(
                    x0 as int,
                    y0 as int,
                    x1 as int,
                    y1 as int,
                )[j],
        decreases dx + 1 - i,
    {
        proof {
            if dx > 0 {
                lemma_bracket_offset(i as int, dx as int, dy as int, k as int);
                lemma_bracket_step(i as int, dx as int, dy as int, k as int);
            }
            assert(0 <= k <= dy);
        }
        let y: i64 = y0 as i64 + yi * k;
        points.push(Point { x: (x0 as i64 + i) as i32, y: y as i32 });
        proof {
            assert(2 * dx * (k + 1) == 2 * dx * k + 2 * dx) by (nonlinear_arith);
            assert(2 * dy * (i + 2) == 2 * dy * (i + 1) + 2 * dy) by (nonlinear_arith);
            assert(2 * dx * k <= 2 * dx * dy) by (nonlinear_arith)
                requires
                    0 <= k <= dy,
                    dx >= 0,
            ;
        }
        if d > 0 {
            k = k + 1;
            d = d + (2 * (dy - dx));
        } else {
            d = d + 2 * dy;
        }
        i = i + 1;
    }
    assert(points@ =~= low_line(x0 as int, y0 as int, x1 as int, y1 as int));
    points
}

/// Rasterizes a line along which y grows by one at each step.
fn plot_high(x0: i32, y0: i32, x1: i32, y1: i32) -> (points: Vec<Point>)
    requires
        y0 <= y1,
        abs(x1 - x0) <= y1 - y0,
    ensures
        points@ == high_line(x0 as int, y0 as int, x1 as int, y1 as int),
{
    let mut dx: i64 = x1 as i64 - x0 as i64;
    let dy: i64 = y1 as i64 - y0 as i64;
    let mut xi: i64 = 1;
    if dx < 0 {
        xi = -1;
        dx = -dx;
    }
    let mut d: i64 = (2 * dx) - dy;
    let mut k: i64 = 0;
    let mut points: Vec<Point> = Vec::new();
    let mut i: i64 = 0;
    while i <= dy
        invariant
            dy == y1 - y0,
            dx == abs(x1 - x0),
            xi == sign(x1 - x0),
            0 <= dx <= dy,
            0 <= i <= dy + 1,
            0 <= k <= dx + 1,
            dy > 0 && i <= dy ==> offset_bracket(i as int, dy as int, dx as int, k as int),
            dy == 0 ==> k == 0,
            d == 2 * dx * (i + 1) - dy - 2 * dy * k,
            points@.len() == i,
            forall|j: int|
                0 <= j < i ==> points@[j] == #[trigger] high_line(
                    x0 as int,
                    y0 as int,
                    x1 as int,
                    y1 as int,
                )[j],
        decreases dy + 1 - i,
    {
        proof {
            if dy > 0 {
                lemma_bracket_offset(i as int, dy as int, dx as int, k as int);
                lemma_bracket_step(i as int, dy as int, dx as int, k as int);
            }
            assert(0 <= k <= dx);
        }
        let x: i64 = x0 as i64 + xi * k;
        points.push(Point { x: x as i32, y: (y0 as i64 + i) as i32 });
        proof {
            assert(2 * dy * (k + 1) == 2 * dy * k + 2 * dy) by (nonlinear_arith);
            assert(2 * dx * (i + 2) == 2 * dx * (i + 1) + 2 * dx) by (nonlinear_arith);
            assert(2 * dy * k <= 2 * dy * dx) by (nonlinear_arith)
                requires
                    0 <= k <= dx,
                    dy >= 0,
            ;
        }
        if d > 0 {
            k = k + 1;
            d = d + (2 * (dx - dy));
        } else {
            d = d + 2 * dx;
        }
        i = i + 1;
    }
    assert(points@ =~= high_line(x0 as int, y0 as int, x1 as int, y1 as int));
    points
}

/// The pixels of the segment from `(x0, y0)` to `(x1, y1)`, in Bresenham's
/// order: one point per step along the longer axis, both ends included.
pub fn plot_line(x0: i32, y0: i32, x1: i32, y1: i32) -> (points: Vec<Point>)
    ensures
        points@ == line(x0 as int, y0 as int, x1 as int, y1 as int),
        points@.len() == 1 + if abs(y1 - y0) < abs(x1 - x0) {
            abs(x1 - x0)
        } else {
            abs(y1 - y0)
        },
        points@.contains(Point { x: x0, y: y0 }),
        points@.contains(Point { x: x1, y: y1 }),
{
    let points = if abs_diff_lt(y0, y1, x0, x1) {
        if x0 > x1 {
            plot_low(x1, y1, x0, y0)
        } else {
            plot_low(x0, y0, x1, y1)
        }
    } else {
        if y0 > y1 {
            plot_high(x1, y1, x0, y0)
        } else {
            plot_high(x0, y0, x1, y1)
        }
    };
    proof {
        let n = points@.len() - 1;
        if abs(y1 - y0) < abs(x1 - x0) {
            lemma_line_offset_ends(abs(x1 - x0), abs(y1 - y0));
        } else {
            lemma_line_offset_ends(abs(y1 - y0), abs(x1 - x0));
        }
        assert(points@[0] == Point { x: x0, y: y0 } || points@[n] == Point { x: x0, y: y0 });
        assert(points@[0] == Point { x: x1, y: y1 } || points@[n] == Point { x: x1, y: y1 });
    }
    points
}

/// Whether `|b1 - b0| < |a1 - a0|`.
fn abs_diff_lt(b0: i32, b1: i32, a0: i32, a1: i32) -> (r: bool)
    ensures
        r == (abs(b1 - b0) < abs(a1 - a0)),
{
    let db: i64 = b1 as i64 - b0 as i64;
    let da: i64 = a1 as i64 - a0 as i64;
    let db: i64 = if db < 0 { -db } else { db };
    let da: i64 = if da < 0 { -da } else { da };
    db < da
}

} // verus!
