//! Bresenham line rasterization: the pixel sequence between two endpoints,
//! the proofs that it has the documented shape in every octant, and the
//! drawing routine that paints it.

use vstd::prelude::*;

use crate::color::{Color, FbError};
use crate::screen::{fatal_format, paint_pixel, FbInfo, Screen};

verus! {

/// Absolute value.
pub open spec fn abs_val(a: int) -> int {
    if a < 0 {
        -a
    } else {
        a
    }
}

/// A working-frame point mapped back to screen coordinates: when `steep`,
/// the roles of the axes were swapped for the walk.
pub open spec fn emit(steep: bool, a: int, b: int) -> (int, int) {
    if steep {
        (b, a)
    } else {
        (a, b)
    }
}

/// The dominant-axis coordinate of an emitted point.
pub open spec fn major_of(p: (int, int), steep: bool) -> int {
    if steep {
        p.1
    } else {
        p.0
    }
}

/// The minor-axis coordinate of an emitted point.
pub open spec fn minor_of(p: (int, int), steep: bool) -> int {
    if steep {
        p.0
    } else {
        p.1
    }
}

/// One Bresenham walk step at a time: emit the pixel for column `a`, then
/// subtract `dy` from the error term and, when it goes negative, advance the
/// minor axis by `ystep` and add `dx` back.
pub open spec fn bres_rec(
    a: int,
    a_end: int,
    b: int,
    dy: int,
    ystep: int,
    dx: int,
    error: int,
    steep: bool,
) -> Seq<(int, int)>
    decreases a_end - a + 1,
{
    if a > a_end {
        Seq::empty()
    } else {
        let e2 = error - dy;
        let tail = if e2 < 0 {
            bres_rec(a + 1, a_end, b + ystep, dy, ystep, dx, e2 + dx, steep)
        } else {
            bres_rec(a + 1, a_end, b, dy, ystep, dx, e2, steep)
        };
        seq![emit(steep, a, b)] + tail
    }
}

/// The ordered pixel sequence of the line from `(x1, y1)` to `(x2, y2)`:
/// walk the axis with the larger span (swapping axis roles when the line is
/// steep), from the endpoint with the smaller dominant coordinate, with the
/// error term seeded at `dx / 2`.
pub open spec fn line_points(x1: int, y1: int, x2: int, y2: int) -> Seq<(int, int)> {
    let steep = abs_val(y2 - y1) > abs_val(x2 - x1);
    let a1 = if steep { y1 } else { x1 };
    let b1 = if steep { x1 } else { y1 };
    let a2 = if steep { y2 } else { x2 };
    let b2 = if steep { x2 } else { y2 };
    let a0 = if a1 <= a2 { a1 } else { a2 };
    let b0 = if a1 <= a2 { b1 } else { b2 };
    let a3 = if a1 <= a2 { a2 } else { a1 };
    let b3 = if a1 <= a2 { b2 } else { b1 };
    let dx = a3 - a0;
    let dy = abs_val(b3 - b0);
    let ystep: int = if b0 < b3 { 1 } else { -1 };
    bres_rec(a0, a3, b0, dy, ystep, dx, dx / 2, steep)
}

/// The buffer after painting every point of `pts` in order.
pub open spec fn paint_points(bytes: Seq<u8>, info: FbInfo, pts: Seq<(int, int)>, c: Color) -> Seq<
    u8,
>
    decreases pts.len(),
{
    if pts.len() == 0 {
        bytes
    } else {
        paint_points(paint_pixel(bytes, info, pts[0].0, pts[0].1, c), info, pts.drop_first(), c)
    }
}

/// The Bresenham walk's shape, by induction over the walk. From a state
/// whose error term satisfies the walk invariant, the emitted points cover
/// the dominant coordinates `a ..= a_end` one each; the minor coordinate
/// starts at `b`, moves only in direction `ystep` and only by single steps,
/// never leaves the band between `b0` and `b0 + ystep*dy`, and lands exactly
/// on `b0 + ystep*dy` at the last point.
pub proof fn lemma_bres(
    a0: int,
    b0: int,
    a: int,
    a_end: int,
    b: int,
    dy: int,
    ystep: int,
    dx: int,
    error: int,
    steep: bool,
)
    requires
        a0 <= a <= a_end,
        a_end == a0 + dx,
        0 <= dy <= dx,
        ystep == 1 || ystep == -1,
        (b - b0) * ystep >= 0,
        error == dx / 2 - (a - a0) * dy + (b - b0) * ystep * dx,
        0 <= error,
        dx > 0 ==> error < dx,
        dx == 0 ==> b == b0,
    ensures
        ({
            let s = bres_rec(a, a_end, b, dy, ystep, dx, error, steep);
            &&& s.len() == a_end - a + 1
            &&& forall|i: int| 0 <= i < s.len() ==> major_of(#[trigger] s[i], steep) == a + i
            &&& forall|i: int|
                0 <= i < s.len() ==> (minor_of(#[trigger] s[i], steep) - b) * ystep >= 0
            &&& forall|i: int|
                0 <= i < s.len() ==> ((b0 + ystep * dy) - minor_of(#[trigger] s[i], steep)) * ystep
                    >= 0
            &&& s[0] == emit(steep, a, b)
            &&& minor_of(s[s.len() - 1], steep) == b0 + ystep * dy
            &&& forall|i: int|
                0 <= i < s.len() - 1 ==> {
                    let step = (minor_of(s[i + 1], steep) - minor_of(#[trigger] s[i], steep))
                        * ystep;
                    step == 0 || step == 1
                }
        }),
    decreases a_end - a,
{
    reveal_with_fuel(bres_rec, 2);
    let s = bres_rec(a, a_end, b, dy, ystep, dx, error, steep);
    let target = b0 + ystep * dy;
    let adv = (b - b0) * ystep;
    // The walk invariant bounds the advance count by dy.
    if dx > 0 {
        assert((a - a0) * dy <= dx * dy) by (nonlinear_arith)
            requires
                a - a0 <= dx,
                0 <= dy,
        ;
        assert(adv * dx < dx * dy + dx);
        assert(adv <= dy) by (nonlinear_arith)
            requires
                adv * dx < dx * dy + dx,
                dx > 0,
        ;
    } else {
        assert(adv == 0) by (nonlinear_arith)
            requires
                adv == (b - b0) * ystep,
                b == b0,
        ;
    }
    assert((target - b) * ystep == dy - adv) by (nonlinear_arith)
        requires
            ystep == 1 || ystep == -1,
            target == b0 + ystep * dy,
            adv == (b - b0) * ystep,
    ;
    if a == a_end {
        // Last point: the error bounds pin the advance count to exactly dy.
        if dx > 0 {
            assert(error == dx / 2 - dx * dy + adv * dx) by (nonlinear_arith)
                requires
                    error == dx / 2 - (a - a0) * dy + adv * dx,
                    a - a0 == dx,
            ;
            assert(0 <= dx / 2 < dx) by (nonlinear_arith)
                requires
                    dx > 0,
            ;
            if adv <= dy - 1 {
                assert(adv * dx <= dx * dy - dx) by (nonlinear_arith)
                    requires
                        adv <= dy - 1,
                        dx > 0,
                ;
                assert(error < 0);
            }
            assert(adv >= dy);
            assert(adv == dy);
        } else {
            assert(dy == 0 && adv == 0);
        }
        assert(b == target) by (nonlinear_arith)
            requires
                (target - b) * ystep == dy - adv,
                adv == dy,
                ystep == 1 || ystep == -1,
        ;
        assert(s.len() == 1);
        assert(s[0] == emit(steep, a, b));
        assert(minor_of(s[0], steep) == b);
        assert(major_of(s[0], steep) == a);
    } else {
        let e2 = error - dy;
        let head = emit(steep, a, b);
        let bn: int = if e2 < 0 {
            b + ystep
        } else {
            b
        };
        let en: int = if e2 < 0 {
            e2 + dx
        } else {
            e2
        };
        let t = bres_rec(a + 1, a_end, bn, dy, ystep, dx, en, steep);
        assert(s == seq![head] + t);
        if e2 < 0 {
            // dy > error >= 0, so dy >= 1 and the minor axis advances.
            assert((bn - b0) * ystep == adv + 1) by (nonlinear_arith)
                requires
                    bn == b + ystep,
                    adv == (b - b0) * ystep,
                    ystep == 1 || ystep == -1,
            ;
            assert(en == dx / 2 - (a + 1 - a0) * dy + (bn - b0) * ystep * dx) by (nonlinear_arith)
                requires
                    en == error + dx - dy,
                    error == dx / 2 - (a - a0) * dy + (b - b0) * ystep * dx,
                    (bn - b0) * ystep == (b - b0) * ystep + 1,
            ;
            assert(0 <= en && en < dx);
            assert(dx > 0);
        } else {
            assert(en == dx / 2 - (a + 1 - a0) * dy + (bn - b0) * ystep * dx) by (nonlinear_arith)
                requires
                    en == error - dy,
                    bn == b,
                    error == dx / 2 - (a - a0) * dy + (b - b0) * ystep * dx,
            ;
            if dx == 0 {
                assert(a_end == a0 && a >= a0);
                assert(false);
            }
            assert(dx > 0 && en < dx && 0 <= en);
        }
        lemma_bres(a0, b0, a + 1, a_end, bn, dy, ystep, dx, en, steep);
        assert(t.len() == a_end - a);
        assert(s.len() == a_end - a + 1);
        assert(forall|i: int| 1 <= i < s.len() ==> s[i] == t[i - 1]);
        assert(s[0] == head);
        // Lift each shape fact from the tail to the whole walk.
        assert forall|i: int| 0 <= i < s.len() implies major_of(#[trigger] s[i], steep) == a
            + i by {
            if i > 0 {
                assert(s[i] == t[i - 1]);
                assert(major_of(t[i - 1], steep) == a + 1 + (i - 1));
            }
        }
        assert forall|i: int| 0 <= i < s.len() implies (minor_of(#[trigger] s[i], steep) - b)
            * ystep >= 0 by {
            if i > 0 {
                assert((minor_of(t[i - 1], steep) - bn) * ystep >= 0);
                assert((minor_of(s[i], steep) - b) * ystep >= 0) by (nonlinear_arith)
                    requires
                        (minor_of(s[i], steep) - bn) * ystep >= 0,
                        bn == b || bn == b + ystep,
                        ystep == 1 || ystep == -1,
                ;
            } else {
                assert(minor_of(s[0], steep) == b);
            }
        }
        assert forall|i: int| 0 <= i < s.len() implies (target - minor_of(#[trigger] s[i], steep))
            * ystep >= 0 by {
            if i > 0 {
                assert((target - minor_of(t[i - 1], steep)) * ystep >= 0);
            } else {
                assert(minor_of(s[0], steep) == b);
                assert((target - b) * ystep == dy - adv);
            }
        }
        assert(s[s.len() - 1] == t[t.len() - 1]);
        assert(minor_of(s[s.len() - 1], steep) == target);
        assert forall|i: int| 0 <= i < s.len() - 1 implies {
            let step = (minor_of(s[i + 1], steep) - minor_of(#[trigger] s[i], steep)) * ystep;
            step == 0 || step == 1
        } by {
            if i == 0 {
                assert(minor_of(s[0], steep) == b);
                assert(s[1] == t[0]);
                assert(minor_of(t[0], steep) == bn);
                assert({
                    let step = (bn - b) * ystep;
                    step == 0 || step == 1
                }) by (nonlinear_arith)
                    requires
                        bn == b || bn == b + ystep,
                        ystep == 1 || ystep == -1,
                ;
            } else {
                assert(s[i] == t[i - 1] && s[i + 1] == t[i]);
                assert({
                    let step = (minor_of(t[i], steep) - minor_of(t[i - 1], steep)) * ystep;
                    step == 0 || step == 1
                });
            }
        }
    }
}

/// On a pure diagonal (`dy == dx`), the error term is a fixed point of the
/// walk update, so the minor axis advances at every step.
pub proof fn lemma_bres_diag(
    a: int,
    a_end: int,
    b: int,
    ystep: int,
    d: int,
    error: int,
    steep: bool,
)
    requires
        a <= a_end,
        0 <= d,
        0 <= error,
        d > 0 ==> error < d,
        d == 0 ==> a == a_end,
    ensures
        ({
            let s = bres_rec(a, a_end, b, d, ystep, d, error, steep);
            &&& s.len() == a_end - a + 1
            &&& forall|i: int|
                0 <= i < s.len() ==> #[trigger] s[i] == emit(steep, a + i, b + i * ystep)
        }),
    decreases a_end - a,
{
    reveal_with_fuel(bres_rec, 2);
    let s = bres_rec(a, a_end, b, d, ystep, d, error, steep);
    if a == a_end {
        assert(s.len() == 1);
        assert(s[0] == emit(steep, a, b));
        assert(b + 0 * ystep == b) by (nonlinear_arith);
    } else {
        assert(d > 0);
        assert(error - d < 0);
        lemma_bres_diag(a + 1, a_end, b + ystep, ystep, d, error, steep);
        let t = bres_rec(a + 1, a_end, b + ystep, d, ystep, d, error, steep);
        assert(s == seq![emit(steep, a, b)] + t);
        assert forall|i: int| 0 <= i < s.len() implies #[trigger] s[i] == emit(
            steep,
            a + i,
            b + i * ystep,
        ) by {
            if i == 0 {
                assert(b + 0 * ystep == b) by (nonlinear_arith);
            } else {
                assert(s[i] == t[i - 1]);
                assert(t[i - 1] == emit(steep, a + 1 + (i - 1), (b + ystep) + (i - 1) * ystep));
                assert((b + ystep) + (i - 1) * ystep == b + i * ystep) by (nonlinear_arith);
            }
        }
    }
}

/// A degenerate line is a single pixel at its endpoint.
pub proof fn lemma_line_single(x: int, y: int)
    ensures
        line_points(x, y, x, y) == seq![(x, y)],
{
    reveal_with_fuel(bres_rec, 2);
    assert(line_points(x, y, x, y) =~= seq![(x, y)]);
}

/// The lower-`x` endpoint of a diagonal, where its walk starts.
pub open spec fn diag_start(x1: int, y1: int, x2: int, y2: int) -> (int, int) {
    if x1 <= x2 {
        (x1, y1)
    } else {
        (x2, y2)
    }
}

/// The per-step change of `y` along a diagonal, walking from
/// [`diag_start`] towards the other endpoint.
pub open spec fn diag_ystep(x1: int, y1: int, x2: int, y2: int) -> int {
    let ys = diag_start(x1, y1, x2, y2).1;
    let yd = if x1 <= x2 {
        y2
    } else {
        y1
    };
    if ys < yd {
        1
    } else {
        -1
    }
}

/// On a pure diagonal the rasterized line is exactly the pixel diagonal
/// between the endpoints: `|x2 - x1| + 1` pairwise distinct pixels, each one
/// step further on both axes.
pub proof fn lemma_line_diagonal(x1: int, y1: int, x2: int, y2: int)
    requires
        abs_val(x2 - x1) == abs_val(y2 - y1),
    ensures
        ({
            let s = line_points(x1, y1, x2, y2);
            let n = abs_val(x2 - x1);
            let start = diag_start(x1, y1, x2, y2);
            let sy = diag_ystep(x1, y1, x2, y2);
            &&& s.len() == n + 1
            &&& forall|i: int|
                0 <= i <= n ==> #[trigger] s[i] == (start.0 + i, start.1 + i * sy)
            &&& forall|i: int, j: int| 0 <= i < j <= n ==> s[i] != s[j]
        }),
{
    let s = line_points(x1, y1, x2, y2);
    let n = abs_val(x2 - x1);
    let start = diag_start(x1, y1, x2, y2);
    let sy = diag_ystep(x1, y1, x2, y2);
    if n > 0 {
        vstd::arithmetic::div_mod::lemma_div_pos_is_pos(n, 2);
        vstd::arithmetic::div_mod::lemma_div_decreases(n, 2);
    }
    lemma_bres_diag(start.0, start.0 + n, start.1, sy, n, n / 2, false);
    assert(s =~= bres_rec(start.0, start.0 + n, start.1, n, sy, n, n / 2, false));
    assert forall|i: int| 0 <= i <= n implies #[trigger] s[i] == (start.0 + i, start.1 + i
        * sy) by {
        assert(s[i] == emit(false, start.0 + i, start.1 + i * sy));
    }
    assert forall|i: int, j: int| 0 <= i < j <= n implies s[i] != s[j] by {
        assert(s[i].0 == start.0 + i && s[j].0 == start.0 + j);
    }
}

/// Whether `p` lies in the closed bounding box of the two endpoints.
pub open spec fn in_box(p: (int, int), x1: int, y1: int, x2: int, y2: int) -> bool {
    &&& if x1 <= x2 {
        x1 <= p.0 <= x2
    } else {
        x2 <= p.0 <= x1
    }
    &&& if y1 <= y2 {
        y1 <= p.1 <= y2
    } else {
        y2 <= p.1 <= y1
    }
}

/// The rasterized line's shape in every octant, horizontal and vertical
/// runs and single points included: one pixel per step of the dominant
/// axis, the two endpoints first and last, neighbouring pixels one apart,
/// all pixels distinct and inside the endpoints' bounding box.
pub proof fn lemma_line_shape(x1: int, y1: int, x2: int, y2: int)
    ensures
        ({
            let s = line_points(x1, y1, x2, y2);
            let n = if abs_val(x2 - x1) >= abs_val(y2 - y1) {
                abs_val(x2 - x1)
            } else {
                abs_val(y2 - y1)
            };
            &&& s.len() == n + 1
            &&& (s[0] == (x1, y1) && s[n] == (x2, y2)) || (s[0] == (x2, y2) && s[n] == (x1, y1))
            &&& forall|i: int|
                0 <= i < n ==> abs_val(s[i + 1].0 - (#[trigger] s[i]).0) <= 1 && abs_val(
                    s[i + 1].1 - s[i].1,
                ) <= 1 && s[i + 1] != s[i]
            &&& forall|i: int, j: int| 0 <= i < j <= n ==> s[i] != s[j]
            &&& forall|i: int| 0 <= i <= n ==> in_box(#[trigger] s[i], x1, y1, x2, y2)
        }),
{
    let s = line_points(x1, y1, x2, y2);
    let steep = abs_val(y2 - y1) > abs_val(x2 - x1);
    let a1 = if steep { y1 } else { x1 };
    let b1 = if steep { x1 } else { y1 };
    let a2 = if steep { y2 } else { x2 };
    let b2 = if steep { x2 } else { y2 };
    let a0 = if a1 <= a2 { a1 } else { a2 };
    let b0 = if a1 <= a2 { b1 } else { b2 };
    let a3 = if a1 <= a2 { a2 } else { a1 };
    let b3 = if a1 <= a2 { b2 } else { b1 };
    let dx = a3 - a0;
    let dy = abs_val(b3 - b0);
    let ystep: int = if b0 < b3 { 1 } else { -1 };
    let n = if abs_val(x2 - x1) >= abs_val(y2 - y1) {
        abs_val(x2 - x1)
    } else {
        abs_val(y2 - y1)
    };
    assert(n == dx);
    if dx > 0 {
        vstd::arithmetic::div_mod::lemma_div_pos_is_pos(dx, 2);
        vstd::arithmetic::div_mod::lemma_div_decreases(dx, 2);
    }
    assert((b0 - b0) * ystep == 0) by (nonlinear_arith);
    assert((a0 - a0) * dy == 0) by (nonlinear_arith);
    assert(dx / 2 == dx / 2 - (a0 - a0) * dy + (b0 - b0) * ystep * dx) by (nonlinear_arith);
    lemma_bres(a0, b0, a0, a3, b0, dy, ystep, dx, dx / 2, steep);
    assert(s == bres_rec(a0, a3, b0, dy, ystep, dx, dx / 2, steep));
    let target = b0 + ystep * dy;
    assert(target == b3) by (nonlinear_arith)
        requires
            target == b0 + ystep * dy,
            dy == abs_val(b3 - b0),
            ystep == (if b0 < b3 {
                1int
            } else {
                -1int
            }),
    ;
    // Endpoints: the walk starts at (a0, b0) and ends at (a3, b3); undoing
    // the axis swap gives back the two original endpoints.
    assert(s[0] == emit(steep, a0, b0));
    assert(major_of(s[n], steep) == a3 && minor_of(s[n], steep) == b3);
    assert(s[n] == emit(steep, a3, b3)) by {
        if steep {
            assert(s[n].1 == a3 && s[n].0 == b3);
        } else {
            assert(s[n].0 == a3 && s[n].1 == b3);
        }
    }
    assert((s[0] == (x1, y1) && s[n] == (x2, y2)) || (s[0] == (x2, y2) && s[n] == (x1, y1)));
    // Neighbouring pixels: the dominant axis moves by one, the minor axis by
    // zero or one.
    assert forall|i: int|
        0 <= i < n implies abs_val(s[i + 1].0 - (#[trigger] s[i]).0) <= 1 && abs_val(
        s[i + 1].1 - s[i].1,
    ) <= 1 && s[i + 1] != s[i] by {
        assert(major_of(s[i + 1], steep) == a0 + i + 1 && major_of(s[i], steep) == a0 + i);
        let step = (minor_of(s[i + 1], steep) - minor_of(s[i], steep)) * ystep;
        assert(step == 0 || step == 1);
        assert(abs_val(minor_of(s[i + 1], steep) - minor_of(s[i], steep)) <= 1) by (nonlinear_arith)
            requires
                step == (minor_of(s[i + 1], steep) - minor_of(s[i], steep)) * ystep,
                step == 0 || step == 1,
                ystep == 1 || ystep == -1,
        ;
    }
    // Distinctness: the dominant coordinates are pairwise distinct.
    assert forall|i: int, j: int| 0 <= i < j <= n implies s[i] != s[j] by {
        assert(major_of(s[i], steep) == a0 + i && major_of(s[j], steep) == a0 + j);
    }
    // Bounding box: the dominant axis walks from a0 to a3, and the minor
    // axis stays in the band between b0 and b3.
    assert forall|i: int| 0 <= i <= n implies in_box(#[trigger] s[i], x1, y1, x2, y2) by {
        assert(major_of(s[i], steep) == a0 + i);
        let m = minor_of(s[i], steep);
        assert((m - b0) * ystep >= 0 && (target - m) * ystep >= 0);
        assert(b0 <= b3 ==> b0 <= m <= b3) by (nonlinear_arith)
            requires
                (m - b0) * ystep >= 0,
                (b3 - m) * ystep >= 0,
                ystep == 1 || ystep == -1,
                b0 < b3 ==> ystep == 1,
        ;
        assert(b3 < b0 ==> b3 <= m <= b0) by (nonlinear_arith)
            requires
                (m - b0) * ystep >= 0,
                (b3 - m) * ystep >= 0,
                ystep == 1 || ystep == -1,
                b0 < b3 ==> ystep == 1,
        ;
    }
}

impl Screen {
    /// Rasterizes the line from `(x1, y1)` to `(x2, y2)` with integer
    /// Bresenham stepping and paints its pixels in walk order; pixels
    /// outside the buffer clip silently. With an unsupported stored format
    /// it downgrades the format to `Rgb` and reports the fault without
    /// painting.
    #[verifier::loop_isolation(false)]
    #[verifier::rlimit(100)]
    pub fn draw_line(&mut self, x1: i32, y1: i32, x2: i32, y2: i32, color: Color) -> (r: Result<
        (),
        FbError,
    >)
        requires
            old(self)@.wf(),
        ensures
            final(self)@.wf(),
            final(self)@.bg == old(self)@.bg,
            old(self)@.info.pixel_format.is_supported() ==> {
                &&& r is Ok
                &&& final(self)@.info == old(self)@.info
                &&& final(self)@.bytes == paint_points(
                    old(self)@.bytes,
                    old(self)@.info,
                    line_points(x1 as int, y1 as int, x2 as int, y2 as int),
                    color,
                )
            },
            !old(self)@.info.pixel_format.is_supported() ==> r == Result::<(), FbError>::Err(
                FbError::UnsupportedFormat,
            ) && final(self)@ == fatal_format(old(self)@),
    {
        match self.check_format() {
            Err(e) => {
                return Err(e);
            },
            Ok(_) => {},
        }
        let ghost info0 = self@.info;
        let ghost bg0 = self@.bg;
        let ghost goal = paint_points(
            self@.bytes,
            info0,
            line_points(x1 as int, y1 as int, x2 as int, y2 as int),
            color,
        );
        let adx: i64 = if x2 as i64 >= x1 as i64 {
            x2 as i64 - x1 as i64
        } else {
            x1 as i64 - x2 as i64
        };
        let ady: i64 = if y2 as i64 >= y1 as i64 {
            y2 as i64 - y1 as i64
        } else {
            y1 as i64 - y2 as i64
        };
        let steep = ady > adx;
        let (a1, b1, a2, b2): (i64, i64, i64, i64) = if steep {
            (y1 as i64, x1 as i64, y2 as i64, x2 as i64)
        } else {
            (x1 as i64, y1 as i64, x2 as i64, y2 as i64)
        };
        let (a0, b0, a3, b3): (i64, i64, i64, i64) = if a1 <= a2 {
            (a1, b1, a2, b2)
        } else {
            (a2, b2, a1, b1)
        };
        let dx = a3 - a0;
        let dy: i64 = if b3 >= b0 {
            b3 - b0
        } else {
            b0 - b3
        };
        let ystep: i64 = if b0 < b3 {
            1
        } else {
            -1
        };
        let mut err: i64 = ((dx as u64) / 2) as i64;
        assert(err == (dx as int) / 2);
        assert(0 <= dy <= dx);
        assert(line_points(x1 as int, y1 as int, x2 as int, y2 as int) == bres_rec(
            a0 as int,
            a3 as int,
            b0 as int,
            dy as int,
            ystep as int,
            dx as int,
            err as int,
            steep,
        ));
        let mut a = a0;
        let mut b = b0;
        while a <= a3
            invariant
                self@.wf(),
                self@.info == info0,
                self@.bg == bg0,
                a0 <= a <= a3 + 1,
                -dx <= err <= dx,
                b0 - (a - a0) <= b <= b0 + (a - a0),
                paint_points(
                    self@.bytes,
                    info0,
                    bres_rec(
                        a as int,
                        a3 as int,
                        b as int,
                        dy as int,
                        ystep as int,
                        dx as int,
                        err as int,
                        steep,
                    ),
                    color,
                ) == goal,
            decreases a3 + 1 - a,
        {
            let ghost s_cur = bres_rec(
                a as int,
                a3 as int,
                b as int,
                dy as int,
                ystep as int,
                dx as int,
                err as int,
                steep,
            );
            let px: i64 = if steep {
                b
            } else {
                a
            };
            let py: i64 = if steep {
                a
            } else {
                b
            };
            proof {
                reveal_with_fuel(bres_rec, 1);
                assert(s_cur[0] == emit(steep, a as int, b as int));
                assert(s_cur[0] == (px as int, py as int));
                assert(s_cur.drop_first() =~= bres_rec(
                    a as int + 1,
                    a3 as int,
                    if (err as int) - (dy as int) < 0 {
                        b as int + ystep as int
                    } else {
                        b as int
                    },
                    dy as int,
                    ystep as int,
                    dx as int,
                    if (err as int) - (dy as int) < 0 {
                        err as int - dy as int + dx as int
                    } else {
                        err as int - dy as int
                    },
                    steep,
                ));
            }
            if 0 <= px && 0 <= py && (px as u64) <= (usize::MAX as u64) && (py as u64) <= (
            usize::MAX as u64) {
                let _ = self.draw_pixel(px as usize, py as usize, color);
            } else {
                proof {
                    assert(paint_pixel(self@.bytes, info0, px as int, py as int, color)
                        == self@.bytes);
                }
            }
            err = err - dy;
            if err < 0 {
                b = b + ystep;
                err = err + dx;
            }
            a = a + 1;
        }
        proof {
            reveal_with_fuel(bres_rec, 1);
            assert(bres_rec(
                a as int,
                a3 as int,
                b as int,
                dy as int,
                ystep as int,
                dx as int,
                err as int,
                steep,
            ).len() == 0);
        }
        Ok(())
    }
}

} // verus!
