//! Rasterising straight lines for the vector-file preview: the pixels that
//! Bresenham's error-accumulating line algorithm visits between two points,
//! as far as they fall inside the image.

use vstd::prelude::*;

verus! {

/// The distance between two coordinates.
pub open spec fn span(a: int, b: int) -> int {
    if a < b { b - a } else { a - b }
}

/// The coordinate `d` steps from `start` towards `end`.
pub open spec fn toward(start: int, end: int, d: int) -> int {
    if start < end { start + d } else { start - d }
}

/// The larger of two numbers.
pub open spec fn larger(a: int, b: int) -> int {
    if a >= b { a } else { b }
}

/// How far the offsets `(a, b)` are from the ideal line through a box of
/// `dx` by `dy`, scaled: `b * dx - a * dy`.
pub open spec fn deviation(dx: int, dy: int, a: int, b: int) -> int {
    b * dx - a * dy
}

/// One step of the line algorithm on a box of `dx` by `dy`, from the offsets
/// `(a, b)` already walked: with the error term `dx - dy` plus the
/// deviation, the walk advances along x when twice the error exceeds `-dy`,
/// and along y when twice the error is below `dx`.
pub open spec fn line_next(dx: int, dy: int, p: (int, int)) -> (int, int) {
    let e2 = 2 * (dx - dy + deviation(dx, dy, p.0, p.1));
    (if e2 > -dy { p.0 + 1 } else { p.0 }, if e2 < dx { p.1 + 1 } else { p.1 })
}

/// The offsets after `k` steps.
pub open spec fn line_offsets(dx: int, dy: int, k: nat) -> (int, int)
    decreases k,
{
    if k == 0 {
        (0, 0)
    } else {
        line_next(dx, dy, line_offsets(dx, dy, (k - 1) as nat))
    }
}

/// The points of the line from `(x0, y0)` to `(x1, y1)`, in order: one for
/// each step from 0 to the larger of the two distances.
pub open spec fn line_points(x0: int, y0: int, x1: int, y1: int) -> Seq<(int, int)> {
    let dx = span(x0, x1);
    let dy = span(y0, y1);
    Seq::new(
        (larger(dx, dy) + 1) as nat,
        |k: int|
            {
                let o = line_offsets(dx, dy, k as nat);
                (toward(x0, x1, o.0), toward(y0, y1, o.1))
            },
    )
}

/// The points of `ps` inside a `width` by `height` image, in order.
pub open spec fn visible_pixels(ps: Seq<(int, int)>, width: int, height: int) -> Seq<(u32, u32)>
    decreases ps.len(),
{
    if ps.len() == 0 {
        Seq::empty()
    } else {
        let r = visible_pixels(ps.drop_last(), width, height);
        let p = ps.last();
        if 0 <= p.0 < width && 0 <= p.1 < height {
            r.push((p.0 as u32, p.1 as u32))
        } else {
            r
        }
    }
}

/// The walk state that every step keeps: the offsets stay inside the box
/// and within half of the longer side from the ideal line.
pub open spec fn walk_ok(dx: int, dy: int, p: (int, int)) -> bool {
    let m = larger(dx, dy);
    let d2 = 2 * deviation(dx, dy, p.0, p.1);
    &&& 0 <= p.0 <= dx
    &&& 0 <= p.1 <= dy
    &&& -m <= d2 <= m
}

/// At the far x side, and short of the far y side, the deviation is at most
/// `-dx`; at the far y side, short of the far x side, it is at least `dy`.
proof fn lemma_far_sides(dx: int, dy: int, a: int, b: int)
    requires
        0 <= dx,
        0 <= dy,
        0 <= a <= dx,
        0 <= b <= dy,
    ensures
        a == dx && b < dy ==> deviation(dx, dy, a, b) <= -dx,
        b == dy && a < dx ==> deviation(dx, dy, a, b) >= dy,
        dx == dy && b < a ==> deviation(dx, dy, a, b) <= -dx,
        dx == dy && b > a ==> deviation(dx, dy, a, b) >= dx,
{
    assert(a == dx && b < dy ==> b * dx - a * dy <= -dx) by (nonlinear_arith)
        requires
            0 <= dx,
            0 <= b,
    ;
    assert(b == dy && a < dx ==> b * dx - a * dy >= dy) by (nonlinear_arith)
        requires
            0 <= dy,
            0 <= a,
    ;
    assert(dx == dy && b < a ==> b * dx - a * dy <= -dx) by (nonlinear_arith)
        requires
            0 <= dx,
    ;
    assert(dx == dy && b > a ==> b * dx - a * dy >= dx) by (nonlinear_arith)
        requires
            0 <= dx,
    ;
}

/// The deviation after a step changes by `-dy` for a step along x and by
/// `dx` for a step along y.
proof fn lemma_deviation_step(dx: int, dy: int, a: int, b: int, a2: int, b2: int)
    requires
        a2 == a || a2 == a + 1,
        b2 == b || b2 == b + 1,
    ensures
        deviation(dx, dy, a2, b2) == deviation(dx, dy, a, b) - (if a2 == a { 0 } else { dy }) + (if b2
            == b { 0 } else { dx }),
{
    assert((a + 1) * dy == a * dy + dy) by (nonlinear_arith);
    assert((b + 1) * dx == b * dx + dx) by (nonlinear_arith);
}

/// A step from a good walk state that is not at the far corner stays good,
/// makes progress, and always advances along the longer side.
proof fn lemma_step(dx: int, dy: int, p: (int, int))
    requires
        walk_ok(dx, dy, p),
        !(p.0 == dx && p.1 == dy),
    ensures
        walk_ok(dx, dy, line_next(dx, dy, p)),
        dx >= dy ==> line_next(dx, dy, p).0 == p.0 + 1,
        dy >= dx ==> line_next(dx, dy, p).1 == p.1 + 1,
{
    let q = line_next(dx, dy, p);
    lemma_far_sides(dx, dy, p.0, p.1);
    lemma_deviation_step(dx, dy, p.0, p.1, q.0, q.1);
}

/// A good walk state reaches the far corner once its offset along the longer
/// side reaches that side's length.
proof fn lemma_corner(dx: int, dy: int, p: (int, int))
    requires
        walk_ok(dx, dy, p),
        dx >= dy ==> p.0 == dx,
        dy >= dx ==> p.1 == dy,
    ensures
        p.0 == dx && p.1 == dy,
{
    lemma_far_sides(dx, dy, p.0, p.1);
}

/// Every walk state up to the length of the longer side is good, and its
/// offset along the longer side is the number of steps taken.
proof fn lemma_offsets(dx: int, dy: int, k: nat)
    requires
        0 <= dx,
        0 <= dy,
        k <= larger(dx, dy),
    ensures
        walk_ok(dx, dy, line_offsets(dx, dy, k)),
        dx >= dy ==> line_offsets(dx, dy, k).0 == k,
        dy >= dx ==> line_offsets(dx, dy, k).1 == k,
    decreases k,
{
    if k > 0 {
        let prev = line_offsets(dx, dy, (k - 1) as nat);
        lemma_offsets(dx, dy, (k - 1) as nat);
        lemma_step(dx, dy, prev);
    }
}

/// The line from a point to another starts at the first point, ends at the
/// second, takes one point per step along the longer side, moves by at most
/// one pixel along each axis from point to point, and keeps every point
/// within half a pixel of the ideal line, measured along the shorter side
/// (twice the scaled deviation is at most the longer side's length).
pub proof fn law_line_shape(x0: int, y0: int, x1: int, y1: int)
    ensures
        ({
            let ps = line_points(x0, y0, x1, y1);
            let dx = span(x0, x1);
            let dy = span(y0, y1);
            &&& ps.len() == larger(dx, dy) + 1
            &&& ps[0] == (x0, y0)
            &&& ps.last() == (x1, y1)
            &&& forall|k: int|
                0 <= k < ps.len() - 1 ==> span(#[trigger] ps[k].0, ps[k + 1].0) <= 1 && span(ps[k].1, ps[k + 1].1)
                    <= 1
            &&& forall|k: int|
                0 <= k < ps.len() ==> {
                    let o = line_offsets(dx, dy, k as nat);
                    &&& #[trigger] ps[k] == (toward(x0, x1, o.0), toward(y0, y1, o.1))
                    &&& -larger(dx, dy) <= 2 * deviation(dx, dy, o.0, o.1) <= larger(dx, dy)
                }
        }),
{
    let dx = span(x0, x1);
    let dy = span(y0, y1);
    let m = larger(dx, dy);
    let ps = line_points(x0, y0, x1, y1);
    lemma_offsets(dx, dy, m as nat);
    lemma_corner(dx, dy, line_offsets(dx, dy, m as nat));
    assert forall|k: int| 0 <= k < ps.len() - 1 implies span(#[trigger] ps[k].0, ps[k + 1].0) <= 1 && span(
        ps[k].1,
        ps[k + 1].1,
    ) <= 1 by {
        lemma_offsets(dx, dy, k as nat);
        assert(line_offsets(dx, dy, (k + 1) as nat) == line_next(dx, dy, line_offsets(dx, dy, k as nat)));
    }
    assert forall|k: int| 0 <= k < ps.len() implies {
        let o = line_offsets(dx, dy, k as nat);
        &&& #[trigger] ps[k] == (toward(x0, x1, o.0), toward(y0, y1, o.1))
        &&& -larger(dx, dy) <= 2 * deviation(dx, dy, o.0, o.1) <= larger(dx, dy)
    } by {
        lemma_offsets(dx, dy, k as nat);
    }
}

/// The pixels of the line from `(x0, y0)` to `(x1, y1)` that lie inside a
/// `width` by `height` image, in the order the line visits them.
pub fn line_pixels(x0: i32, y0: i32, x1: i32, y1: i32, width: i32, height: i32) -> (r: Vec<(u32, u32)>)
    ensures
        r@ == visible_pixels(line_points(x0 as int, y0 as int, x1 as int, y1 as int), width as int, height as int),
{
    let ghost gx0 = x0 as int;
    let ghost gy0 = y0 as int;
    let ghost gx1 = x1 as int;
    let ghost gy1 = y1 as int;
    let ghost pts = line_points(gx0, gy0, gx1, gy1);
    let dx: i64 = if x0 < x1 { x1 as i64 - x0 as i64 } else { x0 as i64 - x1 as i64 };
    let dy: i64 = if y0 < y1 { y1 as i64 - y0 as i64 } else { y0 as i64 - y1 as i64 };
    let sx: i64 = if x0 < x1 { 1 } else { -1 };
    let sy: i64 = if y0 < y1 { 1 } else { -1 };
    let ghost m = larger(dx as int, dy as int);
    let mut err: i64 = dx - dy;
    let mut x: i64 = x0 as i64;
    let mut y: i64 = y0 as i64;
    let mut out: Vec<(u32, u32)> = Vec::new();
    let ghost mut k: nat = 0;
    let ghost mut a: int = 0;
    let ghost mut b: int = 0;
    proof {
        lemma_offsets(dx as int, dy as int, 0);
        assert(pts.take(0) =~= Seq::<(int, int)>::empty());
    }
    loop
        invariant
            gx0 == x0 && gy0 == y0 && gx1 == x1 && gy1 == y1,
            dx == span(gx0, gx1),
            dy == span(gy0, gy1),
            0 <= dx <= 0x1_0000_0000,
            0 <= dy <= 0x1_0000_0000,
            sx == (if gx0 < gx1 { 1int } else { -1int }),
            sy == (if gy0 < gy1 { 1int } else { -1int }),
            m == larger(dx as int, dy as int),
            pts == line_points(gx0, gy0, gx1, gy1),
            k <= m,
            (a, b) == line_offsets(dx as int, dy as int, k),
            walk_ok(dx as int, dy as int, (a, b)),
            dx >= dy ==> a == k,
            dy >= dx ==> b == k,
            x == toward(gx0, gx1, a),
            y == toward(gy0, gy1, b),
            err == dx - dy + deviation(dx as int, dy as int, a, b),
            out@ == visible_pixels(pts.take(k as int), width as int, height as int),
        decreases m - k,
    {
        proof {
            assert(pts[k as int] == (x as int, y as int));
            assert(pts.take(k as int + 1).drop_last() == pts.take(k as int));
            assert(pts.take(k as int + 1).last() == pts[k as int]);
        }
        if 0 <= x && x < width as i64 && 0 <= y && y < height as i64 {
            out.push((x as u32, y as u32));
        }
        if x == x1 as i64 && y == y1 as i64 {
            proof {
                assert(a == dx && b == dy);
                if k < m {
                    lemma_step(dx as int, dy as int, (a, b));
                }
                assert(k == m);
                assert(pts.take(k as int + 1) =~= pts);
            }
            return out;
        }
        let ghost old_a = a;
        let ghost old_b = b;
        proof {
            if k == m {
                lemma_corner(dx as int, dy as int, (a, b));
            }
            lemma_step(dx as int, dy as int, (a, b));
        }
        let e2 = 2 * err;
        if e2 > -dy {
            err = err - dy;
            x = x + sx;
            proof {
                a = a + 1;
            }
        }
        if e2 < dx {
            err = err + dx;
            y = y + sy;
            proof {
                b = b + 1;
            }
        }
        proof {
            lemma_deviation_step(dx as int, dy as int, old_a, old_b, a, b);
            k = k + 1;
        }
    }
}

} // verus!
