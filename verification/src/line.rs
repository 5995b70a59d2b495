//! The points of a straight line between two grid points, as `line_drawing::Bresenham`
//! draws it.
//!
//! Bresenham first maps the line into the octant where it runs rightwards with a
//! slope between 0 and 1 (a signed permutation of the coordinates), walks the `u + 1`
//! columns there, and at column `k` sits `floor(k * v / u)` rows up, where `(u, v)` is
//! the line's extent in that octant. Each point is mapped back.
use vstd::prelude::*;
use line_drawing::Bresenham;

verus! {

/// Which of the eight octants the line from `start` to `end` runs in, numbered as
/// `line_drawing::octant::Octant` numbers them.
pub open spec fn octant(start: (int, int), end: (int, int)) -> int {
    let dx = end.0 - start.0;
    let dy = end.1 - start.1;
    let (dx1, dy1, v1) = if dy < 0 {
        (-dx, -dy, 4int)
    } else {
        (dx, dy, 0int)
    };
    let (dx2, dy2, v2) = if dx1 < 0 {
        (dy1, -dx1, v1 + 2)
    } else {
        (dx1, dy1, v1)
    };
    if dx2 < dy2 {
        v2 + 1
    } else {
        v2
    }
}

/// A point moved into octant `o`'s frame.
pub open spec fn octant_to(o: int, p: (int, int)) -> (int, int) {
    if o == 0 {
        (p.0, p.1)
    } else if o == 1 {
        (p.1, p.0)
    } else if o == 2 {
        (p.1, -p.0)
    } else if o == 3 {
        (-p.0, p.1)
    } else if o == 4 {
        (-p.0, -p.1)
    } else if o == 5 {
        (-p.1, -p.0)
    } else if o == 6 {
        (-p.1, p.0)
    } else {
        (p.0, -p.1)
    }
}

/// A point moved back out of octant `o`'s frame.
pub open spec fn octant_from(o: int, p: (int, int)) -> (int, int) {
    if o == 0 {
        (p.0, p.1)
    } else if o == 1 {
        (p.1, p.0)
    } else if o == 2 {
        (-p.1, p.0)
    } else if o == 3 {
        (-p.0, p.1)
    } else if o == 4 {
        (-p.0, -p.1)
    } else if o == 5 {
        (-p.1, -p.0)
    } else if o == 6 {
        (p.1, -p.0)
    } else {
        (p.0, -p.1)
    }
}

/// The line's extent `(u, v)` in its octant's frame: `u` columns, `v` rows.
pub open spec fn octant_extent(start: (int, int), end: (int, int)) -> (int, int) {
    let o = octant(start, end);
    let s = octant_to(o, start);
    let e = octant_to(o, end);
    (e.0 - s.0, e.1 - s.1)
}

/// Point `k` of the line from `start` to `end`.
pub open spec fn line_point(start: (int, int), end: (int, int), k: int) -> (int, int) {
    let o = octant(start, end);
    let s = octant_to(o, start);
    let (u, v) = octant_extent(start, end);
    let rise = if u == 0 {
        0
    } else {
        k * v / u
    };
    octant_from(o, (s.0 + k, s.1 + rise))
}

/// The points, in order, that `line_drawing::Bresenham` visits on the line from
/// `start` to `end`.
pub open spec fn bresenham_points(start: (isize, isize), end: (isize, isize)) -> Seq<
    (isize, isize),
> {
    let s = (start.0 as int, start.1 as int);
    let e = (end.0 as int, end.1 as int);
    Seq::new(
        (octant_extent(s, e).0 + 1) as nat,
        |k: int|
            {
                let p = line_point(s, e, k);
                (p.0 as isize, p.1 as isize)
            },
    )
}

/// A point whose coordinates are small enough that Bresenham's differences and error
/// terms stay inside `isize`.
pub open spec fn fits_line(p: (isize, isize)) -> bool {
    &&& -(isize::MAX / 2) <= p.0 <= isize::MAX / 2
    &&& -(isize::MAX / 2) <= p.1 <= isize::MAX / 2
}

/// Whether `v` lies between `a` and `b`, both included, in either order.
pub open spec fn between(v: int, a: int, b: int) -> bool {
    (a <= v <= b) || (b <= v <= a)
}

/// Whether `p` lies in the box spanned by `start` and `end`, edges included.
pub open spec fn in_box(p: (isize, isize), start: (isize, isize), end: (isize, isize)) -> bool {
    between(p.0 as int, start.0 as int, end.0 as int) && between(
        p.1 as int,
        start.1 as int,
        end.1 as int,
    )
}

/// `line_drawing::Bresenham::new(start, end)`, collected into a `Vec`.
///
/// Claimed of it: the points are `bresenham_points(start, end)`, which is what its
/// source computes: in the octant frame its error term starts at `v - u` and the row
/// goes up exactly when `(k + 1) * v >= (row + 1) * u`, so column `k` sits at row
/// `floor(k * v / u)`. With coordinates within `fits_line` none of its arithmetic
/// overflows.
#[verifier::external_body]
pub(crate) fn bresenham_line(start: (isize, isize), end: (isize, isize)) -> (points: Vec<(isize, isize)>)
    requires
        fits_line(start),
        fits_line(end),
    ensures
        points@ == bresenham_points(start, end),
{
    Bresenham::new(start, end).collect()
}

/// In its octant's frame the line runs right and up no faster than it runs right,
/// and moving back out of the frame undoes moving in.
proof fn lemma_octant_frame(start: (int, int), end: (int, int))
    ensures
        0 <= octant(start, end) <= 7,
        0 <= octant_extent(start, end).1 <= octant_extent(start, end).0,
        octant_from(octant(start, end), octant_to(octant(start, end), start)) == start,
        octant_from(octant(start, end), octant_to(octant(start, end), end)) == end,
{
}

/// The rise at column `k` lies between no rise and the full rise `v`, and is `v` at
/// the last column.
proof fn lemma_rise(k: int, u: int, v: int)
    requires
        0 <= k <= u,
        0 <= v <= u,
        0 < u,
    ensures
        0 <= k * v / u <= v,
        u * v / u == v,
{
    assert(0 <= k * v) by (nonlinear_arith)
        requires
            0 <= k,
            0 <= v,
    ;
    assert(k * v <= u * v) by (nonlinear_arith)
        requires
            k <= u,
            0 <= v,
    ;
    vstd::arithmetic::div_mod::lemma_div_pos_is_pos(k * v, u);
    vstd::arithmetic::div_mod::lemma_div_is_ordered(k * v, u * v, u);
    assert(u * v == v * u + 0) by (nonlinear_arith);
    vstd::arithmetic::div_mod::lemma_fundamental_div_mod_converse(u * v, u, v, 0);
}

/// A point between two others in a frame is, back out of the frame, between the two
/// points they map back to.
proof fn lemma_from_keeps_between(o: int, p: (int, int), a: (int, int), b: (int, int))
    requires
        between(p.0, a.0, b.0),
        between(p.1, a.1, b.1),
    ensures
        between(octant_from(o, p).0, octant_from(o, a).0, octant_from(o, b).0),
        between(octant_from(o, p).1, octant_from(o, a).1, octant_from(o, b).1),
{
}

/// Point `k` of the line lies in the box spanned by `start` and `end`.
proof fn lemma_line_point_in_box(start: (isize, isize), end: (isize, isize), k: int)
    requires
        0 <= k < bresenham_points(start, end).len(),
    ensures
        between(bresenham_points(start, end)[k].0 as int, start.0 as int, end.0 as int),
        between(bresenham_points(start, end)[k].1 as int, start.1 as int, end.1 as int),
        bresenham_points(start, end)[k].0 as int == line_point(
            (start.0 as int, start.1 as int),
            (end.0 as int, end.1 as int),
            k,
        ).0,
        bresenham_points(start, end)[k].1 as int == line_point(
            (start.0 as int, start.1 as int),
            (end.0 as int, end.1 as int),
            k,
        ).1,
{
    let s = (start.0 as int, start.1 as int);
    let e = (end.0 as int, end.1 as int);
    let o = octant(s, e);
    let so = octant_to(o, s);
    let eo = octant_to(o, e);
    let (u, v) = octant_extent(s, e);
    lemma_octant_frame(s, e);
    let rise = if u == 0 {
        0
    } else {
        k * v / u
    };
    if u != 0 {
        lemma_rise(k, u, v);
    }
    let q = (so.0 + k, so.1 + rise);
    lemma_from_keeps_between(o, q, so, eo);
    let p = line_point(s, e, k);
    assert(p == octant_from(o, q));
    assert(between(p.0, s.0, e.0) && between(p.1, s.1, e.1));
    assert(bresenham_points(start, end)[k] == (p.0 as isize, p.1 as isize));
}

/// Bresenham's line starts at `start`, ends at `end`, and every point of it lies in
/// the box spanned by the two.
pub proof fn lemma_line_ends_and_box(start: (isize, isize), end: (isize, isize))
    ensures
        bresenham_points(start, end).len() > 0,
        bresenham_points(start, end)[0] == start,
        bresenham_points(start, end).last() == end,
        forall|k: int|
            0 <= k < bresenham_points(start, end).len() ==> in_box(
                #[trigger] bresenham_points(start, end)[k],
                start,
                end,
            ),
{
    let s = (start.0 as int, start.1 as int);
    let e = (end.0 as int, end.1 as int);
    let o = octant(s, e);
    let so = octant_to(o, s);
    let eo = octant_to(o, e);
    let (u, v) = octant_extent(s, e);
    lemma_octant_frame(s, e);
    assert(line_point(s, e, 0) == s) by {
        if u != 0 {
            assert(0int * v / u == 0) by (nonlinear_arith)
                requires
                    u > 0,
            ;
        }
    }
    assert(line_point(s, e, u) == e) by {
        if u != 0 {
            lemma_rise(u, u, v);
        }
        assert(eo == (so.0 + u, so.1 + v));
    }
    assert forall|k: int| 0 <= k < bresenham_points(start, end).len() implies in_box(
        #[trigger] bresenham_points(start, end)[k],
        start,
        end,
    ) by {
        lemma_line_point_in_box(start, end, k);
    }
}

/// Whether two grid points differ by at most one in each coordinate and are not the
/// same point: one of the eight neighbours of each other.
pub open spec fn adjacent(p: (isize, isize), q: (isize, isize)) -> bool {
    &&& p != q
    &&& -1 <= q.0 - p.0 <= 1
    &&& -1 <= q.1 - p.1 <= 1
}

/// The larger of the horizontal and vertical distances between two points.
pub open spec fn chebyshev_distance(p: (isize, isize), q: (isize, isize)) -> int {
    let dx = if q.0 >= p.0 {
        q.0 - p.0
    } else {
        p.0 - q.0
    };
    let dy = if q.1 >= p.1 {
        q.1 - p.1
    } else {
        p.1 - q.1
    };
    if dx >= dy {
        dx
    } else {
        dy
    }
}

/// From one column to the next the rise grows by nothing or by one.
proof fn lemma_rise_step(k: int, u: int, v: int)
    requires
        0 <= k,
        k + 1 <= u,
        0 <= v <= u,
        0 < u,
    ensures
        k * v / u <= (k + 1) * v / u <= k * v / u + 1,
{
    let a = k * v;
    assert((k + 1) * v == a + v) by (nonlinear_arith)
        requires
            a == k * v,
    ;
    vstd::arithmetic::div_mod::lemma_div_is_ordered(a, a + v, u);
    vstd::arithmetic::div_mod::lemma_div_is_ordered(a + v, u + a, u);
    vstd::arithmetic::div_mod::lemma_div_plus_one(a, u);
}

/// One column further in an octant's frame, rising by nothing or by one, is back out
/// of the frame a neighbouring point.
proof fn lemma_from_step(o: int, q0: (int, int), q1: (int, int))
    requires
        q1.0 == q0.0 + 1,
        0 <= q1.1 - q0.1 <= 1,
    ensures
        octant_from(o, q0) != octant_from(o, q1),
        -1 <= octant_from(o, q1).0 - octant_from(o, q0).0 <= 1,
        -1 <= octant_from(o, q1).1 - octant_from(o, q0).1 <= 1,
{
}

/// Bresenham's line is a shortest path of neighbouring grid points: it has one point
/// more than the larger of its horizontal and vertical extents, and each point is a
/// neighbour of the one before.
pub proof fn lemma_line_is_a_shortest_path(start: (isize, isize), end: (isize, isize))
    ensures
        bresenham_points(start, end).len() == chebyshev_distance(start, end) + 1,
        forall|k: int|
            0 <= k < bresenham_points(start, end).len() - 1 ==> adjacent(
                #[trigger] bresenham_points(start, end)[k],
                bresenham_points(start, end)[k + 1],
            ),
{
    let s = (start.0 as int, start.1 as int);
    let e = (end.0 as int, end.1 as int);
    let o = octant(s, e);
    let so = octant_to(o, s);
    let (u, v) = octant_extent(s, e);
    lemma_octant_frame(s, e);
    assert(u == chebyshev_distance(start, end));
    assert forall|k: int| 0 <= k < bresenham_points(start, end).len() - 1 implies adjacent(
        #[trigger] bresenham_points(start, end)[k],
        bresenham_points(start, end)[k + 1],
    ) by {
        lemma_line_point_in_box(start, end, k);
        lemma_line_point_in_box(start, end, k + 1);
        lemma_rise_step(k, u, v);
        let q0 = (so.0 + k, so.1 + k * v / u);
        let q1 = (so.0 + k + 1, so.1 + (k + 1) * v / u);
        assert(line_point(s, e, k) == octant_from(o, q0));
        assert(line_point(s, e, k + 1) == octant_from(o, q1));
        lemma_from_step(o, q0, q1);
        let a = bresenham_points(start, end)[k];
        let b = bresenham_points(start, end)[k + 1];
        assert(a.0 as int == octant_from(o, q0).0 && a.1 as int == octant_from(o, q0).1);
        assert(b.0 as int == octant_from(o, q1).0 && b.1 as int == octant_from(o, q1).1);
    }
}

} // verus!
