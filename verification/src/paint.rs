//! Painting into a matrix: single cells, and straight lines between two mouse positions.
use vstd::prelude::*;

use crate::error::Error;
use crate::line::{bresenham_line, bresenham_points, between, fits_line, lemma_line_ends_and_box};
use crate::matrix::{calculate_index_from_xy, Matrix2D};
use crate::rect::Rect;

verus! {

/// Whether the point passes the drawing guard: no coordinate below zero, none past
/// `width` or `height` (a coordinate equal to them passes).
pub open spec fn drawable(p: (isize, isize), width: int, height: int) -> bool {
    !(p.0 < 0 || p.1 < 0 || p.0 > width || p.1 > height)
}

/// Whether one of the first `n` points that pass the guard sits at flat index `index`.
pub open spec fn painted_among(
    points: Seq<(isize, isize)>,
    n: int,
    width: int,
    height: int,
    index: int,
) -> bool {
    exists|j: int|
        0 <= j < n && drawable(#[trigger] points[j], width, height) && points[j].0 + width
            * points[j].1 == index
}

/// The cells after `value` is painted at each of `points` that passes the guard.
pub open spec fn painted_cells<T>(
    cells: Seq<T>,
    points: Seq<(isize, isize)>,
    width: int,
    height: int,
    value: T,
) -> Seq<T> {
    Seq::new(
        cells.len(),
        |i: int|
            if painted_among(points, points.len() as int, width, height, i) {
                value
            } else {
                cells[i]
            },
    )
}

/// Painting puts `value` into the cell of every point that passes the guard, and leaves
/// every cell that no such point sits on as it was.
pub proof fn lemma_painted_cells<T>(
    cells: Seq<T>,
    points: Seq<(isize, isize)>,
    width: int,
    height: int,
    value: T,
)
    ensures
        painted_cells(cells, points, width, height, value).len() == cells.len(),
        forall|k: int|
            0 <= k < points.len() && drawable(#[trigger] points[k], width, height) && 0
                <= points[k].0 + width * points[k].1 < cells.len() ==> painted_cells(
                cells,
                points,
                width,
                height,
                value,
            )[points[k].0 + width * points[k].1] == value,
        forall|i: int|
            0 <= i < cells.len() && (forall|k: int|
                0 <= k < points.len() && drawable(#[trigger] points[k], width, height)
                    ==> points[k].0 + width * points[k].1 != i) ==> #[trigger] painted_cells(
                cells,
                points,
                width,
                height,
                value,
            )[i] == cells[i],
{
    assert forall|k: int|
        0 <= k < points.len() && drawable(#[trigger] points[k], width, height) && 0 <= points[k].0
            + width * points[k].1 < cells.len() implies painted_cells(
        cells,
        points,
        width,
        height,
        value,
    )[points[k].0 + width * points[k].1] == value by {
        assert(painted_among(
            points,
            points.len() as int,
            width,
            height,
            points[k].0 + width * points[k].1,
        ));
    }
    assert forall|i: int|
        0 <= i < cells.len() && (forall|k: int|
            0 <= k < points.len() && drawable(#[trigger] points[k], width, height) ==> points[k].0
                + width * points[k].1 != i) implies #[trigger] painted_cells(
        cells,
        points,
        width,
        height,
        value,
    )[i] == cells[i] by {
        if painted_among(points, points.len() as int, width, height, i) {
            let j = choose|j: int|
                0 <= j < points.len() && drawable(#[trigger] points[j], width, height) && points[j].0
                    + width * points[j].1 == i;
            assert(points[j].0 + width * points[j].1 != i);
        }
    }
}

/// Paints `value` into the cell at each point that passes the guard of `drawable`,
/// the cell of point `(x, y)` being the one at flat index `x + width * y`.
pub fn paint_points<T: Copy>(
    matrix: &mut Matrix2D<T>,
    window_rect: &Rect<usize>,
    points: &Vec<(isize, isize)>,
    value: T,
)
    requires
        old(matrix).well_formed(),
        old(matrix).spec_width() == window_rect.spec_width(),
        old(matrix).spec_height() == window_rect.spec_height(),
        forall|k: int|
            0 <= k < points@.len() && drawable(
                #[trigger] points@[k],
                window_rect.spec_width() as int,
                window_rect.spec_height() as int,
            ) ==> points@[k].0 + window_rect.spec_width() * points@[k].1 < old(matrix)@.len(),
    ensures
        final(matrix).well_formed(),
        final(matrix).spec_width() == old(matrix).spec_width(),
        final(matrix).spec_height() == old(matrix).spec_height(),
        final(matrix)@ == painted_cells(
            old(matrix)@,
            points@,
            window_rect.spec_width() as int,
            window_rect.spec_height() as int,
            value,
        ),
        forall|k: int|
            0 <= k < points@.len() && drawable(
                #[trigger] points@[k],
                window_rect.spec_width() as int,
                window_rect.spec_height() as int,
            ) ==> final(matrix)@[points@[k].0 + window_rect.spec_width() * points@[k].1] == value,
        forall|i: int|
            0 <= i < old(matrix)@.len() && (forall|k: int|
                0 <= k < points@.len() && drawable(
                    #[trigger] points@[k],
                    window_rect.spec_width() as int,
                    window_rect.spec_height() as int,
                ) ==> points@[k].0 + window_rect.spec_width() * points@[k].1 != i)
                ==> #[trigger] final(matrix)@[i] == old(matrix)@[i],
{
    let width = window_rect.w();
    let height = window_rect.h();
    let ghost w = width as int;
    let ghost h = height as int;
    let ghost cells0 = matrix@;
    proof {
        matrix.lemma_well_formed();
    }
    let mut k: usize = 0;
    while k < points.len()
        invariant
            k <= points@.len(),
            width == window_rect.spec_width(),
            height == window_rect.spec_height(),
            w == width,
            h == height,
            matrix.well_formed(),
            matrix.spec_width() == w,
            matrix.spec_height() == h,
            matrix@.len() == cells0.len(),
            forall|j: int|
                0 <= j < points@.len() && drawable(#[trigger] points@[j], w, h) ==> points@[j].0
                    + w * points@[j].1 < cells0.len(),
            forall|i: int|
                0 <= i < cells0.len() ==> #[trigger] matrix@[i] == if painted_among(
                    points@,
                    k as int,
                    w,
                    h,
                    i,
                ) {
                    value
                } else {
                    cells0[i]
                },
        decreases points@.len() - k,
    {
        let (line_x, line_y) = points[k];
        let ghost p = points@[k as int];
        proof {
            matrix.lemma_well_formed();
        }
        if line_x < 0 || line_y < 0 || line_x > width as isize || line_y > height as isize {
            assert forall|i: int| 0 <= i < cells0.len() implies (painted_among(
                points@,
                k + 1,
                w,
                h,
                i,
            ) <==> painted_among(points@, k as int, w, h, i)) by {
                if painted_among(points@, k + 1, w, h, i) {
                    let j = choose|j: int|
                        0 <= j < k + 1 && drawable(#[trigger] points@[j], w, h) && points@[j].0 + w
                            * points@[j].1 == i;
                    assert(j != k);
                }
                if painted_among(points@, k as int, w, h, i) {
                    let j = choose|j: int|
                        0 <= j < k && drawable(#[trigger] points@[j], w, h) && points@[j].0 + w
                            * points@[j].1 == i;
                    assert(0 <= j < k + 1);
                }
            }
            k = k + 1;
            continue;
        }
        assert(drawable(p, w, h));
        let index = calculate_index_from_xy(line_x as usize, line_y as usize, width, height);
        let ghost before = matrix@;
        *matrix.get_mut_by_index(index).expect("invalid index") = value;
        assert forall|i: int| 0 <= i < cells0.len() implies (painted_among(
            points@,
            k + 1,
            w,
            h,
            i,
        ) <==> (painted_among(points@, k as int, w, h, i) || i == index)) by {
            if painted_among(points@, k + 1, w, h, i) && i != index {
                let j = choose|j: int|
                    0 <= j < k + 1 && drawable(#[trigger] points@[j], w, h) && points@[j].0 + w
                        * points@[j].1 == i;
                assert(j != k);
            }
            if painted_among(points@, k as int, w, h, i) {
                let j = choose|j: int|
                    0 <= j < k && drawable(#[trigger] points@[j], w, h) && points@[j].0 + w
                        * points@[j].1 == i;
                assert(0 <= j < k + 1);
            }
            if i == index {
                assert(0 <= k < k + 1 && drawable(points@[k as int], w, h));
            }
        }
        assert forall|i: int| 0 <= i < cells0.len() implies #[trigger] matrix@[i] == if painted_among(
            points@,
            k + 1,
            w,
            h,
            i,
        ) {
            value
        } else {
            cells0[i]
        } by {
            if i != index {
                assert(matrix@[i] == before[i]);
            }
        }
        k = k + 1;
    }
    proof {
        assert(matrix@ =~= painted_cells(cells0, points@, w, h, value));
        lemma_painted_cells(cells0, points@, w, h, value);
    }
}

/// Paints `value` into every cell of the line that `line_drawing::Bresenham` draws
/// from `from` to `to`, skipping points that fail the guard of `drawable`.
pub fn paint_line<T: Copy>(
    matrix: &mut Matrix2D<T>,
    window_rect: &Rect<usize>,
    from: (isize, isize),
    to: (isize, isize),
    value: T,
)
    requires
        old(matrix).well_formed(),
        old(matrix).spec_width() == window_rect.spec_width(),
        old(matrix).spec_height() == window_rect.spec_height(),
        from.0 < window_rect.spec_width(),
        from.1 < window_rect.spec_height(),
        to.0 < window_rect.spec_width(),
        to.1 < window_rect.spec_height(),
        fits_line(from),
        fits_line(to),
    ensures
        final(matrix).well_formed(),
        final(matrix).spec_width() == old(matrix).spec_width(),
        final(matrix).spec_height() == old(matrix).spec_height(),
        final(matrix)@ == painted_cells(
            old(matrix)@,
            bresenham_points(from, to),
            window_rect.spec_width() as int,
            window_rect.spec_height() as int,
            value,
        ),
        from.0 >= 0 && from.1 >= 0 ==> final(matrix)@[from.0 + window_rect.spec_width() * from.1]
            == value,
        to.0 >= 0 && to.1 >= 0 ==> final(matrix)@[to.0 + window_rect.spec_width() * to.1] == value,
        forall|k: int|
            0 <= k < bresenham_points(from, to).len() && drawable(
                #[trigger] bresenham_points(from, to)[k],
                window_rect.spec_width() as int,
                window_rect.spec_height() as int,
            ) ==> final(matrix)@[bresenham_points(from, to)[k].0 + window_rect.spec_width()
                * bresenham_points(from, to)[k].1] == value,
        forall|i: int|
            0 <= i < old(matrix)@.len() && (forall|k: int|
                0 <= k < bresenham_points(from, to).len() && drawable(
                    #[trigger] bresenham_points(from, to)[k],
                    window_rect.spec_width() as int,
                    window_rect.spec_height() as int,
                ) ==> bresenham_points(from, to)[k].0 + window_rect.spec_width() * bresenham_points(
                    from,
                    to,
                )[k].1 != i) ==> #[trigger] final(matrix)@[i] == old(matrix)@[i],
{
    let line_points = bresenham_line(from, to);
    proof {
        lemma_line_ends_and_box(from, to);
        matrix.lemma_well_formed();
        let w = window_rect.spec_width() as int;
        let h = window_rect.spec_height() as int;
        assert forall|k: int|
            0 <= k < line_points@.len() && drawable(#[trigger] line_points@[k], w, h) implies line_points@[k].0
            + w * line_points@[k].1 < matrix@.len() by {
            let p = line_points@[k];
            assert(between(p.0 as int, from.0 as int, to.0 as int));
            assert(0 <= p.0 < w && 0 <= p.1 < h);
            assert(p.0 + w * p.1 < h * w) by (nonlinear_arith)
                requires
                    0 <= p.0 < w,
                    0 <= p.1 < h,
            ;
        }
    }
    paint_points(matrix, window_rect, &line_points, value);
    proof {
        let w = window_rect.spec_width() as int;
        let h = window_rect.spec_height() as int;
        let last = line_points@.len() - 1;
        if from.0 >= 0 && from.1 >= 0 {
            assert(drawable(line_points@[0], w, h));
            assert(painted_among(line_points@, line_points@.len() as int, w, h, from.0 + w * from.1));
        }
        if to.0 >= 0 && to.1 >= 0 {
            assert(drawable(line_points@[last], w, h));
            assert(painted_among(line_points@, line_points@.len() as int, w, h, to.0 + w * to.1));
        }
    }
}

/// One painting step at mouse cell `(x, y)`: when the cell lies inside `window_rect`,
/// paints `value` along the line from `previous` to it, or into it alone when there is
/// no previous position, and answers `true`; otherwise changes nothing and answers
/// `false`.
pub fn paint_stroke<T: Copy>(
    matrix: &mut Matrix2D<T>,
    window_rect: &Rect<usize>,
    previous: Option<(isize, isize)>,
    x: usize,
    y: usize,
    value: T,
) -> (inside: bool)
    requires
        old(matrix).well_formed(),
        old(matrix).spec_width() == window_rect.spec_width(),
        old(matrix).spec_height() == window_rect.spec_height(),
        x < window_rect.spec_width() && y < window_rect.spec_height() ==> (previous matches Some(
            p,
        ) ==> {
            &&& p.0 < window_rect.spec_width()
            &&& p.1 < window_rect.spec_height()
            &&& fits_line(p)
            &&& x <= isize::MAX / 2
            &&& y <= isize::MAX / 2
        }),
    ensures
        final(matrix).well_formed(),
        final(matrix).spec_width() == old(matrix).spec_width(),
        final(matrix).spec_height() == old(matrix).spec_height(),
        inside == (x < window_rect.spec_width() && y < window_rect.spec_height()),
        !inside ==> final(matrix)@ == old(matrix)@,
        inside && previous is None ==> final(matrix)@ == old(matrix)@.update(
            x + window_rect.spec_width() * y,
            value,
        ),
        inside ==> final(matrix)@[x + window_rect.spec_width() * y] == value,
        inside ==> (previous matches Some(p) ==> final(matrix)@ == painted_cells(
            old(matrix)@,
            bresenham_points(p, (x as isize, y as isize)),
            window_rect.spec_width() as int,
            window_rect.spec_height() as int,
            value,
        )),
        inside ==> (previous matches Some(p) ==> forall|k: int|
            0 <= k < bresenham_points(p, (x as isize, y as isize)).len() && drawable(
                #[trigger] bresenham_points(p, (x as isize, y as isize))[k],
                window_rect.spec_width() as int,
                window_rect.spec_height() as int,
            ) ==> final(matrix)@[bresenham_points(p, (x as isize, y as isize))[k].0
                + window_rect.spec_width() * bresenham_points(p, (x as isize, y as isize))[k].1]
                == value),
        inside ==> (previous matches Some(p) ==> forall|i: int|
            0 <= i < old(matrix)@.len() && (forall|k: int|
                0 <= k < bresenham_points(p, (x as isize, y as isize)).len() && drawable(
                    #[trigger] bresenham_points(p, (x as isize, y as isize))[k],
                    window_rect.spec_width() as int,
                    window_rect.spec_height() as int,
                ) ==> bresenham_points(p, (x as isize, y as isize))[k].0
                    + window_rect.spec_width() * bresenham_points(p, (x as isize, y as isize))[k].1
                    != i) ==> #[trigger] final(matrix)@[i] == old(matrix)@[i]),
{
    if window_rect.contains(x, y) {
        proof {
            matrix.lemma_well_formed();
        }
        match previous {
            Some(previous) => {
                paint_line(matrix, window_rect, previous, (x as isize, y as isize), value);
            },
            None => {
                proof {
                    let w = window_rect.spec_width() as int;
                    let h = window_rect.spec_height() as int;
                    assert(x + w * y < h * w) by (nonlinear_arith)
                        requires
                            0 <= x < w,
                            0 <= y < h,
                    ;
                }
                let index = calculate_index_from_xy(x, y, window_rect.w(), window_rect.h());
                *matrix.get_mut_by_index(index).expect("invalid index") = value;
            },
        }
        true
    } else {
        false
    }
}

/// The cell at flat index `index`, or the error naming `list_name` that reports a
/// lookup past the last cell.
pub fn lookup_cell<'a, T>(matrix: &'a Matrix2D<T>, list_name: &str, index: usize) -> (cell: Result<
    &'a T,
    Error,
>)
    ensures
        index < matrix@.len() ==> cell == Ok::<&T, Error>(&matrix@[index as int]),
        index >= matrix@.len() ==> (cell matches Err(
            Error::InvalidIndex { list_name: name, index: i, len: n },
        ) && name@ == list_name@ && i == index && n == matrix@.len()),
{
    match matrix.get_by_index(index) {
        Some(cell) => Ok(cell),
        None => Err(Error::InvalidIndex { list_name: list_name.to_owned(), index, len: matrix.len() }),
    }
}

} // verus!
