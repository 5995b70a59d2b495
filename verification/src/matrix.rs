//! Row-major grid geometry: which flat index sits next to which.
//!
//! A grid of `height` rows and `width` columns stores cell `(x, y)` (column
//! `x`, row `y`) at flat index `x + width * y`. The functions here answer, for a
//! flat index, whether it lies on an edge of the grid and which flat index lies
//! next to it in each of the eight compass directions (`-1` when there is none).
//! `Matrix2D` holds such a grid of cells and hands them out by coordinates, by flat
//! index, and by neighbour.
use vstd::prelude::*;
use vstd::arithmetic::div_mod::{lemma_fundamental_div_mod, lemma_fundamental_div_mod_converse, lemma_mod_pos_bound};

verus! {

/// The eight compass directions in which a cell can have a neighbour.
#[derive(Clone, Copy)]
pub enum Direction {
    NorthWest,
    North,
    NorthEast,
    West,
    East,
    SouthEast,
    South,
    SouthWest,
}

impl Direction {
    /// Rows moved by one step in this direction (north is towards row 0).
    pub open spec fn row_step(self) -> int {
        match self {
            Direction::NorthWest | Direction::North | Direction::NorthEast => -1,
            Direction::West | Direction::East => 0,
            Direction::SouthWest | Direction::South | Direction::SouthEast => 1,
        }
    }

    /// Columns moved by one step in this direction (west is towards column 0).
    pub open spec fn col_step(self) -> int {
        match self {
            Direction::NorthWest | Direction::West | Direction::SouthWest => -1,
            Direction::North | Direction::South => 0,
            Direction::NorthEast | Direction::East | Direction::SouthEast => 1,
        }
    }

    /// The direction that undoes a step in this one.
    pub open spec fn opposite(self) -> Direction {
        match self {
            Direction::NorthWest => Direction::SouthEast,
            Direction::North => Direction::South,
            Direction::NorthEast => Direction::SouthWest,
            Direction::West => Direction::East,
            Direction::East => Direction::West,
            Direction::SouthEast => Direction::NorthWest,
            Direction::South => Direction::North,
            Direction::SouthWest => Direction::NorthEast,
        }
    }
}

/// Dimensions of a grid whose cell count fits in an `isize`: both non-negative, or one
/// of them zero (a grid without cells, whatever the other one reads as).
pub open spec fn valid_dimensions(height: int, width: int) -> bool {
    &&& (0 <= height && 0 <= width) || height == 0 || width == 0
    &&& height * width <= isize::MAX
}

/// Whether column `col` of row `row` is a cell of the grid.
pub open spec fn in_grid(row: int, col: int, height: int, width: int) -> bool {
    0 <= row < height && 0 <= col < width
}

/// The flat index of the cell one step from cell `index` in direction `d`,
/// or `-1` when that step leaves the grid. Meant for `index` inside the grid.
pub open spec fn cell_neighbour(index: int, height: int, width: int, d: Direction) -> int {
    let row = index / width + d.row_step();
    let col = index % width + d.col_step();
    if in_grid(row, col, height, width) {
        row * width + col
    } else {
        -1
    }
}

/// What the `index_to_the_*` functions give for direction `d`: the grid neighbour for
/// an index inside the grid; outside it, a west or east step still moves the index
/// by one, and every other direction gives `-1`.
pub open spec fn neighbour_index(index: int, height: int, width: int, d: Direction) -> int {
    if 0 <= index < height * width {
        cell_neighbour(index, height, width, d)
    } else {
        match d {
            Direction::West => index - 1,
            Direction::East => index + 1,
            _ => -1,
        }
    }
}

/// Row and column of an index inside the grid, and how the edge tests read on them.
pub proof fn lemma_row_and_column(index: int, height: int, width: int)
    requires
        valid_dimensions(height, width),
        0 <= index < height * width,
    ensures
        0 < width,
        0 < height,
        index == (index / width) * width + index % width,
        0 <= index % width < width,
        0 <= index / width < height,
        (index < width) <==> (index / width == 0),
        (width * (height - 1) <= index) <==> (index / width == height - 1),
        ((index + 1) % width == 0) <==> (index % width == width - 1),
{
    assert(height != 0 && width != 0) by (nonlinear_arith)
        requires
            0 <= index < height * width,
    ;
    assert(0 < width && 0 < height) by (nonlinear_arith)
        requires
            0 <= height,
            0 <= width,
            0 <= index < height * width,
    ;
    lemma_fundamental_div_mod(index, width);
    lemma_mod_pos_bound(index, width);
    let q = index / width;
    let r = index % width;
    assert(index == q * width + r) by (nonlinear_arith)
        requires
            index == width * q + r,
    ;
    assert(0 <= q < height) by (nonlinear_arith)
        requires
            index == q * width + r,
            0 <= r < width,
            0 <= index < height * width,
    ;
    assert((index < width) <==> (q == 0)) by (nonlinear_arith)
        requires
            index == q * width + r,
            0 <= r < width,
            0 <= q,
    ;
    assert((width * (height - 1) <= index) <==> (q == height - 1)) by (nonlinear_arith)
        requires
            index == q * width + r,
            0 <= r < width,
            0 <= q < height,
    ;
    if r == width - 1 {
        assert(index + 1 == (q + 1) * width + 0) by (nonlinear_arith)
            requires
                index == q * width + r,
                r == width - 1,
        ;
        lemma_fundamental_div_mod_converse(index + 1, width, q + 1, 0);
    } else {
        lemma_fundamental_div_mod_converse(index + 1, width, q, r + 1);
    }
}

/// A cell of the grid is found again from its row and column.
pub proof fn lemma_cell_of_row_and_column(row: int, col: int, height: int, width: int)
    requires
        valid_dimensions(height, width),
        in_grid(row, col, height, width),
    ensures
        0 <= row * width + col < height * width,
        (row * width + col) / width == row,
        (row * width + col) % width == col,
{
    assert(0 <= row * width + col < height * width) by (nonlinear_arith)
        requires
            0 <= row < height,
            0 <= col < width,
    ;
    lemma_fundamental_div_mod_converse(row * width + col, width, row, col);
}

/// The neighbour of a cell is the index shifted by the direction's row and column steps.
proof fn lemma_step(index: int, height: int, width: int, d: Direction)
    requires
        valid_dimensions(height, width),
        0 <= index < height * width,
    ensures
        cell_neighbour(index, height, width, d) == if in_grid(
            index / width + d.row_step(),
            index % width + d.col_step(),
            height,
            width,
        ) {
            index + d.row_step() * width + d.col_step()
        } else {
            -1
        },
        cell_neighbour(index, height, width, d) == -1 || 0 <= cell_neighbour(
            index,
            height,
            width,
            d,
        ) < height * width,
{
    lemma_row_and_column(index, height, width);
    let q = index / width;
    let r = index % width;
    let dr = d.row_step();
    assert((q + dr) * width + (r + d.col_step()) == index + dr * width + d.col_step())
        by (nonlinear_arith)
        requires
            index == q * width + r,
    ;
    if in_grid(q + dr, r + d.col_step(), height, width) {
        lemma_cell_of_row_and_column(q + dr, r + d.col_step(), height, width);
    }
}

/// Whether `index` is a cell of a `height` by `width` grid.
pub fn index_is_in_range(index: isize, height: isize, width: isize) -> (r: bool)
    requires
        valid_dimensions(height as int, width as int),
    ensures
        r == (0 <= index < height * width),
{
    index >= 0 && index < (height * width)
}

/// Whether `index` lies in the first row.
pub fn index_is_in_first_row(index: isize, _height: isize, width: isize) -> (r: bool)
    ensures
        r == (0 <= index < width),
{
    index >= 0 && index < width
}

/// Whether `index` lies in the last row.
pub fn index_is_in_last_row(index: isize, height: isize, width: isize) -> (r: bool)
    requires
        valid_dimensions(height as int, width as int),
        height > isize::MIN,
        isize::MIN <= width * (height - 1) <= isize::MAX,
    ensures
        r == (width * (height - 1) <= index < width * height),
{
    assert(0 <= height * width) by (nonlinear_arith)
        requires
            (0 <= height && 0 <= width) || height == 0 || width == 0,
    ;
    assert(width * (height - 1) == width * height - width) by (nonlinear_arith);
    assert(width * height == height * width) by (nonlinear_arith);
    index >= (width * (height - 1)) && index < (width * height)
}

/// Whether `index` is a cell of the first column.
pub fn index_is_in_first_column(index: isize, height: isize, width: isize) -> (r: bool)
    requires
        valid_dimensions(height as int, width as int),
    ensures
        r == (0 <= index < height * width && index % width == 0),
{
    proof {
        if 0 <= index < height * width {
            lemma_row_and_column(index as int, height as int, width as int);
        }
    }
    index_is_in_range(index, height, width) && index % width == 0
}

/// Whether `index` is a cell of the last column.
pub fn index_is_in_last_column(index: isize, height: isize, width: isize) -> (r: bool)
    requires
        valid_dimensions(height as int, width as int),
    ensures
        r == (0 <= index < height * width && (index + 1) % (width as int) == 0),
{
    proof {
        if 0 <= index < height * width {
            lemma_row_and_column(index as int, height as int, width as int);
        }
    }
    index_is_in_range(index, height, width) && (index + 1) % width == 0
}

/// The index north-west of `index`, or `-1`.
pub fn index_to_the_northwest(index: isize, height: isize, width: isize) -> (r: isize)
    requires
        valid_dimensions(height as int, width as int),
    ensures
        r == neighbour_index(index as int, height as int, width as int, Direction::NorthWest),
{
    proof {
        if 0 <= index < height * width {
            lemma_row_and_column(index as int, height as int, width as int);
            lemma_step(index as int, height as int, width as int, Direction::NorthWest);
        }
    }
    match (
        index_is_in_first_column(index, height, width),
        index_to_the_north(index, height, width),
    ) {
        (false, north_index) if north_index != -1 => north_index - 1,
        _ => -1,
    }
}

/// The index north of `index`, or `-1`.
pub fn index_to_the_north(index: isize, height: isize, width: isize) -> (r: isize)
    requires
        valid_dimensions(height as int, width as int),
    ensures
        r == neighbour_index(index as int, height as int, width as int, Direction::North),
{
    proof {
        if 0 <= index < height * width {
            lemma_row_and_column(index as int, height as int, width as int);
            lemma_step(index as int, height as int, width as int, Direction::North);
        }
    }
    if index_is_in_range(index, height, width) && !index_is_in_first_row(index, height, width) {
        index - width
    } else {
        -1
    }
}

/// The index north-east of `index`, or `-1`.
pub fn index_to_the_northeast(index: isize, height: isize, width: isize) -> (r: isize)
    requires
        valid_dimensions(height as int, width as int),
    ensures
        r == neighbour_index(index as int, height as int, width as int, Direction::NorthEast),
{
    proof {
        if 0 <= index < height * width {
            lemma_row_and_column(index as int, height as int, width as int);
            lemma_step(index as int, height as int, width as int, Direction::NorthEast);
        }
    }
    match (
        index_is_in_last_column(index, height, width),
        index_to_the_north(index, height, width),
    ) {
        (false, north_index) if north_index != -1 => north_index + 1,
        _ => -1,
    }
}

/// The index west of `index`, or `-1`; outside the grid, `index - 1`.
pub fn index_to_the_west(index: isize, height: isize, width: isize) -> (r: isize)
    requires
        valid_dimensions(height as int, width as int),
        index > isize::MIN,
    ensures
        r == neighbour_index(index as int, height as int, width as int, Direction::West),
{
    proof {
        if 0 <= index < height * width {
            lemma_row_and_column(index as int, height as int, width as int);
            lemma_step(index as int, height as int, width as int, Direction::West);
        }
    }
    if !index_is_in_first_column(index, height, width) {
        index - 1
    } else {
        -1
    }
}

/// The index east of `index`, or `-1`; outside the grid, `index + 1`.
pub fn index_to_the_east(index: isize, height: isize, width: isize) -> (r: isize)
    requires
        valid_dimensions(height as int, width as int),
        index < isize::MAX,
    ensures
        r == neighbour_index(index as int, height as int, width as int, Direction::East),
{
    proof {
        if 0 <= index < height * width {
            lemma_row_and_column(index as int, height as int, width as int);
            lemma_step(index as int, height as int, width as int, Direction::East);
        }
    }
    if !index_is_in_last_column(index, height, width) {
        index + 1
    } else {
        -1
    }
}

/// The index south-east of `index`, or `-1`.
pub fn index_to_the_southeast(index: isize, height: isize, width: isize) -> (r: isize)
    requires
        valid_dimensions(height as int, width as int),
    ensures
        r == neighbour_index(index as int, height as int, width as int, Direction::SouthEast),
{
    proof {
        if 0 <= index < height * width {
            lemma_row_and_column(index as int, height as int, width as int);
            lemma_step(index as int, height as int, width as int, Direction::SouthEast);
        }
    }
    match (
        index_is_in_last_column(index, height, width),
        index_to_the_south(index, height, width),
    ) {
        (false, north_index) if north_index != -1 => north_index + 1,
        _ => -1,
    }
}

/// The index south of `index`, or `-1`.
pub fn index_to_the_south(index: isize, height: isize, width: isize) -> (r: isize)
    requires
        valid_dimensions(height as int, width as int),
    ensures
        r == neighbour_index(index as int, height as int, width as int, Direction::South),
{
    proof {
        if 0 <= index < height * width {
            lemma_row_and_column(index as int, height as int, width as int);
            lemma_step(index as int, height as int, width as int, Direction::South);
            assert(width * (height - 1) + width == height * width) by (nonlinear_arith);
        }
    }
    if index_is_in_range(index, height, width) && !index_is_in_last_row(index, height, width) {
        index + width
    } else {
        -1
    }
}

/// The index south-west of `index`, or `-1`.
pub fn index_to_the_southwest(index: isize, height: isize, width: isize) -> (r: isize)
    requires
        valid_dimensions(height as int, width as int),
    ensures
        r == neighbour_index(index as int, height as int, width as int, Direction::SouthWest),
{
    proof {
        if 0 <= index < height * width {
            lemma_row_and_column(index as int, height as int, width as int);
            lemma_step(index as int, height as int, width as int, Direction::SouthWest);
        }
    }
    match (
        index_is_in_first_column(index, height, width),
        index_to_the_south(index, height, width),
    ) {
        (false, north_index) if north_index != -1 => north_index - 1,
        _ => -1,
    }
}

/// The flat index of column `x` of row `y` in a grid `width` cells wide.
pub fn calculate_index_from_xy(x: usize, y: usize, width: usize, _height: usize) -> (index: usize)
    requires
        x + width * y <= usize::MAX,
    ensures
        index == x + width * y,
{
    x + width * y
}

/// Each cell of the grid has an index inside the grid, from which its column and row
/// are found again.
pub proof fn lemma_index_of_cell(x: int, y: int, height: int, width: int)
    requires
        valid_dimensions(height, width),
        in_grid(y, x, height, width),
    ensures
        0 <= x + width * y < height * width,
        (x + width * y) % width == x,
        (x + width * y) / width == y,
{
    assert(x + width * y == y * width + x) by (nonlinear_arith);
    lemma_cell_of_row_and_column(y, x, height, width);
}

/// The neighbour of the cell in column `x` of row `y` is the cell one step away in
/// column and row, or `-1` when that step leaves the grid.
pub proof fn lemma_neighbour_of_cell(x: int, y: int, height: int, width: int, d: Direction)
    requires
        valid_dimensions(height, width),
        in_grid(y, x, height, width),
    ensures
        neighbour_index(x + width * y, height, width, d) == if in_grid(
            y + d.row_step(),
            x + d.col_step(),
            height,
            width,
        ) {
            (x + d.col_step()) + width * (y + d.row_step())
        } else {
            -1
        },
{
    lemma_index_of_cell(x, y, height, width);
    let row = y + d.row_step();
    let col = x + d.col_step();
    assert(row * width + col == col + width * row) by (nonlinear_arith);
}

/// A step in one direction followed by a step in the opposite direction comes back
/// to the cell it started from, and every step that stays in the grid lands on a cell.
pub proof fn lemma_neighbour_round_trip(index: int, height: int, width: int, d: Direction)
    requires
        valid_dimensions(height, width),
        0 <= index < height * width,
        neighbour_index(index, height, width, d) != -1,
    ensures
        0 <= neighbour_index(index, height, width, d) < height * width,
        neighbour_index(neighbour_index(index, height, width, d), height, width, d.opposite())
            == index,
{
    lemma_row_and_column(index, height, width);
    let q = index / width;
    let r = index % width;
    let row = q + d.row_step();
    let col = r + d.col_step();
    assert(in_grid(row, col, height, width));
    lemma_cell_of_row_and_column(row, col, height, width);
    let n = row * width + col;
    assert(d.opposite().row_step() == -d.row_step() && d.opposite().col_step() == -d.col_step());
    assert(in_grid(row + d.opposite().row_step(), col + d.opposite().col_step(), height, width));
    assert(q * width + r == index);
}

/// The value of `index` read as a two's-complement `isize`.
pub open spec fn as_signed(index: usize) -> int {
    if index <= isize::MAX {
        index as int
    } else {
        index - usize::MAX - 1
    }
}

/// `index as isize`: the same bits read as a signed number.
fn usize_as_isize(index: usize) -> (r: isize)
    ensures
        r == as_signed(index),
{
    if index <= isize::MAX as usize {
        index as isize
    } else {
        -((usize::MAX - index) as isize) - 1
    }
}

/// Whether a neighbour lookup from `index` stays within `isize`: a west step from
/// `isize::MIN` or an east step from `isize::MAX` would overflow.
pub open spec fn step_fits(index: usize, d: Direction) -> bool {
    &&& (d is West ==> as_signed(index) != isize::MIN)
    &&& (d is East ==> as_signed(index) != isize::MAX)
}

/// The cell index that a matrix lookup of the neighbour of `index` in direction `d`
/// lands on, or `None` when it lands on no cell.
pub open spec fn matrix_neighbour(index: usize, height: int, width: int, d: Direction) -> Option<
    int,
> {
    let n = neighbour_index(as_signed(index), height, width, d);
    if 0 <= n < height * width {
        Some(n)
    } else {
        None
    }
}

/// Dimensions whose product is positive and fits in an `isize` each fit in an `isize`;
/// a zero product means a zero dimension.
proof fn lemma_dimensions_of_cells(height: usize, width: usize)
    requires
        height * width <= isize::MAX,
    ensures
        height * width > 0 ==> height <= isize::MAX && width <= isize::MAX,
        height * width == 0 ==> height == 0 || width == 0,
{
    assert(height * width > 0 ==> height <= height * width && width <= height * width)
        by (nonlinear_arith);
    assert(height * width == 0 ==> height == 0 || width == 0) by (nonlinear_arith);
}

/// Matrix dimensions read as `isize` are valid grid dimensions, and the neighbour
/// index they give is the one the unsigned dimensions give.
proof fn lemma_signed_dimensions(height: usize, width: usize, index: int, d: Direction)
    requires
        height * width <= isize::MAX,
    ensures
        valid_dimensions(as_signed(height), as_signed(width)),
        as_signed(height) * as_signed(width) == height * width,
        neighbour_index(index, as_signed(height), as_signed(width), d) == neighbour_index(
            index,
            height as int,
            width as int,
            d,
        ),
{
    lemma_dimensions_of_cells(height, width);
    if height * width == 0 {
        assert(as_signed(height) * as_signed(width) == 0) by (nonlinear_arith)
            requires
                as_signed(height) == 0 || as_signed(width) == 0,
        ;
    }
}

/// A `height` by `width` grid of cells, stored row by row.
pub struct Matrix2D<T> {
    cells: Vec<T>,
    width: usize,
    height: usize,
}

impl<T> View for Matrix2D<T> {
    type V = Seq<T>;

    /// The cells, row by row.
    closed spec fn view(&self) -> Seq<T> {
        self.cells@
    }
}

impl<T> Matrix2D<T> {
    /// Number of rows.
    pub closed spec fn spec_height(&self) -> int {
        self.height as int
    }

    /// Number of columns.
    pub closed spec fn spec_width(&self) -> int {
        self.width as int
    }

    /// One cell per row and column, and no more cells than an `isize` can count.
    pub closed spec fn well_formed(&self) -> bool {
        &&& self.cells@.len() == self.height * self.width
        &&& self.height * self.width <= isize::MAX
    }

    /// What `well_formed` says, in terms of the public view.
    pub proof fn lemma_well_formed(&self)
        requires
            self.well_formed(),
        ensures
            self@.len() == self.spec_height() * self.spec_width(),
            0 <= self.spec_height(),
            0 <= self.spec_width(),
            valid_dimensions(self.spec_height(), self.spec_width()),
            self@.len() > 0 ==> self.spec_height() <= isize::MAX && self.spec_width()
                <= isize::MAX,
    {
        lemma_dimensions_of_cells(self.height, self.width);
    }

    /// A matrix of `height` rows and `width` columns, every cell holding `fill`.
    pub fn new(height: usize, width: usize, fill: T) -> (matrix: Self)
        where
            T: Copy,
        requires
            height * width <= isize::MAX,
        ensures
            matrix.well_formed(),
            matrix.spec_height() == height,
            matrix.spec_width() == width,
            matrix@ == Seq::new((height * width) as nat, |i: int| fill),
    {
        let length = height * width;
        let mut cells: Vec<T> = Vec::new();
        let mut i: usize = 0;
        while i < length
            invariant
                i <= length,
                cells@.len() == i,
                forall|j: int| 0 <= j < i ==> cells@[j] == fill,
            decreases length - i,
        {
            cells.push(fill);
            i = i + 1;
        }
        proof {
            assert(cells@ == Seq::new((height * width) as nat, |i: int| fill));
        }
        Self { cells, height, width }
    }

    /// Number of rows.
    pub fn h(&self) -> (h: usize)
        ensures
            h == self.spec_height(),
    {
        self.height
    }

    /// Number of columns.
    pub fn w(&self) -> (w: usize)
        ensures
            w == self.spec_width(),
    {
        self.width
    }

    /// Number of cells.
    pub fn len(&self) -> (len: usize)
        ensures
            len == self@.len(),
    {
        self.cells.len()
    }

    /// The cell in column `x` of row `y`, found at index `x + width * y`; `None` past
    /// the last cell.
    pub fn get(&self, x: usize, y: usize) -> (cell: Option<&T>)
        requires
            self.well_formed(),
            x + self.spec_width() * y <= usize::MAX,
        ensures
            x + self.spec_width() * y < self@.len() ==> cell == Some(
                &self@[x + self.spec_width() * y],
            ),
            x + self.spec_width() * y >= self@.len() ==> cell is None,
    {
        let index = calculate_index_from_xy(x, y, self.width, self.height);
        self.get_by_index(index)
    }

    /// Mutable access to the cell in column `x` of row `y`, found at index
    /// `x + width * y`; `None` past the last cell.
    pub fn get_mut(&mut self, x: usize, y: usize) -> (cell: Option<&mut T>)
        requires
            old(self).well_formed(),
            x + old(self).spec_width() * y <= usize::MAX,
        ensures
            final(self).well_formed(),
            final(self).spec_height() == old(self).spec_height(),
            final(self).spec_width() == old(self).spec_width(),
            x + old(self).spec_width() * y < old(self)@.len() ==> {
                &&& cell is Some
                &&& *cell.unwrap() == old(self)@[x + old(self).spec_width() * y]
                &&& final(self)@ == old(self)@.update(
                    x + old(self).spec_width() * y,
                    *final(cell.unwrap()),
                )
            },
            x + old(self).spec_width() * y >= old(self)@.len() ==> cell is None && final(self)@
                == old(self)@,
    {
        let index = calculate_index_from_xy(x, y, self.width, self.height);
        self.get_mut_by_index(index)
    }

    /// The cell at flat index `index`; `None` past the last cell.
    pub fn get_by_index(&self, index: usize) -> (cell: Option<&T>)
        ensures
            index < self@.len() ==> cell == Some(&self@[index as int]),
            index >= self@.len() ==> cell is None,
    {
        if index < self.cells.len() {
            Some(&self.cells[index])
        } else {
            None
        }
    }

    /// Mutable access to the cell at flat index `index`; `None` past the last cell.
    pub fn get_mut_by_index(&mut self, index: usize) -> (cell: Option<&mut T>)
        requires
            old(self).well_formed(),
        ensures
            final(self).well_formed(),
            final(self).spec_height() == old(self).spec_height(),
            final(self).spec_width() == old(self).spec_width(),
            index < old(self)@.len() ==> {
                &&& cell is Some
                &&& *cell.unwrap() == old(self)@[index as int]
                &&& final(self)@ == old(self)@.update(index as int, *final(cell.unwrap()))
            },
            index >= old(self)@.len() ==> cell is None && final(self)@ == old(self)@,
    {
        if index < self.cells.len() {
            Some(&mut self.cells[index])
        } else {
            None
        }
    }
}

impl<T> Matrix2D<T> {
    /// The cells, row by row.
    pub fn iter(&self) -> (cells: std::slice::Iter<'_, T>)
        ensures
            vstd::std_specs::iter::IteratorSpec::remaining(&cells) == self@.as_ref(),
    {
        proof {
            broadcast use vstd::std_specs::slice::axiom_spec_slice_iter;
        }
        self.cells.iter()
    }

    /// Mutable access to the cells, row by row, as a slice: `iter_mut()` on it walks them.
    /// The number of cells cannot change through it.
    pub fn iter_mut(&mut self) -> (cells: &mut [T])
        requires
            old(self).well_formed(),
        ensures
            cells@ == old(self)@,
            final(self)@ == final(cells)@,
            final(self).spec_height() == old(self).spec_height(),
            final(self).spec_width() == old(self).spec_width(),
            final(cells)@.len() == old(self)@.len() ==> final(self).well_formed(),
    {
        self.cells.as_mut_slice()
    }
}

impl<T> Matrix2D<T> {
    /// The cell next to column `x` of row `y` in `direction`; `None` when `x` is past
    /// the width, `y` past the height, or the step lands on no cell.
    pub fn get_neighbouring_cell(&self, x: usize, y: usize, direction: Direction) -> (cell: Option<
        &T,
    >)
        requires
            self.well_formed(),
            x <= self.spec_width() && y <= self.spec_height() ==> step_fits(
                (x + self.spec_width() * y) as usize,
                direction,
            ),
        ensures
            x > self.spec_width() || y > self.spec_height() ==> cell is None,
            x <= self.spec_width() && y <= self.spec_height() ==> match matrix_neighbour(
                (x + self.spec_width() * y) as usize,
                self.spec_height(),
                self.spec_width(),
                direction,
            ) {
                Some(n) => cell == Some(&self@[n]),
                None => cell is None,
            },
    {
        if (x > self.width) || (y > self.height) {
            return None;
        }
        proof {
            lemma_dimensions_of_cells(self.height, self.width);
            assert(self.width * y <= self.width * self.height) by (nonlinear_arith)
                requires
                    y <= self.height,
            ;
            if self.height == 0 {
                assert(self.width * y == 0) by (nonlinear_arith)
                    requires
                        y == 0,
                ;
            } else if self.width == 0 {
                assert(self.width * y == 0);
            } else {
                assert(self.width * self.height > 0) by (nonlinear_arith)
                    requires
                        self.width > 0,
                        self.height > 0,
                ;
                assert(self.height * self.width == self.width * self.height) by (nonlinear_arith);
                assert(x + self.width * y <= usize::MAX);
            }
        }
        let index = calculate_index_from_xy(x, y, self.width, self.height);
        assert(index == (x + self.spec_width() * y) as usize);
        assert(step_fits(index, direction));
        match self.get_neighbour_index(index, direction) {
            Some(neighbour_index) => self.get_by_index(neighbour_index),
            None => None,
        }
    }

    /// Mutable access to the cell next to column `x` of row `y` in `direction`; `None`
    /// when the step lands on no cell.
    pub fn get_neighbouring_cell_mut(&mut self, x: usize, y: usize, direction: Direction) -> (cell:
        Option<&mut T>)
        requires
            old(self).well_formed(),
            x + old(self).spec_width() * y <= usize::MAX,
            step_fits((x + old(self).spec_width() * y) as usize, direction),
        ensures
            final(self).well_formed(),
            final(self).spec_height() == old(self).spec_height(),
            final(self).spec_width() == old(self).spec_width(),
            match matrix_neighbour(
                (x + old(self).spec_width() * y) as usize,
                old(self).spec_height(),
                old(self).spec_width(),
                direction,
            ) {
                Some(n) => {
                    &&& cell is Some
                    &&& *cell.unwrap() == old(self)@[n]
                    &&& final(self)@ == old(self)@.update(n, *final(cell.unwrap()))
                },
                None => cell is None && final(self)@ == old(self)@,
            },
    {
        let index = calculate_index_from_xy(x, y, self.width, self.height);
        match self.get_neighbour_index(index, direction) {
            Some(neighbour_index) => self.get_mut_by_index(neighbour_index),
            _ => None,
        }
    }

    /// The cell next to flat index `index` in `direction`; `None` when the step lands
    /// on no cell.
    pub fn get_neighbouring_cell_by_index(&self, index: usize, direction: Direction) -> (cell:
        Option<&T>)
        requires
            self.well_formed(),
            step_fits(index, direction),
        ensures
            match matrix_neighbour(index, self.spec_height(), self.spec_width(), direction) {
                Some(n) => cell == Some(&self@[n]),
                None => cell is None,
            },
    {
        match self.get_neighbour_index(index, direction) {
            Some(neighbour_index) => self.get_by_index(neighbour_index),
            _ => None,
        }
    }

    /// Mutable access to the cell next to flat index `index` in `direction`; `None`
    /// when the step lands on no cell.
    pub fn get_neighbouring_cell_mut_by_index(&mut self, index: usize, direction: Direction) -> (cell:
        Option<&mut T>)
        requires
            old(self).well_formed(),
            step_fits(index, direction),
        ensures
            final(self).well_formed(),
            final(self).spec_height() == old(self).spec_height(),
            final(self).spec_width() == old(self).spec_width(),
            match matrix_neighbour(index, old(self).spec_height(), old(self).spec_width(), direction) {
                Some(n) => {
                    &&& cell is Some
                    &&& *cell.unwrap() == old(self)@[n]
                    &&& final(self)@ == old(self)@.update(n, *final(cell.unwrap()))
                },
                None => cell is None && final(self)@ == old(self)@,
            },
    {
        match self.get_neighbour_index(index, direction) {
            Some(neighbour_index) => self.get_mut_by_index(neighbour_index),
            _ => None,
        }
    }

    /// The index next to `index` in `direction`, read with `isize` arithmetic; `None`
    /// when it is negative or past the number of cells (it may equal that number).
    fn get_neighbour_index(&self, index: usize, direction: Direction) -> (neighbour: Option<usize>)
        requires
            self.well_formed(),
            step_fits(index, direction),
        ensures
            ({
                let n = neighbour_index(
                    as_signed(index),
                    self.spec_height(),
                    self.spec_width(),
                    direction,
                );
                neighbour == if n < 0 || n > self@.len() {
                    None
                } else {
                    Some(n as usize)
                }
            }),
    {
        proof {
            lemma_signed_dimensions(self.height, self.width, as_signed(index), direction);
        }
        let index = usize_as_isize(index);
        let width = usize_as_isize(self.width);
        let height = usize_as_isize(self.height);

        let neighbour_index = match direction {
            Direction::NorthWest => index_to_the_northwest(index, height, width),
            Direction::North => index_to_the_north(index, height, width),
            Direction::NorthEast => index_to_the_northeast(index, height, width),
            Direction::West => index_to_the_west(index, height, width),
            Direction::East => index_to_the_east(index, height, width),
            Direction::SouthEast => index_to_the_southeast(index, height, width),
            Direction::South => index_to_the_south(index, height, width),
            Direction::SouthWest => index_to_the_southwest(index, height, width),
        };

        if neighbour_index < 0 || neighbour_index > self.cells.len() as isize {
            None
        } else {
            Some(neighbour_index as usize)
        }
    }
}

/// In a matrix, the neighbour of the cell in column `x` of row `y` is the cell one step
/// away in column and row, and there is none when that step leaves the grid.
pub proof fn lemma_matrix_neighbour_of_cell(
    x: int,
    y: int,
    height: int,
    width: int,
    d: Direction,
)
    requires
        valid_dimensions(height, width),
        in_grid(y, x, height, width),
    ensures
        matrix_neighbour((x + width * y) as usize, height, width, d) == if in_grid(
            y + d.row_step(),
            x + d.col_step(),
            height,
            width,
        ) {
            Some((x + d.col_step()) + width * (y + d.row_step()))
        } else {
            None::<int>
        },
{
    lemma_index_of_cell(x, y, height, width);
    lemma_neighbour_of_cell(x, y, height, width, d);
    let row = y + d.row_step();
    let col = x + d.col_step();
    if in_grid(row, col, height, width) {
        lemma_index_of_cell(col, row, height, width);
    }
}

/// In a matrix, cell `j` is the neighbour of cell `i` in direction `d` exactly when `i`
/// is the neighbour of `j` in the opposite direction.
pub proof fn lemma_matrix_neighbour_round_trip(
    i: usize,
    j: usize,
    height: int,
    width: int,
    d: Direction,
)
    requires
        valid_dimensions(height, width),
        i < height * width,
        j < height * width,
    ensures
        matrix_neighbour(i, height, width, d) == Some(j as int) <==> matrix_neighbour(
            j,
            height,
            width,
            d.opposite(),
        ) == Some(i as int),
{
    assert(d.opposite().opposite() == d);
    if matrix_neighbour(i, height, width, d) == Some(j as int) {
        lemma_neighbour_round_trip(i as int, height, width, d);
    }
    if matrix_neighbour(j, height, width, d.opposite()) == Some(i as int) {
        lemma_neighbour_round_trip(j as int, height, width, d.opposite());
    }
}

} // verus!
