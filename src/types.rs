use vstd::arithmetic::div_mod::{lemma_mod_add_multiples_vanish, lemma_mod_pos_bound, lemma_mod_self_0, lemma_small_mod};
use vstd::prelude::*;
use vstd::set_lib::{lemma_len_subset, lemma_set_disjoint_lens};

verus! {

/// The integer type of one coordinate axis.
pub type CoordType = u32;

/// Single coordinate.
#[derive(Debug, Clone, Copy, PartialEq, Eq, Structural, PartialOrd, Ord, Hash)]
pub struct Coord(pub CoordType);

/// A cell of the grid, or the size of the grid.
///
/// - 0-based when used as a coordinate
/// - 1-based when used as a size
#[derive(Debug, Clone, Copy, PartialEq, Eq, Structural)]
pub struct Pos {
    /// Coordinate on horizontal axis
    pub x: Coord,
    /// Coordinate on vertical axis
    pub y: Coord,
}

/// A direction of movement.
#[derive(Debug, Clone, Copy, PartialEq, Eq, Structural)]
pub enum MoveTo {
    Left,
    Right,
    Up,
    Down,
}

/// Builds a position from its two coordinates.
pub open spec fn pos(x: int, y: int) -> Pos {
    Pos { x: Coord(x as u32), y: Coord(y as u32) }
}

/// `p` lies inside the rectangle `[0, size.x) × [0, size.y)`.
pub open spec fn in_grid(p: Pos, size: Pos) -> bool {
    p.x.0 < size.x.0 && p.y.0 < size.y.0
}

/// A size usable as a grid: both sides at least one cell.
pub open spec fn valid_size(size: Pos) -> bool {
    size.x.0 >= 1 && size.y.0 >= 1
}

/// Number of cells of a grid of this size.
pub open spec fn area_of(size: Pos) -> nat {
    (size.x.0 * size.y.0) as nat
}

/// Component-wise sum, reduced modulo the rectangle `rect`.
pub open spec fn spec_wrapping_add(p: Pos, d: Pos, rect: Pos) -> Pos
    recommends
        valid_size(rect),
{
    pos((p.x.0 + d.x.0) % (rect.x.0 as int), (p.y.0 + d.y.0) % (rect.y.0 as int))
}

/// The unit step of a direction, encoded in unsigned coordinates: one step back
/// along an axis is `size - 1`, which wraps to `-1` modulo the size.
pub open spec fn unit_step(d: MoveTo, size: Pos) -> Pos {
    match d {
        MoveTo::Left => pos(size.x.0 - 1, 0),
        MoveTo::Right => pos(1, 0),
        MoveTo::Up => pos(0, size.y.0 - 1),
        MoveTo::Down => pos(0, 1),
    }
}

/// The cell reached from `p` by one step in direction `d` on a grid of `size`.
pub open spec fn next_cell(p: Pos, d: MoveTo, size: Pos) -> Pos {
    spec_wrapping_add(p, unit_step(d, size), size)
}

pub open spec fn spec_opposite(d: MoveTo) -> MoveTo {
    match d {
        MoveTo::Left => MoveTo::Right,
        MoveTo::Right => MoveTo::Left,
        MoveTo::Up => MoveTo::Down,
        MoveTo::Down => MoveTo::Up,
    }
}


/// Wraparound: a step inside the grid moves by exactly one cell, and a step off
/// any edge re-enters from the opposite edge in the same row or column.
pub proof fn lemma_wraparound(p: Pos, size: Pos)
    requires
        valid_size(size),
        in_grid(p, size),
    ensures
        next_cell(p, MoveTo::Left, size) == pos(
            if p.x.0 == 0 { size.x.0 - 1 } else { p.x.0 - 1 },
            p.y.0 as int,
        ),
        next_cell(p, MoveTo::Right, size) == pos(
            if p.x.0 == size.x.0 - 1 { 0 } else { p.x.0 + 1 },
            p.y.0 as int,
        ),
        next_cell(p, MoveTo::Up, size) == pos(
            p.x.0 as int,
            if p.y.0 == 0 { size.y.0 - 1 } else { p.y.0 - 1 },
        ),
        next_cell(p, MoveTo::Down, size) == pos(
            p.x.0 as int,
            if p.y.0 == size.y.0 - 1 { 0 } else { p.y.0 + 1 },
        ),
{
    lemma_step_back(p.x.0 as int, size.x.0 as int);
    lemma_step_back(p.y.0 as int, size.y.0 as int);
    lemma_step_forward(p.x.0 as int, size.x.0 as int);
    lemma_step_forward(p.y.0 as int, size.y.0 as int);
    lemma_small_mod(p.x.0 as nat, size.x.0 as nat);
    lemma_small_mod(p.y.0 as nat, size.y.0 as nat);
}

proof fn lemma_step_back(a: int, m: int)
    requires
        0 <= a < m,
    ensures
        (a + (m - 1)) % m == if a == 0 { m - 1 } else { a - 1 },
{
    if a == 0 {
        lemma_small_mod((m - 1) as nat, m as nat);
    } else {
        lemma_mod_add_multiples_vanish(a - 1, m);
        lemma_small_mod((a - 1) as nat, m as nat);
        assert(a + (m - 1) == m + (a - 1));
    }
}

proof fn lemma_step_forward(a: int, m: int)
    requires
        0 <= a < m,
    ensures
        (a + 1) % m == if a == m - 1 { 0 } else { a + 1 },
{
    if a == m - 1 {
        lemma_mod_self_0(m);
    } else {
        lemma_small_mod((a + 1) as nat, m as nat);
    }
}

/// A step from any cell of the grid stays on the grid.
pub proof fn lemma_next_cell_in_grid(p: Pos, d: MoveTo, size: Pos)
    requires
        valid_size(size),
    ensures
        in_grid(next_cell(p, d, size), size),
{
    let u = unit_step(d, size);
    lemma_mod_pos_bound(p.x.0 + u.x.0, size.x.0 as int);
    lemma_mod_pos_bound(p.y.0 + u.y.0, size.y.0 as int);
}

/// The set of all cells of a grid of `size`.
pub open spec fn grid_cells(size: Pos) -> Set<Pos> {
    Set::new(|p: Pos| in_grid(p, size))
}

spec fn row_prefix(w: int, y: int) -> Set<Pos> {
    Set::new(|p: Pos| p.x.0 < w && p.y.0 == y)
}

spec fn rows_prefix(w: int, h: int) -> Set<Pos> {
    Set::new(|p: Pos| p.x.0 < w && p.y.0 < h)
}

proof fn lemma_row_prefix_len(w: int, y: int)
    requires
        0 <= w <= u32::MAX + 1,
        0 <= y <= u32::MAX,
    ensures
        row_prefix(w, y).finite(),
        row_prefix(w, y).len() == w,
    decreases w,
{
    if w == 0 {
        assert(row_prefix(w, y) =~= Set::empty());
    } else {
        lemma_row_prefix_len(w - 1, y);
        assert(row_prefix(w, y) =~= row_prefix(w - 1, y).insert(pos(w - 1, y)));
    }
}

proof fn lemma_rows_prefix_len(w: int, h: int)
    requires
        0 <= w <= u32::MAX + 1,
        0 <= h <= u32::MAX + 1,
    ensures
        rows_prefix(w, h).finite(),
        rows_prefix(w, h).len() == w * h,
    decreases h,
{
    if h == 0 {
        assert(rows_prefix(w, h) =~= Set::empty());
    } else {
        lemma_rows_prefix_len(w, h - 1);
        lemma_row_prefix_len(w, h - 1);
        let a = rows_prefix(w, h - 1);
        let b = row_prefix(w, h - 1);
        assert(rows_prefix(w, h) =~= a + b);
        assert(a.disjoint(b));
        lemma_set_disjoint_lens(a, b);
        assert(w * (h - 1) + w == w * h) by (nonlinear_arith);
    }
}

/// A grid of `size` holds exactly `area_of(size)` cells.
pub proof fn lemma_grid_cells_len(size: Pos)
    ensures
        grid_cells(size).finite(),
        grid_cells(size).len() == area_of(size),
{
    lemma_rows_prefix_len(size.x.0 as int, size.y.0 as int);
    assert(grid_cells(size) =~= rows_prefix(size.x.0 as int, size.y.0 as int));
}

/// A sequence of distinct cells that covers every cell of the grid has at least
/// as many elements as the grid has cells.
pub proof fn lemma_cover_len(cells: Seq<Pos>, size: Pos)
    requires
        cells.no_duplicates(),
        forall|p: Pos| in_grid(p, size) ==> cells.contains(p),
    ensures
        cells.len() >= area_of(size),
{
    lemma_grid_cells_len(size);
    cells.unique_seq_to_set();
    assert(grid_cells(size).subset_of(cells.to_set()));
    lemma_len_subset(grid_cells(size), cells.to_set());
}

impl Pos {
    pub fn new(x: CoordType, y: CoordType) -> (r: Self)
        ensures
            r.x.0 == x,
            r.y.0 == y,
    {
        Self { x: Coord(x), y: Coord(y) }
    }

    pub fn new_coord(x: Coord, y: Coord) -> (r: Self)
        ensures
            r.x == x,
            r.y == y,
    {
        Self { x, y }
    }

    /// Add position with wrapping inside some rectangle.
    pub fn wrapping_add(self, rhs: Self, rect: Self) -> (r: Self)
        requires
            valid_size(rect),
        ensures
            r == spec_wrapping_add(self, rhs, rect),
            in_grid(r, rect),
    {
        let x = ((self.x.0 as u64 + rhs.x.0 as u64) % rect.x.0 as u64) as u32;
        let y = ((self.y.0 as u64 + rhs.y.0 as u64) % rect.y.0 as u64) as u32;
        Self::new(x, y)
    }

    /// `x * y`
    pub fn area(&self) -> (r: u64)
        ensures
            r == area_of(*self),
    {
        proof {
            vstd::arithmetic::mul::lemma_mul_upper_bound(
                self.x.0 as int,
                u32::MAX as int,
                self.y.0 as int,
                u32::MAX as int,
            );
        }
        self.x.0 as u64 * self.y.0 as u64
    }
}

impl MoveTo {
    pub fn opposite(&self) -> (r: Self)
        ensures
            r == spec_opposite(*self),
    {
        match self {
            Self::Left => Self::Right,
            Self::Right => Self::Left,
            Self::Up => Self::Down,
            Self::Down => Self::Up,
        }
    }
}

impl From<CoordType> for Coord {
    fn from(value: CoordType) -> (r: Self)
        ensures
            r.0 == value,
    {
        Coord(value)
    }
}

impl vstd::std_specs::convert::FromSpecImpl<CoordType> for Coord {
    open spec fn obeys_from_spec() -> bool {
        true
    }

    open spec fn from_spec(value: CoordType) -> Coord {
        Coord(value)
    }
}

impl From<(CoordType, CoordType)> for Pos {
    fn from(value: (CoordType, CoordType)) -> (r: Self)
        ensures
            r.x.0 == value.0,
            r.y.0 == value.1,
    {
        Pos::new(value.0, value.1)
    }
}

impl vstd::std_specs::convert::FromSpecImpl<(CoordType, CoordType)> for Pos {
    open spec fn obeys_from_spec() -> bool {
        true
    }

    open spec fn from_spec(value: (CoordType, CoordType)) -> Pos {
        pos(value.0 as int, value.1 as int)
    }
}

impl Default for MoveTo {
    fn default() -> (r: Self)
        ensures
            r == MoveTo::Right,
    {
        MoveTo::Right
    }
}

} // verus!
