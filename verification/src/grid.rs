//! Dense-grid evaluation of Conway's rule.
//!
//! A small rectangular grid of cells, evaluated cell by cell. This is the
//! brute-force reference against which the sparse stepper is compared: its
//! neighbor counter and rule function are specified with the same
//! `neighbor_count` and `conway_rule` that `World::progress_generation`'s
//! contract uses, and `conway::lemma_step_equals_bounded_scan` ties a
//! bounded scan to the sparse step.

use vstd::prelude::*;

use crate::conway::conway_rule;
use crate::conway::neighbor_count;

verus! {

/// One cell of a dense grid.
#[derive(Clone, Debug)]
pub enum Cell {
    /// The cell is alive.
    Alive,
    /// The cell is dead.
    Dead,
}

impl Cell {
    /// The opposite state.
    pub fn switch_state(&self) -> (r: Cell)
        ensures
            (r is Alive) == (*self is Dead),
    {
        match self {
            Cell::Alive => Cell::Dead,
            Cell::Dead => Cell::Alive,
        }
    }
}

/// The rows of a grid, as sequences.
pub open spec fn grid_view(cells: Seq<Vec<Cell>>) -> Seq<Seq<Cell>> {
    cells.map_values(|row: Vec<Cell>| row@)
}

/// Whether a grid has `height` rows of `width` cells each.
pub open spec fn grid_shaped(cells: Seq<Vec<Cell>>, width: u16, height: u16) -> bool {
    &&& cells.len() == height as int
    &&& forall|r: int| 0 <= r < cells.len() ==> (#[trigger] cells[r]@.len()) == width as int
}

/// The set of coordinates of alive cells of a grid, with `x` running along
/// a row and `y` down the rows.
pub open spec fn grid_alive(cells: Seq<Vec<Cell>>) -> Set<(int, int)> {
    Set::new(
        |p: (int, int)|
            0 <= p.1 < cells.len() && 0 <= p.0 < cells[p.1]@.len() && cells[p.1]@[p.0] is Alive,
    )
}

/// Whether the cell at `(x, y)` is inside the grid and alive.
fn alive_at(cells: &Vec<Vec<Cell>>, x: i64, y: i64) -> (r: bool)
    requires
        cells@.len() <= u16::MAX as int,
        forall|r: int| 0 <= r < cells@.len() ==> (#[trigger] cells@[r]@.len()) <= u16::MAX as int,
    ensures
        r == grid_alive(cells@).contains((x as int, y as int)),
{
    if y < 0 || y >= cells.len() as i64 {
        return false;
    }
    let row = &cells[y as usize];
    if x < 0 || x >= row.len() as i64 {
        return false;
    }
    match row[x as usize] {
        Cell::Alive => true,
        Cell::Dead => false,
    }
}

/// Counts the alive cells among the eight neighbors of `(abs_x, abs_y)`
/// that fall inside the grid.
pub fn count_alive_neighbors(
    cells: &Vec<Vec<Cell>>,
    width: u16,
    height: u16,
    abs_y: usize,
    abs_x: usize,
) -> (r: usize)
    requires
        grid_shaped(cells@, width, height),
        abs_x < width as usize,
        abs_y < height as usize,
    ensures
        r as int == neighbor_count(grid_alive(cells@), (abs_x as int, abs_y as int)),
        r <= 8,
{
    let x = abs_x as i64;
    let y = abs_y as i64;
    let mut count: usize = 0;
    if alive_at(cells, x - 1, y - 1) {
        count += 1;
    }
    if alive_at(cells, x, y - 1) {
        count += 1;
    }
    if alive_at(cells, x + 1, y - 1) {
        count += 1;
    }
    if alive_at(cells, x - 1, y) {
        count += 1;
    }
    if alive_at(cells, x + 1, y) {
        count += 1;
    }
    if alive_at(cells, x - 1, y + 1) {
        count += 1;
    }
    if alive_at(cells, x, y + 1) {
        count += 1;
    }
    if alive_at(cells, x + 1, y + 1) {
        count += 1;
    }
    count
}

/// Conway's rule on one cell: alive with two or three alive neighbors
/// survives, dead with exactly three is born, anything else is dead.
pub fn next_cell_state(cell: &Cell, alive_neighbor_count: usize) -> (r: Cell)
    ensures
        (r is Alive) == conway_rule(*cell is Alive, alive_neighbor_count as int),
{
    match cell {
        Cell::Alive if alive_neighbor_count == 2 || alive_neighbor_count == 3 => Cell::Alive,
        Cell::Dead if alive_neighbor_count == 3 => Cell::Alive,
        _ => Cell::Dead,
    }
}

/// A brute-force scan of a grid agrees with the sparse step of its alive
/// set: inside the grid's bounding box padded by one cell, the dense rule on
/// the dense neighbor count decides membership in the next generation, and
/// outside the padded box nothing is alive.
pub proof fn lemma_grid_scan_matches_step(cells: Seq<Vec<Cell>>, width: u16, height: u16)
    requires
        grid_shaped(cells, width, height),
    ensures
        forall|c: (int, int)|
            -1 <= c.0 <= width as int && -1 <= c.1 <= height as int ==> (
            #[trigger] crate::conway::step(grid_alive(cells)).contains(c) == conway_rule(
                grid_alive(cells).contains(c),
                neighbor_count(grid_alive(cells), c),
            )),
        forall|c: (int, int)|
            !(-1 <= c.0 <= width as int && -1 <= c.1 <= height as int) ==> !(
            #[trigger] crate::conway::step(grid_alive(cells)).contains(c)),
{
    assert(forall|a: (int, int)| #[trigger]
        grid_alive(cells).contains(a) ==> 0 <= a.0 <= width as int - 1 && 0 <= a.1 <= height as int
        - 1);
    crate::conway::lemma_step_equals_bounded_scan(
        grid_alive(cells),
        0,
        0,
        width as int - 1,
        height as int - 1,
    );
}

} // verus!
