use vstd::prelude::*;

verus! {

/// Width of the grid, in cells.
pub const GRID_WIDTH: i32 = 20;

/// Height of the grid, in cells.
pub const GRID_HEIGHT: i32 = 20;

/// Side of one cell, in pixels.
pub const CELL_SIZE: i32 = 30;

/// A cell of the grid: `x` counts columns from the left, `y` rows from the top.
#[derive(Clone, Copy, Debug, PartialEq, Eq, Structural)]
pub struct Cell {
    pub x: i32,
    pub y: i32,
}

/// The cell at column `x`, row `y`.
pub open spec fn cell(x: int, y: int) -> Cell {
    Cell { x: x as i32, y: y as i32 }
}

/// Number of playable cells along one side: the outermost ring of the
/// 20 by 20 grid is the wall.
pub open spec fn interior_side() -> int {
    GRID_WIDTH - 2
}

/// `c` is a playable cell: neither coordinate lies on the wall.
pub open spec fn in_interior(c: Cell) -> bool {
    1 <= c.x <= GRID_WIDTH - 2 && 1 <= c.y <= GRID_HEIGHT - 2
}

/// `c` lies on the grid, wall included.
pub open spec fn on_grid(c: Cell) -> bool {
    0 <= c.x <= GRID_WIDTH - 1 && 0 <= c.y <= GRID_HEIGHT - 1
}

/// The board as `get_grid` lists it: the playable cells column by column,
/// each column from top to bottom.
pub open spec fn spec_grid() -> Seq<Cell> {
    Seq::new((interior_side() * interior_side()) as nat, |k: int| cell(1 + k / interior_side(), 1 + k % interior_side()))
}

/// No cell occurs twice in `s`.
pub open spec fn no_duplicates(s: Seq<Cell>) -> bool {
    forall|i: int, j: int| 0 <= i < s.len() && 0 <= j < s.len() && i != j ==> s[i] != s[j]
}

pub struct Grid {}

impl Grid {
    /// Pixel offset of a grid coordinate.
    pub fn gridposition(pos: i32) -> (result: i32)
        requires
            i32::MIN <= pos * CELL_SIZE <= i32::MAX,
        ensures
            result == pos * CELL_SIZE,
    {
        pos * CELL_SIZE
    }

    /// All playable cells of the board, column by column.
    pub fn get_grid() -> (grid: Vec<Cell>)
        ensures
            grid@ == spec_grid(),
    {
        let mut grid: Vec<Cell> = Vec::new();
        let mut i: i32 = 1;
        while i < GRID_WIDTH - 1
            invariant
                1 <= i <= GRID_WIDTH - 1,
                grid@ == spec_grid().take((i - 1) * interior_side()),
            decreases GRID_WIDTH - 1 - i,
        {
            let mut j: i32 = 1;
            while j < GRID_HEIGHT - 1
                invariant
                    1 <= i < GRID_WIDTH - 1,
                    1 <= j <= GRID_HEIGHT - 1,
                    grid@ == spec_grid().take((i - 1) * interior_side() + (j - 1)),
                decreases GRID_HEIGHT - 1 - j,
            {
                proof {
                    let k = (i - 1) * interior_side() + (j - 1);
                    assert(k / 18 == i - 1 && k % 18 == j - 1) by (nonlinear_arith)
                        requires
                            k == (i - 1) * 18 + (j - 1),
                            0 <= j - 1 < 18,
                            0 <= i - 1;
                    assert(spec_grid()[k] == cell(i as int, j as int));
                    assert(spec_grid().take(k + 1) =~= spec_grid().take(k).push(cell(i as int, j as int)));
                }
                grid.push(Cell { x: i, y: j });
                j = j + 1;
            }
            i = i + 1;
        }
        assert(grid@ =~= spec_grid());
        grid
    }
}

/// The board has 18 times 18 cells.
pub proof fn lemma_grid_len()
    ensures
        spec_grid().len() == 324,
{
}

/// The board holds every playable cell, and only those.
pub proof fn lemma_grid_is_interior(c: Cell)
    ensures
        spec_grid().contains(c) <==> in_interior(c),
{
    assert(spec_grid().len() == 324);
    if in_interior(c) {
        let k = (c.x - 1) * 18 + (c.y - 1);
        assert(k / 18 == c.x - 1 && k % 18 == c.y - 1) by (nonlinear_arith)
            requires
                k == (c.x - 1) * 18 + (c.y - 1),
                0 <= c.y - 1 < 18,
                0 <= c.x - 1 < 18;
        assert(0 <= k < 324) by (nonlinear_arith)
            requires
                k == (c.x - 1) * 18 + (c.y - 1),
                0 <= c.y - 1 < 18,
                0 <= c.x - 1 < 18;
        assert(spec_grid()[k] == c);
    }
    if spec_grid().contains(c) {
        let k = choose|k: int| 0 <= k < spec_grid().len() && spec_grid()[k] == c;
        assert(0 <= k / 18 < 18 && 0 <= k % 18 < 18) by (nonlinear_arith)
            requires
                0 <= k < 324;
    }
}

/// No cell appears twice on the board.
pub proof fn lemma_grid_no_duplicates()
    ensures
        no_duplicates(spec_grid()),
{
    assert(spec_grid().len() == 324);
    assert forall|i: int, j: int|
        0 <= i < spec_grid().len() && 0 <= j < spec_grid().len() && i != j implies spec_grid()[i] != spec_grid()[j] by {
        assert(i / 18 != j / 18 || i % 18 != j % 18) by (nonlinear_arith)
            requires
                i != j,
                0 <= i,
                0 <= j;
        assert(0 <= i / 18 < 18 && 0 <= i % 18 < 18 && 0 <= j / 18 < 18 && 0 <= j % 18 < 18) by (nonlinear_arith)
            requires
                0 <= i < 324,
                0 <= j < 324;
    }
}

/// The board lists the playable cells column by column: it starts at the
/// top-left playable cell (1, 1), each next cell is the one below within a
/// column, and after the bottom cell (x, 18) comes the top of the next
/// column, (x + 1, 1).
pub proof fn lemma_grid_order(k: int)
    requires
        0 <= k < 323,
    ensures
        spec_grid()[0] == cell(1, 1),
        spec_grid()[k].y < 18 ==> spec_grid()[k + 1] == cell(spec_grid()[k].x as int, spec_grid()[k].y + 1),
        spec_grid()[k].y == 18 ==> spec_grid()[k + 1] == cell(spec_grid()[k].x + 1, 1),
{
    lemma_grid_len();
    assert(0 <= k / 18 < 18 && 0 <= k % 18 < 18) by (nonlinear_arith)
        requires
            0 <= k < 324;
    if k % 18 < 17 {
        assert((k + 1) / 18 == k / 18 && (k + 1) % 18 == k % 18 + 1) by (nonlinear_arith)
            requires
                0 <= k,
                k % 18 < 17;
    } else {
        assert((k + 1) / 18 == k / 18 + 1 && (k + 1) % 18 == 0) by (nonlinear_arith)
            requires
                0 <= k,
                k % 18 == 17;
    }
}

} // verus!
