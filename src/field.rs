use crate::shape::Color;
use vstd::prelude::*;

verus! {

/// Number of columns of the playing field.
pub const PLAYGROUND_WIDTH: i32 = 10;

/// Number of rows of the playing field.
pub const PLAYGROUND_HEIGHT: i32 = 16;

/// One cell of the field: `value` 0 is empty, anything else is locked.
#[derive(Clone, Copy, Debug, PartialEq, Eq, Structural)]
pub struct Block {
    pub value: u8,
    pub color: Option<Color>,
}

impl Block {
    /// A cell is well formed when it carries a colour exactly when it is occupied.
    pub open spec fn wf(self) -> bool {
        self.color.is_some() == (self.value != 0)
    }

    pub fn new(value: u8, color: Option<Color>) -> (r: Block)
        ensures
            r.value == value,
            r.color == color,
    {
        Block { value, color }
    }
}

/// One row of the field, left to right.
pub type Row = [Block; 10];

/// The field, top row first.
pub type Grid = [Row; 16];

pub open spec fn empty_block() -> Block {
    Block { value: 0, color: None }
}

/// Cell (`r`, `c`) of the field.
pub open spec fn cell(grid: Grid, r: int, c: int) -> Block {
    grid@[r]@[c]
}

/// Whether (`r`, `c`) names a cell of the field.
pub open spec fn inside(r: int, c: int) -> bool {
    0 <= r < PLAYGROUND_HEIGHT && 0 <= c < PLAYGROUND_WIDTH
}

/// Sideways step; also the step through a shape's rotation list.
#[derive(Clone, Copy, Debug, PartialEq, Eq, Structural)]
pub enum Direction {
    Left,
    Right,
}

impl Direction {
    pub open spec fn offset(self) -> int {
        match self {
            Direction::Left => -1,
            Direction::Right => 1,
        }
    }

    /// -1 for `Left`, +1 for `Right`.
    pub fn delta(&self) -> (r: i32)
        ensures
            r == self.offset(),
    {
        match self {
            Direction::Left => -1,
            Direction::Right => 1,
        }
    }
}

/// A field position: `y` is the row, `x` the column.
#[derive(Clone, Copy, Debug, PartialEq, Eq, Structural)]
pub struct Coord {
    pub y: i32,
    pub x: i32,
}

/// Why a command was refused.
#[derive(Clone, Copy, Debug, PartialEq, Eq, Structural)]
pub enum GameError {
    /// A cell of the piece would leave the field.
    OutOfBounds,
    /// A cell of the piece would overlap a locked cell.
    Collision,
    /// The piece was blocked at or above the spawn row; the game is over.
    GameOver,
    /// The game is paused.
    Paused,
}

/// The field as rows of cells, top row first.
pub open spec fn rows(grid: Grid) -> Seq<Seq<Block>> {
    grid@.map_values(|row: Row| row@)
}

/// A row of empty cells.
pub open spec fn blank_row() -> Seq<Block> {
    Seq::new(PLAYGROUND_WIDTH as nat, |c: int| empty_block())
}

/// Sum of the occupancy values of a row.
pub open spec fn row_sum(row: Seq<Block>) -> int
    decreases row.len(),
{
    if row.len() == 0 {
        0
    } else {
        row_sum(row.drop_last()) + row.last().value
    }
}

/// A row is full when its occupancy values add up to the field's width.
pub open spec fn is_full(row: Seq<Block>) -> bool {
    row_sum(row) == PLAYGROUND_WIDTH
}

/// Clears row `i` of `g`: every row above it moves down by one and an empty
/// row comes in at the top; the rows below stay where they are.
pub open spec fn remove_row(g: Seq<Seq<Block>>, i: int) -> Seq<Seq<Block>> {
    seq![blank_row()] + g.subrange(0, i) + g.subrange(i + 1, g.len() as int)
}

/// Scans the first `n` rows top to bottom, clearing each full one as it is
/// met; gives the field and the number of rows cleared.
pub open spec fn clear_pass(g: Seq<Seq<Block>>, n: nat) -> (Seq<Seq<Block>>, nat)
    decreases n,
{
    if n == 0 {
        (g, 0)
    } else {
        let (h, k) = clear_pass(g, (n - 1) as nat);
        if is_full(h[n - 1]) {
            (remove_row(h, n - 1), k + 1)
        } else {
            (h, k)
        }
    }
}

/// Every cell of `g` is well formed.
pub open spec fn cells_wf(g: Seq<Seq<Block>>) -> bool {
    forall|r: int, c: int| 0 <= r < g.len() && 0 <= c < g[r].len() ==> (#[trigger] g[r][c]).wf()
}

/// A clearing pass keeps the number of rows and the cells well formed.
pub proof fn lemma_clear_pass_keeps_cells_wf(g: Seq<Seq<Block>>, n: nat)
    requires
        cells_wf(g),
        n <= g.len(),
    ensures
        clear_pass(g, n).0.len() == g.len(),
        cells_wf(clear_pass(g, n).0),
    decreases n,
{
    if n > 0 {
        lemma_clear_pass_keeps_cells_wf(g, (n - 1) as nat);
        let h = clear_pass(g, (n - 1) as nat).0;
        let i = n - 1;
        let e = remove_row(h, i);
        assert forall|r: int, c: int| 0 <= r < e.len() && 0 <= c < e[r].len() implies (
        #[trigger] e[r][c]).wf() by {
            if r == 0 {
                assert(e[r] == blank_row());
            } else if r <= i {
                assert(e[r] == h[r - 1]);
            } else {
                assert(e[r] == h[r]);
            }
        }
    }
}

/// A row whose cells all hold value 1 sums to its length.
proof fn lemma_row_of_ones(row: Seq<Block>)
    requires
        forall|c: int| 0 <= c < row.len() ==> (#[trigger] row[c]).value == 1,
    ensures
        row_sum(row) == row.len(),
    decreases row.len(),
{
    if row.len() > 0 {
        lemma_row_of_ones(row.drop_last());
    }
}

/// Scanning rows that are not full changes nothing.
proof fn lemma_pass_over_partial_rows(g: Seq<Seq<Block>>, n: nat)
    requires
        n <= g.len(),
        forall|j: int| 0 <= j < n ==> !is_full(#[trigger] g[j]),
    ensures
        clear_pass(g, n) == (g, 0nat),
    decreases n,
{
    if n > 0 {
        lemma_pass_over_partial_rows(g, (n - 1) as nat);
    }
}

/// Clearing a field whose row `i` has every cell locked with value 1, and
/// whose other rows are not full, removes that row: the rows above it move
/// down by one, an empty row comes in at the top, the rows below it stay,
/// and one row is counted.
pub proof fn lemma_clear_single_full_row(g: Seq<Seq<Block>>, i: int)
    requires
        g.len() == PLAYGROUND_HEIGHT,
        0 <= i < PLAYGROUND_HEIGHT,
        g[i].len() == PLAYGROUND_WIDTH,
        forall|c: int| 0 <= c < PLAYGROUND_WIDTH ==> (#[trigger] g[i][c]).value == 1,
        forall|j: int| 0 <= j < PLAYGROUND_HEIGHT && j != i ==> !is_full(#[trigger] g[j]),
    ensures
        clear_pass(g, PLAYGROUND_HEIGHT as nat) == (remove_row(g, i), 1nat),
        remove_row(g, i)[0] == blank_row(),
        forall|j: int| 0 < j <= i ==> #[trigger] remove_row(g, i)[j] == g[j - 1],
        forall|j: int| i < j < PLAYGROUND_HEIGHT ==> #[trigger] remove_row(g, i)[j] == g[j],
{
    lemma_row_of_ones(g[i]);
    lemma_pass_after_removal(g, i, PLAYGROUND_HEIGHT as nat);
}

/// Once full row `i` is removed, the rows below it are not full and the pass
/// leaves them alone.
proof fn lemma_pass_after_removal(g: Seq<Seq<Block>>, i: int, n: nat)
    requires
        g.len() == PLAYGROUND_HEIGHT,
        0 <= i < n <= PLAYGROUND_HEIGHT,
        is_full(g[i]),
        forall|j: int| 0 <= j < PLAYGROUND_HEIGHT && j != i ==> !is_full(#[trigger] g[j]),
    ensures
        clear_pass(g, n) == (remove_row(g, i), 1nat),
    decreases n,
{
    if n == i + 1 {
        lemma_pass_over_partial_rows(g, i as nat);
    } else {
        lemma_pass_after_removal(g, i, (n - 1) as nat);
        assert(remove_row(g, i)[n - 1] == g[n - 1]);
    }
}

} // verus!
