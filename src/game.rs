use crate::field::{
    blank_row, cell, cells_wf, clear_pass, empty_block, is_full, lemma_clear_pass_keeps_cells_wf,
    lemma_clear_single_full_row, remove_row, row_sum, rows, Block, Direction, GameError, Grid, Row,
    PLAYGROUND_HEIGHT, PLAYGROUND_WIDTH,
};
use crate::shape::{decoded, lemma_set_bit_is_one, occupied};
use crate::tetromino::{fits_bounds, next_rotation, placement, spawn_point, Tetromino};
use vstd::prelude::*;

verus! {

/// A game session: the field, the falling piece, the preview of the next
/// one, the tick counter, the pause flag and the score.
pub struct Game {
    pub grid: Grid,
    pub current_tetromino: Tetromino,
    pub next_tetromino: Tetromino,
    pub paused: bool,
    pub score: u64,
    /// Ticks counted since the last gravity step.
    pub counter: u8,
    /// Set once a piece is blocked at the spawn row; the game is then over.
    pub game_over: bool,
}

/// The field `g` with piece `p` locked in: each cell under an occupied cell
/// of the piece becomes a locked cell of value 1 in the piece's colour.
pub open spec fn stamped(g: Seq<Seq<Block>>, p: Tetromino) -> Seq<Seq<Block>> {
    Seq::new(
        g.len(),
        |r: int|
            Seq::new(
                g[r].len(),
                |c: int|
                    if p.covers(r, c) {
                        Block { value: 1, color: Some(p.color) }
                    } else {
                        g[r][c]
                    },
            ),
    )
}

/// Rotates rows `0..=i` down by one place: row `i` comes to the top and the
/// rows below it stay.
fn rotate_rows_down(grid: &mut Grid, i: usize)
    requires
        i < PLAYGROUND_HEIGHT,
    ensures
        final(grid)@ == seq![old(grid)@[i as int]] + old(grid)@.subrange(0, i as int) + old(
            grid,
        )@.subrange(i + 1, PLAYGROUND_HEIGHT as int),
{
    let ghost h = grid@;
    let last = grid[i];
    let mut j: usize = i;
    while j > 0
        invariant
            j <= i < 16,
            h.len() == 16,
            grid@.len() == 16,
            last == h[i as int],
            forall|k: int| 0 <= k < j ==> #[trigger] grid@[k] == h[k],
            forall|k: int| j < k <= i ==> #[trigger] grid@[k] == h[k - 1],
            forall|k: int| i < k < 16 ==> #[trigger] grid@[k] == h[k],
        decreases j,
    {
        grid[j] = grid[j - 1];
        j -= 1;
    }
    grid[0] = last;
    assert(grid@ =~= seq![h[i as int]] + h.subrange(0, i as int) + h.subrange(i + 1, 16));
}

impl Game {
    /// `new` is `old` after one row-clearing pass: the field is compacted,
    /// the score grows by the width for each cleared row and the falling
    /// piece reads the new field.
    pub open spec fn cleared(old: Game, new: Game) -> bool {
        let (g, k) = clear_pass(rows(old.grid), PLAYGROUND_HEIGHT as nat);
        &&& rows(new.grid) == g
        &&& new.score == old.score + PLAYGROUND_WIDTH * k
        &&& new.current_tetromino == (Tetromino { grid: new.grid, ..old.current_tetromino })
        &&& new.next_tetromino == old.next_tetromino
        &&& new.paused == old.paused
        &&& new.counter == old.counter
        &&& new.game_over == old.game_over
    }

    /// The session invariant: both pieces are well formed and lie inside the
    /// field, the falling piece reads the session's field, the counter is
    /// below the gravity period and every cell has a colour exactly when it
    /// is occupied.
    pub open spec fn wf(self) -> bool {
        &&& self.current_tetromino.wf()
        &&& self.next_tetromino.wf()
        &&& self.current_tetromino.grid == self.grid
        &&& fits_bounds(
            self.current_tetromino.current_rotation,
            self.current_tetromino.topleft.y as int,
            self.current_tetromino.topleft.x as int,
        )
        &&& fits_bounds(
            self.next_tetromino.current_rotation,
            self.next_tetromino.topleft.y as int,
            self.next_tetromino.topleft.x as int,
        )
        &&& self.counter < 5
        &&& cells_wf(rows(self.grid))
    }

    /// `new` is `old` after one call of the gravity step, which returned `r`.
    /// After game over it is refused with `GameOver`, and while paused with
    /// `Paused`; either way nothing changes. Otherwise the counter advances; on its fifth tick it resets and the piece
    /// falls a row. A piece that cannot fall is locked into the field and
    /// the preview piece takes its place, unless it is blocked at or above
    /// the spawn row: then the game is over.
    pub open spec fn fell(old: Game, new: Game, r: Result<(), GameError>) -> bool {
        let p = old.current_tetromino;
        if old.game_over {
            r == Err::<(), GameError>(GameError::GameOver) && new == old
        } else if old.paused {
            r == Err::<(), GameError>(GameError::Paused) && new == old
        } else if old.counter + 1 < 5 {
            r == Ok::<(), GameError>(()) && new == (Game { counter: (old.counter + 1) as u8, ..old })
        } else if p.placement_at(p.topleft.y + 1, p.topleft.x as int) is Ok {
            r == Ok::<(), GameError>(()) && new == (Game {
                counter: 0,
                current_tetromino: p.moved_to(p.topleft.y + 1, p.topleft.x as int),
                ..old
            })
        } else if p.topleft.y <= 0 {
            r == Err::<(), GameError>(GameError::GameOver) && new == (Game {
                counter: 0,
                game_over: true,
                ..old
            })
        } else {
            &&& r == Ok::<(), GameError>(())
            &&& rows(new.grid) == stamped(rows(old.grid), p)
            &&& new.current_tetromino == (Tetromino { grid: new.grid, ..old.next_tetromino })
            &&& new.next_tetromino.wf()
            &&& new.next_tetromino.grid == new.grid
            &&& new.next_tetromino.topleft == spawn_point()
            &&& new.score == old.score
            &&& new.paused == old.paused
            &&& new.counter == 0
            &&& !new.game_over
        }
    }

    /// Whether commands are taken now: `GameOver` once the game has ended,
    /// `Paused` while paused.
    pub open spec fn status(self) -> Result<(), GameError> {
        if self.game_over {
            Err(GameError::GameOver)
        } else if self.paused {
            Err(GameError::Paused)
        } else {
            Ok(())
        }
    }

    /// `new` is `old` after the falling piece was offered the move to
    /// (`y`, `x`), with verdict `r`.
    pub open spec fn shifted(old: Game, new: Game, r: Result<(), GameError>, y: int, x: int) -> bool {
        &&& r == old.current_tetromino.placement_at(y, x)
        &&& r is Ok ==> new == (Game { current_tetromino: old.current_tetromino.moved_to(y, x), ..old })
        &&& r is Err ==> new == old
    }

    /// `new` is `old` after the falling piece was offered the next rotation
    /// in direction `d`, with verdict `r`.
    pub open spec fn turned(old: Game, new: Game, r: Result<(), GameError>, d: Direction) -> bool {
        let p = old.current_tetromino;
        let next = next_rotation(p.shape, p.current_rotation, d.offset());
        &&& r == placement(p.grid, next, p.topleft.y as int, p.topleft.x as int)
        &&& r is Ok ==> new == (Game {
            current_tetromino: Tetromino { current_rotation: next, ..p },
            ..old
        })
        &&& r is Err ==> new == old
    }

    /// A field of empty cells.
    pub fn create_grid() -> (r: Grid)
        ensures
            forall|i: int, j: int|
                0 <= i < PLAYGROUND_HEIGHT && 0 <= j < PLAYGROUND_WIDTH ==> #[trigger] cell(r, i, j)
                    == empty_block(),
    {
        [Game::create_empty_row();16]
    }

    /// A row of empty cells.
    pub fn create_empty_row() -> (r: Row)
        ensures
            r@ == blank_row(),
    {
        let r = [Block::new(0, None);10];
        assert(r@ =~= blank_row());
        r
    }

    /// Sum of the occupancy values of row `i`.
    fn sum_of_row(&self, i: usize) -> (r: u64)
        requires
            i < PLAYGROUND_HEIGHT,
        ensures
            r == row_sum(rows(self.grid)[i as int]),
    {
        let row = self.grid[i];
        let mut sum: u64 = 0;
        let mut c: usize = 0;
        while c < 10
            invariant
                c <= 10,
                row@.len() == 10,
                sum <= 255 * c,
                sum == row_sum(row@.subrange(0, c as int)),
            decreases 10 - c,
        {
            assert(row@.subrange(0, c + 1).drop_last() =~= row@.subrange(0, c as int));
            sum = sum + row[c].value as u64;
            c += 1;
        }
        assert(row@.subrange(0, 10) =~= row@);
        sum
    }

    /// Clears the full rows, scanning from the top: each full row is emptied
    /// and the rows from the top down to it are rotated down by one, so the
    /// emptied row comes to the top. Each cleared row scores the width.
    pub fn clear_rows(&mut self)
        requires
            old(self).score <= u64::MAX - PLAYGROUND_WIDTH * PLAYGROUND_HEIGHT,
        ensures
            Game::cleared(*old(self), *final(self)),
    {
        let ghost g0 = rows(self.grid);
        let ghost s0 = self.score;
        let mut i: usize = 0;
        while i < 16
            invariant
                i <= 16,
                rows(self.grid) == clear_pass(g0, i as nat).0,
                clear_pass(g0, i as nat).1 <= i,
                self.score == s0 + PLAYGROUND_WIDTH * clear_pass(g0, i as nat).1,
                s0 <= u64::MAX - PLAYGROUND_WIDTH * PLAYGROUND_HEIGHT,
                self.current_tetromino == old(self).current_tetromino,
                self.next_tetromino == old(self).next_tetromino,
                self.paused == old(self).paused,
                self.counter == old(self).counter,
                self.game_over == old(self).game_over,
            decreases 16 - i,
        {
            let ghost h = rows(self.grid);
            if self.sum_of_row(i) == PLAYGROUND_WIDTH as u64 {
                let row = Game::create_empty_row();
                self.grid[i] = row;
                rotate_rows_down(&mut self.grid, i);
                assert(rows(self.grid) =~= remove_row(h, i as int));
                self.score = self.score + PLAYGROUND_WIDTH as u64;
            }
            i += 1;
        }
        self.current_tetromino.grid = self.grid;
    }

    /// A new session: an empty field, a random falling piece and a random
    /// preview piece, both at the spawn point, score 0, not paused.
    pub fn new() -> (r: Game)
        ensures
            r.wf(),
            forall|i: int, j: int|
                0 <= i < PLAYGROUND_HEIGHT && 0 <= j < PLAYGROUND_WIDTH ==> #[trigger] cell(r.grid, i, j)
                    == empty_block(),
            r.current_tetromino.topleft == spawn_point(),
            r.next_tetromino.topleft == spawn_point(),
            r.next_tetromino.grid == r.grid,
            r.score == 0,
            r.counter == 0,
            !r.paused,
            !r.game_over,
    {
        let grid = Game::create_grid();
        assert forall|i: int, j: int|
            0 <= i < rows(grid).len() && 0 <= j < rows(grid)[i].len() implies (#[trigger] rows(
            grid,
        )[i][j]).wf() by {
            assert(cell(grid, i, j) == empty_block());
        }
        Game {
            current_tetromino: Tetromino::new(grid),
            next_tetromino: Tetromino::new(grid),
            grid,
            score: 0,
            counter: 0,
            paused: false,
            game_over: false,
        }
    }

    /// The gravity step, called once per frame: see `fell`.
    pub fn handle_falling(&mut self) -> (r: Result<(), GameError>)
        requires
            old(self).wf(),
        ensures
            final(self).wf(),
            Game::fell(*old(self), *final(self), r),
    {
        if self.game_over {
            return Err(GameError::GameOver);
        }
        if self.paused {
            return Err(GameError::Paused);
        }
        self.counter = self.counter + 1;
        if self.counter == 5 {
            self.counter = 0;
            if self.current_tetromino.move_down().is_err() {
                if self.land_tetromino().is_err() {
                    self.game_over = true;
                    return Err(GameError::GameOver);
                }
                self.current_tetromino = self.next_tetromino;
                self.current_tetromino.grid = self.grid;
                self.next_tetromino = Tetromino::new(self.grid);
            }
        }
        Ok(())
    }

    fn check_status(&self) -> (r: Result<(), GameError>)
        ensures
            r == self.status(),
    {
        if self.game_over {
            Err(GameError::GameOver)
        } else if self.paused {
            Err(GameError::Paused)
        } else {
            Ok(())
        }
    }

    /// One frame of the session: the gravity step, then, unless it ended the
    /// game, a row-clearing pass. Refused while paused or after game over.
    pub fn advance_tick(&mut self) -> (r: Result<(), GameError>)
        requires
            old(self).wf(),
            old(self).score <= u64::MAX - PLAYGROUND_WIDTH * PLAYGROUND_HEIGHT,
        ensures
            final(self).wf(),
            old(self).status() is Err ==> r == old(self).status() && *final(self) == *old(self),
            old(self).status() is Ok ==> exists|mid: Game|
                #[trigger] Game::fell(*old(self), mid, r) && (r is Err ==> *final(self) == mid) && (
                r is Ok ==> Game::cleared(mid, *final(self))),
    {
        let s = self.check_status();
        if s.is_err() {
            return s;
        }
        let r = self.handle_falling();
        let ghost mid = *self;
        if r.is_ok() {
            proof {
                lemma_clear_pass_keeps_cells_wf(rows(self.grid), PLAYGROUND_HEIGHT as nat);
            }
            self.clear_rows();
            assert(self.current_tetromino.grid == self.grid);
        }
        assert(Game::fell(*old(self), mid, r));
        r
    }

    /// Toggles the pause flag; nothing else changes.
    pub fn toggle_pause(&mut self)
        ensures
            *final(self) == (Game { paused: !old(self).paused, ..*old(self) }),
    {
        self.paused = !self.paused;
    }

    /// Moves the falling piece one column left.
    pub fn move_left(&mut self) -> (r: Result<(), GameError>)
        requires
            old(self).wf(),
        ensures
            final(self).wf(),
            old(self).status() is Err ==> r == old(self).status() && *final(self) == *old(self),
            old(self).status() is Ok ==> Game::shifted(
                *old(self),
                *final(self),
                r,
                old(self).current_tetromino.topleft.y as int,
                old(self).current_tetromino.topleft.x - 1,
            ),
    {
        let s = self.check_status();
        if s.is_err() {
            return s;
        }
        self.current_tetromino.move_sideways(Direction::Left)
    }

    /// Moves the falling piece one column right.
    pub fn move_right(&mut self) -> (r: Result<(), GameError>)
        requires
            old(self).wf(),
        ensures
            final(self).wf(),
            old(self).status() is Err ==> r == old(self).status() && *final(self) == *old(self),
            old(self).status() is Ok ==> Game::shifted(
                *old(self),
                *final(self),
                r,
                old(self).current_tetromino.topleft.y as int,
                old(self).current_tetromino.topleft.x + 1,
            ),
    {
        let s = self.check_status();
        if s.is_err() {
            return s;
        }
        self.current_tetromino.move_sideways(Direction::Right)
    }

    /// Moves the falling piece one row down.
    pub fn soft_drop(&mut self) -> (r: Result<(), GameError>)
        requires
            old(self).wf(),
        ensures
            final(self).wf(),
            old(self).status() is Err ==> r == old(self).status() && *final(self) == *old(self),
            old(self).status() is Ok ==> Game::shifted(
                *old(self),
                *final(self),
                r,
                old(self).current_tetromino.topleft.y + 1,
                old(self).current_tetromino.topleft.x as int,
            ),
    {
        let s = self.check_status();
        if s.is_err() {
            return s;
        }
        self.current_tetromino.move_down()
    }

    /// Drops the falling piece as far as it goes; it locks on a later tick.
    pub fn hard_drop(&mut self) -> (r: Result<(), GameError>)
        requires
            old(self).wf(),
        ensures
            final(self).wf(),
            old(self).status() is Err ==> r == old(self).status() && *final(self) == *old(self),
            old(self).status() is Ok ==> {
                let p = old(self).current_tetromino;
                let q = final(self).current_tetromino;
                &&& r is Ok
                &&& *final(self) == (Game {
                    current_tetromino: p.moved_to(q.topleft.y as int, p.topleft.x as int),
                    ..*old(self)
                })
                &&& p.topleft.y <= q.topleft.y
                &&& forall|k: int|
                    p.topleft.y < k <= q.topleft.y ==> #[trigger] p.placement_at(
                        k,
                        p.topleft.x as int,
                    ) is Ok
                &&& p.placement_at(q.topleft.y + 1, p.topleft.x as int) is Err
            },
    {
        let s = self.check_status();
        if s.is_err() {
            return s;
        }
        let ghost p = self.current_tetromino;
        self.current_tetromino.move_all_the_way_down();
        proof {
            if self.current_tetromino.topleft.y > p.topleft.y {
                assert(p.placement_at(self.current_tetromino.topleft.y as int, p.topleft.x as int) is Ok);
            }
        }
        Ok(())
    }

    /// Turns the falling piece to the previous rotation of its shape.
    pub fn rotate_left(&mut self) -> (r: Result<(), GameError>)
        requires
            old(self).wf(),
        ensures
            final(self).wf(),
            old(self).status() is Err ==> r == old(self).status() && *final(self) == *old(self),
            old(self).status() is Ok ==> Game::turned(*old(self), *final(self), r, Direction::Left),
    {
        let s = self.check_status();
        if s.is_err() {
            return s;
        }
        self.current_tetromino.rotate(Direction::Left)
    }

    /// Turns the falling piece to the next rotation of its shape.
    pub fn rotate_right(&mut self) -> (r: Result<(), GameError>)
        requires
            old(self).wf(),
        ensures
            final(self).wf(),
            old(self).status() is Err ==> r == old(self).status() && *final(self) == *old(self),
            old(self).status() is Ok ==> Game::turned(*old(self), *final(self), r, Direction::Right),
    {
        let s = self.check_status();
        if s.is_err() {
            return s;
        }
        self.current_tetromino.rotate(Direction::Right)
    }

    /// Locks the falling piece into the field, unless it stands at or above
    /// the spawn row, which ends the game.
    fn land_tetromino(&mut self) -> (r: Result<(), GameError>)
        requires
            fits_bounds(
                old(self).current_tetromino.current_rotation,
                old(self).current_tetromino.topleft.y as int,
                old(self).current_tetromino.topleft.x as int,
            ),
        ensures
            old(self).current_tetromino.topleft.y <= 0 ==> r == Err::<(), GameError>(
                GameError::GameOver,
            ) && *final(self) == *old(self),
            old(self).current_tetromino.topleft.y > 0 ==> r == Ok::<(), GameError>(()) && rows(
                final(self).grid,
            ) == stamped(rows(old(self).grid), old(self).current_tetromino) && *final(self) == (
            Game { grid: final(self).grid, ..*old(self) }),
    {
        if self.current_tetromino.topleft.y <= 0 {
            return Err(GameError::GameOver);
        }
        let t = self.current_tetromino;
        let ghost g0 = self.grid;
        let ghost y0 = t.topleft.y as int;
        let ghost x0 = t.topleft.x as int;
        let m = t.shape.to_vec(t.current_rotation);
        let mut r: usize = 0;
        while r < 4
            invariant
                r <= 4,
                t == old(self).current_tetromino,
                y0 == t.topleft.y,
                x0 == t.topleft.x,
                fits_bounds(t.current_rotation, y0, x0),
                m@.len() == 4,
                forall|i: int| 0 <= i < 4 ==> (#[trigger] m@[i])@ == decoded(t.current_rotation)[i],
                *self == (Game { grid: self.grid, ..*old(self) }),
                forall|i: int, j: int|
                    0 <= i < 16 && 0 <= j < 10 ==> #[trigger] cell(self.grid, i, j) == if t.covers(
                        i,
                        j,
                    ) && i - y0 < r {
                        Block { value: 1, color: Some(t.color) }
                    } else {
                        cell(g0, i, j)
                    },
            decreases 4 - r,
        {
            let mut c: usize = 0;
            while c < 4
                invariant
                    r < 4,
                    c <= 4,
                    t == old(self).current_tetromino,
                    y0 == t.topleft.y,
                    x0 == t.topleft.x,
                    fits_bounds(t.current_rotation, y0, x0),
                    m@.len() == 4,
                    forall|i: int| 0 <= i < 4 ==> (#[trigger] m@[i])@ == decoded(t.current_rotation)[i],
                    *self == (Game { grid: self.grid, ..*old(self) }),
                    forall|i: int, j: int|
                        0 <= i < 16 && 0 <= j < 10 ==> #[trigger] cell(self.grid, i, j) == if t.covers(
                            i,
                            j,
                        ) && (i - y0 < r || (i - y0 == r && j - x0 < c)) {
                            Block { value: 1, color: Some(t.color) }
                        } else {
                            cell(g0, i, j)
                        },
                decreases 4 - c,
            {
                assert(m@[r as int]@[c as int] == decoded(t.current_rotation)[r as int][c as int]);
                let v = m[r][c];
                if v != 0 {
                    proof {
                        assert(occupied(t.current_rotation, r as int, c as int));
                        lemma_set_bit_is_one(t.current_rotation, 4 * r + c);
                    }
                    let row = (r as i32 + t.topleft.y) as usize;
                    let col = (c as i32 + t.topleft.x) as usize;
                    let ghost before = self.grid;
                    let mut line = self.grid[row];
                    line[col] = Block { value: v as u8, color: Some(t.color) };
                    self.grid[row] = line;
                    assert forall|i: int, j: int|
                        0 <= i < 16 && 0 <= j < 10 && !(i == row && j == col) implies #[trigger] cell(
                            self.grid,
                            i,
                            j,
                        ) == cell(before, i, j) by {
                        if i != row {
                            assert(self.grid@[i] == before@[i]);
                        }
                    }
                    assert(cell(self.grid, row as int, col as int) == Block {
                        value: 1,
                        color: Some(t.color),
                    });
                } else {
                    assert(!occupied(t.current_rotation, r as int, c as int));
                }
                c += 1;
            }
            r += 1;
        }
        assert forall|i: int| 0 <= i < 16 implies #[trigger] rows(self.grid)[i] =~= stamped(
            rows(g0),
            t,
        )[i] by {
            assert forall|j: int| 0 <= j < 10 implies rows(self.grid)[i][j] == stamped(
                rows(g0),
                t,
            )[i][j] by {
                assert(rows(g0)[i] == g0@[i]@);
                assert(t.covers(i, j) ==> i - y0 < 4);
                assert(cell(self.grid, i, j) == (if t.covers(i, j) {
                    Block { value: 1, color: Some(t.color) }
                } else {
                    cell(g0, i, j)
                }));
            }
        }
        assert(rows(self.grid) =~= stamped(rows(g0), t));
        Ok(())
    }
}


/// A clearing pass over a field whose row `i` has every cell locked with
/// value 1, and whose other rows are not full, removes that row (the rows
/// above move down by one, the rows below stay) and adds exactly the width
/// to the score.
pub proof fn lemma_clearing_one_full_row(old: Game, new: Game, i: int)
    requires
        0 <= i < PLAYGROUND_HEIGHT,
        forall|c: int| 0 <= c < PLAYGROUND_WIDTH ==> (#[trigger] cell(old.grid, i, c)).value == 1,
        forall|j: int|
            0 <= j < PLAYGROUND_HEIGHT && j != i ==> !is_full(#[trigger] rows(old.grid)[j]),
        Game::cleared(old, new),
    ensures
        rows(new.grid) == remove_row(rows(old.grid), i),
        new.score == old.score + PLAYGROUND_WIDTH,
{
    let g = rows(old.grid);
    assert forall|c: int| 0 <= c < PLAYGROUND_WIDTH implies (#[trigger] g[i][c]).value == 1 by {
        assert(cell(old.grid, i, c) == g[i][c]);
    }
    lemma_clear_single_full_row(g, i);
}

/// A gravity step of a running, unpaused session that finds the falling
/// piece blocked directly below while its box stands at or above the spawn
/// row ends the game: it reports
/// `GameOver`, and from then on every command and every later step is
/// refused with `GameOver` and changes nothing.
pub proof fn lemma_blocked_at_spawn_ends_game(old: Game, new: Game, r: Result<(), GameError>)
    requires
        !old.game_over,
        !old.paused,
        old.counter == 4,
        old.current_tetromino.placement_at(
            old.current_tetromino.topleft.y + 1,
            old.current_tetromino.topleft.x as int,
        ) is Err,
        old.current_tetromino.topleft.y <= 0,
        Game::fell(old, new, r),
    ensures
        r == Err::<(), GameError>(GameError::GameOver),
        new.game_over,
        new.status() == Err::<(), GameError>(GameError::GameOver),
        forall|later: Game, r2: Result<(), GameError>|
            #[trigger] Game::fell(new, later, r2) ==> r2 == Err::<(), GameError>(GameError::GameOver)
                && later == new,
{
}

} // verus!
