use crate::field::{
    cell, inside, Coord, Direction, GameError, Grid, PLAYGROUND_HEIGHT, PLAYGROUND_WIDTH,
};
use crate::shape::{decoded, occupied, Color, Rotation, Shape};
use rand::seq::SliceRandom;
use rand::Rng;
use vstd::prelude::*;

verus! {

/// Whether every occupied cell of `rotation`, placed with its 4x4 box's top
/// left corner at (`y`, `x`), lies inside the field.
pub open spec fn fits_bounds(rotation: Rotation, y: int, x: int) -> bool {
    forall|r: int, c: int|
        0 <= r < 4 && 0 <= c < 4 && #[trigger] occupied(rotation, r, c) ==> inside(y + r, x + c)
}

/// Whether some occupied cell of `rotation` at (`y`, `x`) lands on a locked
/// cell of `grid`.
pub open spec fn overlaps(grid: Grid, rotation: Rotation, y: int, x: int) -> bool {
    exists|r: int, c: int|
        0 <= r < 4 && 0 <= c < 4 && #[trigger] occupied(rotation, r, c) && inside(y + r, x + c)
            && cell(grid, y + r, x + c).value != 0
}

/// The verdict on placing `rotation` at (`y`, `x`): bounds are checked first,
/// then locked cells.
pub open spec fn placement(grid: Grid, rotation: Rotation, y: int, x: int) -> Result<
    (),
    GameError,
> {
    if !fits_bounds(rotation, y, x) {
        Err(GameError::OutOfBounds)
    } else if overlaps(grid, rotation, y, x) {
        Err(GameError::Collision)
    } else {
        Ok(())
    }
}

/// Checks a placement of `rotation` at (`y`, `x`) against `grid`.
fn check_placement(grid: &Grid, shape: Shape, rotation: Rotation, y: i64, x: i64) -> (r: Result<
    (),
    GameError,
>)
    requires
        i32::MIN <= y <= i32::MAX + 1,
        i32::MIN - 1 <= x <= i32::MAX + 1,
    ensures
        r == placement(*grid, rotation, y as int, x as int),
{
    let m = shape.to_vec(rotation);
    let mut r: usize = 0;
    while r < 4
        invariant
            r <= 4,
            m@.len() == 4,
            i32::MIN <= y <= i32::MAX + 1,
            i32::MIN - 1 <= x <= i32::MAX + 1,
            forall|i: int| 0 <= i < 4 ==> (#[trigger] m@[i])@ == decoded(rotation)[i],
            forall|r2: int, c2: int|
                0 <= r2 < r && 0 <= c2 < 4 && #[trigger] occupied(rotation, r2, c2) ==> inside(
                    y + r2,
                    x + c2,
                ),
        decreases 4 - r,
    {
        let mut c: usize = 0;
        while c < 4
            invariant
                r < 4,
                c <= 4,
                m@.len() == 4,
                i32::MIN <= y <= i32::MAX + 1,
                i32::MIN - 1 <= x <= i32::MAX + 1,
                forall|i: int| 0 <= i < 4 ==> (#[trigger] m@[i])@ == decoded(rotation)[i],
                forall|r2: int, c2: int|
                    0 <= r2 < r && 0 <= c2 < 4 && #[trigger] occupied(rotation, r2, c2) ==> inside(
                        y + r2,
                        x + c2,
                    ),
                forall|c2: int|
                    0 <= c2 < c && #[trigger] occupied(rotation, r as int, c2) ==> inside(
                        y + r,
                        x + c2,
                    ),
            decreases 4 - c,
        {
            assert(m@[r as int]@[c as int] == decoded(rotation)[r as int][c as int]);
            if m[r][c] != 0 {
                let row = y + r as i64;
                let col = x + c as i64;
                if !(0 <= row && row < PLAYGROUND_HEIGHT as i64 && 0 <= col && col
                    < PLAYGROUND_WIDTH as i64) {
                    assert(occupied(rotation, r as int, c as int));
                    return Err(GameError::OutOfBounds);
                }
            }
            c += 1;
        }
        r += 1;
    }
    let mut r: usize = 0;
    while r < 4
        invariant
            r <= 4,
            m@.len() == 4,
            i32::MIN <= y <= i32::MAX + 1,
            i32::MIN - 1 <= x <= i32::MAX + 1,
            forall|i: int| 0 <= i < 4 ==> (#[trigger] m@[i])@ == decoded(rotation)[i],
            fits_bounds(rotation, y as int, x as int),
            forall|r2: int, c2: int|
                0 <= r2 < r && 0 <= c2 < 4 && #[trigger] occupied(rotation, r2, c2) ==> cell(
                    *grid,
                    y + r2,
                    x + c2,
                ).value == 0,
        decreases 4 - r,
    {
        let mut c: usize = 0;
        while c < 4
            invariant
                r < 4,
                c <= 4,
                m@.len() == 4,
                i32::MIN <= y <= i32::MAX + 1,
                i32::MIN - 1 <= x <= i32::MAX + 1,
                forall|i: int| 0 <= i < 4 ==> (#[trigger] m@[i])@ == decoded(rotation)[i],
                fits_bounds(rotation, y as int, x as int),
                forall|r2: int, c2: int|
                    0 <= r2 < r && 0 <= c2 < 4 && #[trigger] occupied(rotation, r2, c2) ==> cell(
                        *grid,
                        y + r2,
                        x + c2,
                    ).value == 0,
                forall|c2: int|
                    0 <= c2 < c && #[trigger] occupied(rotation, r as int, c2) ==> cell(
                        *grid,
                        y + r,
                        x + c2,
                    ).value == 0,
            decreases 4 - c,
        {
            assert(m@[r as int]@[c as int] == decoded(rotation)[r as int][c as int]);
            if m[r][c] != 0 {
                assert(occupied(rotation, r as int, c as int));
                let row = (y + r as i64) as usize;
                let col = (x + c as i64) as usize;
                if grid[row][col].value != 0 {
                    return Err(GameError::Collision);
                }
            }
            c += 1;
        }
        r += 1;
    }
    Ok(())
}

/// Every legal rotation of a shape occupies at least one cell.
proof fn lemma_legal_rotation_has_cell(shape: Shape, rotation: Rotation)
    requires
        shape.rotations().contains(rotation),
    ensures
        exists|r: int, c: int| 0 <= r < 4 && 0 <= c < 4 && #[trigger] occupied(rotation, r, c),
{
    assert(((51u16 >> 0u16) & 1u16) == 1u16 && ((561u16 >> 0u16) & 1u16) == 1u16 && ((99u16
        >> 0u16) & 1u16) == 1u16 && ((275u16 >> 0u16) & 1u16) == 1u16 && ((71u16 >> 0u16) & 1u16)
        == 1u16 && ((113u16 >> 0u16) & 1u16) == 1u16 && ((547u16 >> 0u16) & 1u16) == 1u16 && ((
    785u16 >> 0u16) & 1u16) == 1u16 && ((23u16 >> 0u16) & 1u16) == 1u16 && ((305u16 >> 0u16)
        & 1u16) == 1u16 && ((39u16 >> 0u16) & 1u16) == 1u16 && ((8738u16 >> 1u16) & 1u16) == 1u16
        && ((306u16 >> 1u16) & 1u16) == 1u16 && ((802u16 >> 1u16) & 1u16) == 1u16 && ((114u16
        >> 1u16) & 1u16) == 1u16 && ((562u16 >> 1u16) & 1u16) == 1u16 && ((54u16 >> 2u16) & 1u16)
        == 1u16 && ((116u16 >> 2u16) & 1u16) == 1u16 && ((240u16 >> 7u16) & 1u16) == 1u16)
        by (bit_vector);
    let rs = shape.rotations();
    let i = choose|i: int| 0 <= i < rs.len() && rs[i] == rotation;
    if rotation == 8738 || rotation == 306 || rotation == 802 || rotation == 114 || rotation
        == 562 {
        assert(occupied(rotation, 3, 2));
    } else if rotation == 54 || rotation == 116 {
        assert(occupied(rotation, 3, 1));
    } else if rotation == 240 {
        assert(occupied(rotation, 2, 0));
    } else {
        assert(occupied(rotation, 3, 3));
    }
}

/// The rotation that follows `rotation` when stepping `d` places through
/// the shape's rotation list, cyclically in both directions.
pub open spec fn next_rotation(shape: Shape, rotation: Rotation, d: int) -> Rotation {
    let rs = shape.rotations();
    rs[(rs.index_of(rotation) + d) % (rs.len() as int)]
}

/// No shape lists a rotation twice.
pub proof fn lemma_rotations_distinct(shape: Shape)
    ensures
        shape.rotations().no_duplicates(),
        1 <= shape.rotations().len() <= 4,
{
    let rs = shape.rotations();
    assert forall|i: int, j: int| 0 <= i < rs.len() && 0 <= j < rs.len() && i != j implies rs[i]
        != rs[j] by {
        match shape {
            Shape::O => {},
            Shape::I => {},
            Shape::S => {},
            Shape::Z => {},
            Shape::J => {},
            Shape::L => {},
            Shape::T => {},
        }
    }
}

/// The position of a shape's rotation in its list is the one it is listed at.
pub proof fn lemma_rotation_index(shape: Shape, j: int)
    requires
        0 <= j < shape.rotations().len(),
    ensures
        shape.rotations().index_of(shape.rotations()[j]) == j,
{
    let rs = shape.rotations();
    lemma_rotations_distinct(shape);
    assert(rs.contains(rs[j]));
}

/// Relies on rand::Rng::gen_range over rand::thread_rng: the value drawn
/// lies in the inclusive range 0..=6. (rand::thread_rng panics only when the
/// operating system's random source cannot be read.)
#[verifier::external_body]
fn random_shape_index() -> (r: u8)
    ensures
        r <= 6,
{
    rand::thread_rng().gen_range(0..=6u8)
}

/// Relies on rand::seq::SliceRandom::choose over rand::thread_rng: `None`
/// for an empty slice, otherwise one of its elements. (rand::thread_rng
/// panics only when the operating system's random source cannot be read.)
#[verifier::external_body]
fn choose_rotation(rotations: &Vec<Rotation>) -> (r: Option<Rotation>)
    ensures
        r is None <==> rotations@.len() == 0,
        r matches Some(v) ==> rotations@.contains(v),
{
    rotations.choose(&mut rand::thread_rng()).copied()
}

/// Where a new piece's box has its top left corner: row 0, column W/2 - 1.
pub open spec fn spawn_point() -> Coord {
    Coord { y: 0, x: (PLAYGROUND_WIDTH / 2 - 1) as i32 }
}

/// The falling piece. It keeps its own copy of the field, which it reads to
/// test where it may go.
#[derive(Clone, Copy, Debug)]
pub struct Tetromino {
    pub grid: Grid,
    pub shape: Shape,
    pub color: Color,
    pub topleft: Coord,
    pub current_rotation: Rotation,
}

impl Tetromino {
    /// The rotation is one of the shape's legal rotations and the colour is
    /// the shape's.
    pub open spec fn wf(self) -> bool {
        &&& self.shape.rotations().contains(self.current_rotation)
        &&& self.color == self.shape.color_spec()
    }

    /// This piece with its box's top left corner moved to (`y`, `x`).
    pub open spec fn moved_to(self, y: int, x: int) -> Tetromino {
        Tetromino { topleft: Coord { y: y as i32, x: x as i32 }, ..self }
    }

    /// The verdict on this piece's current rotation at (`y`, `x`).
    pub open spec fn placement_at(self, y: int, x: int) -> Result<(), GameError> {
        placement(self.grid, self.current_rotation, y, x)
    }

    /// Whether field cell (`r`, `c`) lies under an occupied cell of the piece.
    pub open spec fn covers(self, r: int, c: int) -> bool {
        let dr = r - self.topleft.y;
        let dc = c - self.topleft.x;
        0 <= dr < 4 && 0 <= dc < 4 && occupied(self.current_rotation, dr, dc)
    }

    /// A piece of `shape` in `rotation`, at the spawn point, reading `grid`.
    pub fn spawn(grid: Grid, shape: Shape, rotation: Rotation) -> (r: Tetromino)
        requires
            shape.rotations().contains(rotation),
        ensures
            r.wf(),
            r.grid == grid,
            r.shape == shape,
            r.current_rotation == rotation,
            r.topleft == spawn_point(),
            fits_bounds(rotation, r.topleft.y as int, r.topleft.x as int),
    {
        let color = shape.get_color();
        Tetromino {
            grid,
            shape,
            color,
            current_rotation: rotation,
            topleft: Coord { y: 0, x: PLAYGROUND_WIDTH / 2 - 1 },
        }
    }

    /// A piece of a shape drawn uniformly at random, in a rotation drawn
    /// uniformly from that shape's list, at the spawn point, reading `grid`.
    pub fn new(grid: Grid) -> (r: Tetromino)
        ensures
            r.wf(),
            r.grid == grid,
            r.topleft == spawn_point(),
            fits_bounds(r.current_rotation, r.topleft.y as int, r.topleft.x as int),
    {
        let shape = Shape::from_index(random_shape_index());
        let rotations = shape.get_possible_rotations();
        let rotation = choose_rotation(&rotations).unwrap();
        Tetromino::spawn(grid, shape, rotation)
    }

    /// Shifts the piece one column in `direction`, all or nothing.
    pub fn move_sideways(&mut self, direction: Direction) -> (r: Result<(), GameError>)
        requires
            old(self).wf(),
        ensures
            r == old(self).placement_at(
                old(self).topleft.y as int,
                old(self).topleft.x + direction.offset(),
            ),
            r is Ok ==> *final(self) == old(self).moved_to(
                old(self).topleft.y as int,
                old(self).topleft.x + direction.offset(),
            ),
            r is Err ==> *final(self) == *old(self),
    {
        let d = direction.delta();
        let y = self.topleft.y;
        let x = self.topleft.x;
        let r = check_placement(&self.grid, self.shape, self.current_rotation, y as i64, x as i64 + d as i64);
        if r.is_ok() {
            proof {
                lemma_legal_rotation_has_cell(self.shape, self.current_rotation);
            }
            self.topleft.x = x + d;
        }
        r
    }

    /// Moves the piece one row down, all or nothing.
    pub fn move_down(&mut self) -> (r: Result<(), GameError>)
        requires
            old(self).wf(),
        ensures
            r == old(self).placement_at(old(self).topleft.y + 1, old(self).topleft.x as int),
            r is Ok ==> *final(self) == old(self).moved_to(
                old(self).topleft.y + 1,
                old(self).topleft.x as int,
            ),
            r is Err ==> *final(self) == *old(self),
    {
        let y = self.topleft.y;
        let x = self.topleft.x;
        let r = check_placement(&self.grid, self.shape, self.current_rotation, y as i64 + 1, x as i64);
        if r.is_ok() {
            proof {
                lemma_legal_rotation_has_cell(self.shape, self.current_rotation);
            }
            self.topleft.y = y + 1;
        }
        r
    }

    /// Steps the piece to the next rotation of its shape in `direction`
    /// (cyclically), without any offset search: the candidate is checked at the
    /// current position exactly as a move is, and refused outright when it
    /// does not fit.
    pub fn rotate(&mut self, direction: Direction) -> (r: Result<(), GameError>)
        requires
            old(self).wf(),
        ensures
            r == placement(
                old(self).grid,
                next_rotation(old(self).shape, old(self).current_rotation, direction.offset()),
                old(self).topleft.y as int,
                old(self).topleft.x as int,
            ),
            r is Ok ==> *final(self) == (Tetromino {
                current_rotation: next_rotation(
                    old(self).shape,
                    old(self).current_rotation,
                    direction.offset(),
                ),
                ..*old(self)
            }),
            r is Err ==> *final(self) == *old(self),
    {
        let rotations = self.shape.get_possible_rotations();
        let len = rotations.len();
        let mut i: usize = 0;
        while i < len && rotations[i] != self.current_rotation
            invariant
                i <= len,
                len == rotations@.len(),
                rotations@ == self.shape.rotations(),
                self.shape.rotations().contains(self.current_rotation),
                forall|j: int| 0 <= j < i ==> rotations@[j] != self.current_rotation,
            decreases len - i,
        {
            i += 1;
        }
        proof {
            lemma_rotations_distinct(self.shape);
            lemma_rotation_index(self.shape, i as int);
        }
        let next_index: usize = match direction {
            Direction::Right => {
                if i + 1 == len {
                    proof {
                        vstd::arithmetic::div_mod::lemma_mod_self_0(len as int);
                    }
                    0
                } else {
                    proof {
                        vstd::arithmetic::div_mod::lemma_small_mod((i + 1) as nat, len as nat);
                    }
                    i + 1
                }
            },
            Direction::Left => {
                if i == 0 {
                    proof {
                        vstd::arithmetic::div_mod::lemma_mod_add_multiples_vanish(-1, len as int);
                        vstd::arithmetic::div_mod::lemma_small_mod((len - 1) as nat, len as nat);
                    }
                    len - 1
                } else {
                    proof {
                        vstd::arithmetic::div_mod::lemma_small_mod((i - 1) as nat, len as nat);
                    }
                    i - 1
                }
            },
        };
        let candidate = rotations[next_index];
        let r = check_placement(
            &self.grid,
            self.shape,
            candidate,
            self.topleft.y as i64,
            self.topleft.x as i64,
        );
        if r.is_ok() {
            self.current_rotation = candidate;
        }
        r
    }

    /// Hard drop: moves the piece down until it is blocked. The piece ends on
    /// the first row below which it cannot go; every row on the way fits.
    pub fn move_all_the_way_down(&mut self)
        requires
            old(self).wf(),
        ensures
            old(self).topleft.y <= final(self).topleft.y,
            *final(self) == old(self).moved_to(
                final(self).topleft.y as int,
                old(self).topleft.x as int,
            ),
            forall|k: int|
                old(self).topleft.y < k <= final(self).topleft.y ==> #[trigger] old(
                    self,
                ).placement_at(k, old(self).topleft.x as int) is Ok,
            old(self).placement_at(final(self).topleft.y + 1, old(self).topleft.x as int) is Err,
    {
        proof {
            lemma_legal_rotation_has_cell(self.shape, self.current_rotation);
        }
        let ghost start = *self;
        while self.move_down().is_ok()
            invariant
                self.wf(),
                start.wf(),
                start.topleft.y <= self.topleft.y,
                *self == start.moved_to(self.topleft.y as int, start.topleft.x as int),
                forall|k: int|
                    start.topleft.y < k <= self.topleft.y ==> #[trigger] start.placement_at(
                        k,
                        start.topleft.x as int,
                    ) is Ok,
                exists|r: int, c: int|
                    0 <= r < 4 && 0 <= c < 4 && #[trigger] occupied(start.current_rotation, r, c),
            decreases PLAYGROUND_HEIGHT - self.topleft.y,
        {
        }
    }
}

/// The rotation reached from `rotation` after `k` steps of `d` places.
pub open spec fn rotate_times(shape: Shape, rotation: Rotation, d: int, k: nat) -> Rotation
    decreases k,
{
    if k == 0 {
        rotation
    } else {
        next_rotation(shape, rotate_times(shape, rotation, d, (k - 1) as nat), d)
    }
}

/// After `k` single steps the rotation sits `k` places further along the
/// list, counted cyclically.
pub proof fn lemma_rotate_times_index(shape: Shape, rotation: Rotation, d: int, k: nat)
    requires
        shape.rotations().contains(rotation),
        d == -1 || d == 1,
    ensures
        rotate_times(shape, rotation, d, k) == shape.rotations()[(shape.rotations().index_of(
            rotation,
        ) + k * d) % (shape.rotations().len() as int)],
    decreases k,
{
    let rs = shape.rotations();
    let len = rs.len() as int;
    let i = rs.index_of(rotation);
    lemma_rotations_distinct(shape);
    assert(0 <= i < len && rs[i] == rotation);
    if k == 0 {
        assert(k * d == 0) by (nonlinear_arith)
            requires
                k == 0,
        ;
        vstd::arithmetic::div_mod::lemma_small_mod(i as nat, len as nat);
    } else {
        lemma_rotate_times_index(shape, rotation, d, (k - 1) as nat);
        let x = i + (k - 1) * d;
        let j = x % len;
        vstd::arithmetic::div_mod::lemma_mod_bound(x, len);
        lemma_rotation_index(shape, j);
        assert(rotate_times(shape, rotation, d, (k - 1) as nat) == rs[j]);
        assert(rotate_times(shape, rotation, d, k) == rs[(j + d) % len]);
        vstd::arithmetic::div_mod::lemma_add_mod_noop_right(d, x, len);
        assert(x + d == i + k * d) by (nonlinear_arith)
            requires
                x == i + (k - 1) * d,
        ;
        assert((d + j) % len == (d + x) % len);
    }
}

/// Stepping through a shape's rotations in one direction comes back to the
/// starting rotation after exactly as many steps as the shape has rotations,
/// and not before; `O` has one rotation, `I`, `S` and `Z` two, the others four.
pub proof fn lemma_rotation_cycle(shape: Shape, rotation: Rotation, d: Direction)
    requires
        shape.rotations().contains(rotation),
    ensures
        shape.rotations().len() == match shape {
            Shape::O => 1int,
            Shape::I | Shape::S | Shape::Z => 2,
            Shape::J | Shape::L | Shape::T => 4,
        },
        rotate_times(shape, rotation, d.offset(), shape.rotations().len()) == rotation,
        forall|k: nat|
            0 < k < shape.rotations().len() ==> #[trigger] rotate_times(
                shape,
                rotation,
                d.offset(),
                k,
            ) != rotation,
{
    let rs = shape.rotations();
    let len = rs.len() as int;
    let i = rs.index_of(rotation);
    let e = d.offset();
    lemma_rotations_distinct(shape);
    assert(0 <= i < len && rs[i] == rotation);
    lemma_rotate_times_index(shape, rotation, e, len as nat);
    assert(len * e + i == i + len * e);
    vstd::arithmetic::div_mod::lemma_mod_multiples_vanish(e, i, len);
    vstd::arithmetic::div_mod::lemma_small_mod(i as nat, len as nat);
    assert forall|k: nat| 0 < k < len implies #[trigger] rotate_times(shape, rotation, e, k)
        != rotation by {
        lemma_rotate_times_index(shape, rotation, e, k);
        let x = i + k * e;
        let j = x % len;
        vstd::arithmetic::div_mod::lemma_mod_bound(x, len);
        if rs[j] == rotation {
            lemma_rotation_index(shape, j);
            assert(j == i);
            if e == 1 {
                assert(x == i + k);
            } else {
                assert(x == i - k);
            }
            assert(len == 1 || len == 2 || len == 4);
        }
    }
}

/// Whether row `r` of the rotation's box holds an occupied cell.
pub open spec fn row_used(rotation: Rotation, r: int) -> bool {
    exists|c: int| 0 <= c < 4 && #[trigger] occupied(rotation, r, c)
}

/// The piece's height measured from the top of its box: one more than the
/// lowest row that holds an occupied cell, 0 for an empty mask.
pub open spec fn piece_height(rotation: Rotation) -> int {
    if row_used(rotation, 3) {
        4
    } else if row_used(rotation, 2) {
        3
    } else if row_used(rotation, 1) {
        2
    } else if row_used(rotation, 0) {
        1
    } else {
        0
    }
}

/// Whether no cell of `grid` is locked.
pub open spec fn field_is_clear(grid: Grid) -> bool {
    forall|r: int, c: int| inside(r, c) ==> #[trigger] cell(grid, r, c).value == 0
}

/// On a field with no locked cell, a piece that lies inside the field can
/// move one row down exactly when `topleft.y + height < H`; otherwise the move
/// is refused as out of bounds.
pub proof fn lemma_unobstructed_fall(t: Tetromino)
    requires
        t.wf(),
        field_is_clear(t.grid),
        fits_bounds(t.current_rotation, t.topleft.y as int, t.topleft.x as int),
    ensures
        t.placement_at(t.topleft.y + 1, t.topleft.x as int) == if t.topleft.y + piece_height(
            t.current_rotation,
        ) < PLAYGROUND_HEIGHT {
            Ok::<(), GameError>(())
        } else {
            Err::<(), GameError>(GameError::OutOfBounds)
        },
{
    let rot = t.current_rotation;
    let y = t.topleft.y as int;
    let x = t.topleft.x as int;
    let h = piece_height(rot);
    lemma_legal_rotation_has_cell(t.shape, rot);
    let (r0, c0) = choose|r: int, c: int| 0 <= r < 4 && 0 <= c < 4 && #[trigger] occupied(rot, r, c);
    assert(row_used(rot, r0));
    assert(1 <= h <= 4);
    assert(row_used(rot, h - 1));
    assert(forall|r: int, c: int| 0 <= r < 4 && 0 <= c < 4 && #[trigger] occupied(rot, r, c) ==> r < h) by {
        assert forall|r: int, c: int| 0 <= r < 4 && 0 <= c < 4 && #[trigger] occupied(rot, r, c) implies r < h by {
            assert(row_used(rot, r));
        }
    }
    if y + h < PLAYGROUND_HEIGHT {
        assert(fits_bounds(rot, y + 1, x));
        assert(!overlaps(t.grid, rot, y + 1, x));
    } else {
        let c = choose|c: int| 0 <= c < 4 && #[trigger] occupied(rot, h - 1, c);
        assert(!inside(y + 1 + (h - 1), x + c));
    }
}

/// A piece with an occupied cell in the field's first column cannot move
/// left, and one with an occupied cell in the last column cannot move right:
/// both moves are refused as out of bounds.
pub proof fn lemma_wall_blocks_sideways(t: Tetromino, r: int, c: int)
    requires
        0 <= r < 4,
        0 <= c < 4,
        occupied(t.current_rotation, r, c),
    ensures
        t.topleft.x + c == 0 ==> t.placement_at(
            t.topleft.y as int,
            t.topleft.x + Direction::Left.offset(),
        ) == Err::<(), GameError>(GameError::OutOfBounds),
        t.topleft.x + c == PLAYGROUND_WIDTH - 1 ==> t.placement_at(
            t.topleft.y as int,
            t.topleft.x + Direction::Right.offset(),
        ) == Err::<(), GameError>(GameError::OutOfBounds),
{
}

} // verus!
