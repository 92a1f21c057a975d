use vstd::prelude::*;

verus! {

/// A rotation encoding: sixteen bits that, read from the most significant
/// bit down, fill a 4x4 occupancy mask row by row.
pub type Rotation = u16;

/// Display colour tag of a piece; each shape has its own.
#[derive(Clone, Copy, Debug, PartialEq, Eq, Structural)]
pub enum Color {
    Yellow,
    Blue,
    Green,
    Red,
    Magenta,
    Cyan,
    White,
}

/// The seven piece kinds.
#[derive(Clone, Copy, Debug, PartialEq, Eq, Structural)]
pub enum Shape {
    O,
    I,
    S,
    Z,
    J,
    L,
    T,
}

/// Bit `i` of the mask, counted from the most significant bit (0 or 1).
pub open spec fn bit(rotation: Rotation, i: int) -> u16 {
    (rotation >> ((15 - i) as u16)) & 1u16
}

/// The 4x4 matrix that a rotation encoding stands for.
pub open spec fn decoded(rotation: Rotation) -> Seq<Seq<u16>> {
    Seq::new(4, |r: int| Seq::new(4, |c: int| bit(rotation, 4 * r + c)))
}

/// Whether cell (`r`, `c`) of the 4x4 box is part of the piece.
pub open spec fn occupied(rotation: Rotation, r: int, c: int) -> bool {
    bit(rotation, 4 * r + c) != 0
}

/// A set bit of a rotation reads as 1.
pub proof fn lemma_set_bit_is_one(rotation: Rotation, i: int)
    requires
        bit(rotation, i) != 0,
    ensures
        bit(rotation, i) == 1,
{
    let s = (15 - i) as u16;
    assert((rotation >> s) & 1u16 != 0u16 ==> (rotation >> s) & 1u16 == 1u16) by (bit_vector);
}

impl Shape {
    pub open spec fn color_spec(self) -> Color {
        match self {
            Shape::O => Color::Blue,
            Shape::I => Color::Yellow,
            Shape::S => Color::Cyan,
            Shape::Z => Color::White,
            Shape::J => Color::Magenta,
            Shape::L => Color::Red,
            Shape::T => Color::Green,
        }
    }

    /// The legal rotations of the shape, in their cyclic order.
    pub open spec fn rotations(self) -> Seq<Rotation> {
        match self {
            Shape::O => seq![51],
            Shape::I => seq![8738, 240],
            Shape::S => seq![54, 561],
            Shape::Z => seq![99, 306],
            Shape::J => seq![275, 71, 802, 113],
            Shape::L => seq![547, 116, 785, 23],
            Shape::T => seq![114, 305, 39, 562],
        }
    }

    /// The shape picked by a uniform draw from `0..=6`.
    pub open spec fn from_index_spec(i: u8) -> Shape {
        if i == 0 {
            Shape::O
        } else if i == 1 {
            Shape::I
        } else if i == 2 {
            Shape::S
        } else if i == 3 {
            Shape::Z
        } else if i == 4 {
            Shape::J
        } else if i == 5 {
            Shape::L
        } else {
            Shape::T
        }
    }

    pub fn get_color(&self) -> (r: Color)
        ensures
            r == self.color_spec(),
    {
        match self {
            Shape::O => Color::Blue,
            Shape::I => Color::Yellow,
            Shape::S => Color::Cyan,
            Shape::Z => Color::White,
            Shape::J => Color::Magenta,
            Shape::L => Color::Red,
            Shape::T => Color::Green,
        }
    }

    pub fn get_possible_rotations(&self) -> (r: Vec<Rotation>)
        ensures
            r@ == self.rotations(),
    {
        let r = match self {
            Shape::O => vec![51],
            Shape::I => vec![8738, 240],
            Shape::S => vec![54, 561],
            Shape::Z => vec![99, 306],
            Shape::J => vec![275, 71, 802, 113],
            Shape::L => vec![547, 116, 785, 23],
            Shape::T => vec![114, 305, 39, 562],
        };
        assert(r@ =~= self.rotations());
        r
    }

    /// Decodes a rotation encoding into its 4x4 occupancy matrix. Every
    /// 16-bit value decodes to some matrix; the result depends on
    /// `rotation` alone.
    pub fn to_vec(&self, rotation: Rotation) -> (r: Vec<Vec<Rotation>>)
        ensures
            r.deep_view() == decoded(rotation),
            r@.len() == 4,
            forall|i: int| 0 <= i < 4 ==> (#[trigger] r@[i])@ == decoded(rotation)[i],
    {
        let mut m: Vec<Vec<Rotation>> = Vec::new();
        let mut row: u16 = 0;
        while row < 4
            invariant
                row <= 4,
                m@.len() == row,
                forall|i: int| 0 <= i < row ==> #[trigger] m@[i]@ == decoded(rotation)[i],
            decreases 4 - row,
        {
            let mut cells: Vec<Rotation> = Vec::new();
            let mut col: u16 = 0;
            while col < 4
                invariant
                    row < 4,
                    col <= 4,
                    cells@.len() == col,
                    forall|j: int| 0 <= j < col ==> #[trigger] cells@[j] == bit(rotation, 4 * row + j),
                decreases 4 - col,
            {
                let i: u16 = 4 * row + col;
                cells.push((rotation >> (15 - i)) & 1);
                col += 1;
            }
            assert(cells@ =~= decoded(rotation)[row as int]);
            m.push(cells);
            row += 1;
        }
        assert forall|i: int| 0 <= i < 4 implies #[trigger] m.deep_view()[i] == decoded(rotation)[i] by {
            assert(m@[i].deep_view() =~= m@[i]@);
        }
        assert(m.deep_view() =~= decoded(rotation));
        m
    }

    /// Maps a draw from `0..=6` to a shape; larger values give `T`.
    pub fn from_index(i: u8) -> (r: Shape)
        ensures
            r == Shape::from_index_spec(i),
    {
        match i {
            0 => Shape::O,
            1 => Shape::I,
            2 => Shape::S,
            3 => Shape::Z,
            4 => Shape::J,
            5 => Shape::L,
            _ => Shape::T,
        }
    }
}

} // verus!
