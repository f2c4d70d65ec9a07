//! The seven piece kinds and their immutable catalog of rotation states.

use vstd::prelude::*;

verus! {

/// One of the seven piece kinds.
#[derive(Clone, Copy, Debug, PartialEq, Eq, Structural)]
pub enum PieceKind {
    I,
    J,
    L,
    O,
    S,
    Z,
    T,
}

impl PieceKind {
    /// The value that cells occupied by this kind hold on the board (1 to 7).
    pub open spec fn spec_color_id(self) -> u8 {
        match self {
            PieceKind::I => 1,
            PieceKind::J => 2,
            PieceKind::L => 3,
            PieceKind::O => 4,
            PieceKind::S => 5,
            PieceKind::Z => 6,
            PieceKind::T => 7,
        }
    }

    /// The kind whose cells hold `id`, if there is one.
    pub open spec fn spec_from_color_id(id: u8) -> Option<PieceKind> {
        if id == 1 {
            Some(PieceKind::I)
        } else if id == 2 {
            Some(PieceKind::J)
        } else if id == 3 {
            Some(PieceKind::L)
        } else if id == 4 {
            Some(PieceKind::O)
        } else if id == 5 {
            Some(PieceKind::S)
        } else if id == 6 {
            Some(PieceKind::Z)
        } else if id == 7 {
            Some(PieceKind::T)
        } else {
            None
        }
    }

    /// The kind that a roll selects: the roll's remainder by seven, counted
    /// through I, J, L, O, S, Z, T.
    pub open spec fn of_roll(roll: u8) -> PieceKind {
        let r = roll as int % 7;
        if r == 0 {
            PieceKind::I
        } else if r == 1 {
            PieceKind::J
        } else if r == 2 {
            PieceKind::L
        } else if r == 3 {
            PieceKind::O
        } else if r == 4 {
            PieceKind::S
        } else if r == 5 {
            PieceKind::Z
        } else {
            PieceKind::T
        }
    }

    /// Column at which a fresh piece of this kind appears.
    pub open spec fn spawn_column(self) -> int {
        match self {
            PieceKind::O => 5,
            _ => 4,
        }
    }

    /// Number of rotation states of this kind.
    pub open spec fn state_count(self) -> nat {
        match self {
            PieceKind::O => 1,
            PieceKind::S => 2,
            PieceKind::Z => 2,
            _ => 4,
        }
    }

    /// The rotation states of this kind, in rotation order. Each state is a
    /// grid of four rows of four cells; a cell holds 0 where it is empty and
    /// the kind's color id where it is occupied.
    pub open spec fn states(self) -> Seq<Seq<Seq<u8>>> {
        match self {
            PieceKind::I => seq![
                seq![seq![1u8, 1, 1, 1], seq![0u8, 0, 0, 0], seq![0u8, 0, 0, 0], seq![0u8, 0, 0, 0]],
                seq![seq![0u8, 1, 0, 0], seq![0u8, 1, 0, 0], seq![0u8, 1, 0, 0], seq![0u8, 1, 0, 0]],
                seq![seq![1u8, 1, 1, 1], seq![0u8, 0, 0, 0], seq![0u8, 0, 0, 0], seq![0u8, 0, 0, 0]],
                seq![seq![0u8, 1, 0, 0], seq![0u8, 1, 0, 0], seq![0u8, 1, 0, 0], seq![0u8, 1, 0, 0]],
            ],
            PieceKind::J => seq![
                seq![seq![2u8, 2, 2, 2], seq![2u8, 0, 0, 0], seq![0u8, 0, 0, 0], seq![0u8, 0, 0, 0]],
                seq![seq![2u8, 2, 0, 0], seq![0u8, 2, 0, 0], seq![0u8, 2, 0, 0], seq![0u8, 0, 0, 0]],
                seq![seq![0u8, 0, 2, 0], seq![2u8, 2, 2, 0], seq![0u8, 0, 0, 0], seq![0u8, 0, 0, 0]],
                seq![seq![2u8, 0, 0, 0], seq![2u8, 0, 0, 0], seq![2u8, 2, 0, 0], seq![0u8, 0, 0, 0]],
            ],
            PieceKind::L => seq![
                seq![seq![3u8, 3, 3, 0], seq![0u8, 0, 3, 0], seq![0u8, 0, 0, 0], seq![0u8, 0, 0, 0]],
                seq![seq![0u8, 3, 0, 0], seq![0u8, 3, 0, 0], seq![3u8, 3, 0, 0], seq![0u8, 0, 0, 0]],
                seq![seq![3u8, 0, 0, 0], seq![3u8, 3, 3, 0], seq![0u8, 0, 0, 0], seq![0u8, 0, 0, 0]],
                seq![seq![3u8, 3, 0, 0], seq![3u8, 0, 0, 0], seq![3u8, 0, 0, 0], seq![0u8, 0, 0, 0]],
            ],
            PieceKind::O => seq![
                seq![seq![4u8, 4, 0, 0], seq![4u8, 4, 0, 0], seq![0u8, 0, 0, 0], seq![0u8, 0, 0, 0]],
            ],
            PieceKind::S => seq![
                seq![seq![0u8, 5, 5, 0], seq![5u8, 5, 0, 0], seq![0u8, 0, 0, 0], seq![0u8, 0, 0, 0]],
                seq![seq![0u8, 5, 0, 0], seq![0u8, 5, 5, 0], seq![0u8, 0, 5, 0], seq![0u8, 0, 0, 0]],
            ],
            PieceKind::Z => seq![
                seq![seq![6u8, 6, 0, 0], seq![0u8, 6, 6, 0], seq![0u8, 0, 0, 0], seq![0u8, 0, 0, 0]],
                seq![seq![0u8, 6, 0, 0], seq![6u8, 6, 0, 0], seq![6u8, 0, 0, 0], seq![0u8, 0, 0, 0]],
            ],
            PieceKind::T => seq![
                seq![seq![7u8, 7, 7, 0], seq![0u8, 7, 0, 0], seq![0u8, 0, 0, 0], seq![0u8, 0, 0, 0]],
                seq![seq![0u8, 7, 0, 0], seq![7u8, 7, 0, 0], seq![0u8, 7, 0, 0], seq![0u8, 0, 0, 0]],
                seq![seq![0u8, 7, 0, 0], seq![7u8, 7, 7, 0], seq![0u8, 0, 0, 0], seq![0u8, 0, 0, 0]],
                seq![seq![0u8, 7, 0, 0], seq![0u8, 7, 7, 0], seq![0u8, 7, 0, 0], seq![0u8, 0, 0, 0]],
            ],
        }
    }

    /// The color id of this kind.
    pub fn color_id(self) -> (id: u8)
        ensures
            id == self.spec_color_id(),
            1 <= id <= 7,
    {
        match self {
            PieceKind::I => 1,
            PieceKind::J => 2,
            PieceKind::L => 3,
            PieceKind::O => 4,
            PieceKind::S => 5,
            PieceKind::Z => 6,
            PieceKind::T => 7,
        }
    }

    /// The kind that owns a board cell's value; `None` for an empty cell and
    /// for any value that is no color id.
    pub fn from_color_id(id: u8) -> (kind: Option<PieceKind>)
        ensures
            kind == Self::spec_from_color_id(id),
            kind matches Some(k) ==> k.spec_color_id() == id,
            kind is Some <==> 1 <= id <= 7,
    {
        match id {
            1 => Some(PieceKind::I),
            2 => Some(PieceKind::J),
            3 => Some(PieceKind::L),
            4 => Some(PieceKind::O),
            5 => Some(PieceKind::S),
            6 => Some(PieceKind::Z),
            7 => Some(PieceKind::T),
            _ => None,
        }
    }

    /// The kind that a roll selects.
    pub fn from_roll(roll: u8) -> (kind: PieceKind)
        ensures
            kind == Self::of_roll(roll),
    {
        let r: u8 = roll % 7;
        match r {
            0 => PieceKind::I,
            1 => PieceKind::J,
            2 => PieceKind::L,
            3 => PieceKind::O,
            4 => PieceKind::S,
            5 => PieceKind::Z,
            _ => PieceKind::T,
        }
    }
}

} // verus!
