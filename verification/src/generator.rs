//! The makers of fresh pieces, one for each kind.

use vstd::prelude::*;
use crate::board::is_shape;
use crate::kind::PieceKind;
use crate::tetrimino::{PieceModel, Tetrimino};

verus! {

/// The catalog is sound: a fresh piece of any kind is well formed, it has
/// as many states as its kind counts, and each of its cells is empty or
/// holds the kind's color id.
pub proof fn lemma_catalog(kind: PieceKind)
    ensures
        PieceModel::spawn(kind).wf(),
        kind.states().len() == kind.state_count(),
        forall|s: int, r: int, c: int|
            0 <= s < kind.states().len() && 0 <= r < 4 && 0 <= c < 4 ==> {
                let cell = #[trigger] kind.states()[s][r][c];
                cell == 0 || cell == kind.spec_color_id()
            },
{
    let states = kind.states();
    assert forall|s: int| 0 <= s < states.len() implies is_shape(#[trigger] states[s]) by {
        let shape = states[s];
        assert(shape[0][0] != 0 || shape[0][1] != 0 || shape[0][2] != 0);
    }
}

/// A maker of fresh pieces of one kind.
pub trait TetriminoGenerator {
    /// The kind of piece that this maker makes.
    spec fn kind() -> PieceKind;

    /// A fresh piece: first rotation state, spawn column, top row.
    fn new() -> (piece: Tetrimino)
        ensures
            piece@ == PieceModel::spawn(Self::kind()),
            piece.wf(),
    ;
}

/// The maker of I pieces.
pub struct TetriminoI;

/// The maker of J pieces.
pub struct TetriminoJ;

/// The maker of L pieces.
pub struct TetriminoL;

/// The maker of O pieces.
pub struct TetriminoO;

/// The maker of S pieces.
pub struct TetriminoS;

/// The maker of Z pieces.
pub struct TetriminoZ;

/// The maker of T pieces.
pub struct TetriminoT;

impl TetriminoGenerator for TetriminoI {
    open spec fn kind() -> PieceKind {
        PieceKind::I
    }

    fn new() -> (piece: Tetrimino) {
        let piece = Tetrimino {
            states: vec![
                vec![vec![1, 1, 1, 1], vec![0, 0, 0, 0], vec![0, 0, 0, 0], vec![0, 0, 0, 0]],
                vec![vec![0, 1, 0, 0], vec![0, 1, 0, 0], vec![0, 1, 0, 0], vec![0, 1, 0, 0]],
                vec![vec![1, 1, 1, 1], vec![0, 0, 0, 0], vec![0, 0, 0, 0], vec![0, 0, 0, 0]],
                vec![vec![0, 1, 0, 0], vec![0, 1, 0, 0], vec![0, 1, 0, 0], vec![0, 1, 0, 0]],
            ],
            x: 4,
            y: 0,
            current_state: 0,
        };
        proof {
            assert(piece.states.deep_view() =~~= PieceKind::I.states());
            lemma_catalog(PieceKind::I);
        }
        piece
    }
}

impl TetriminoGenerator for TetriminoJ {
    open spec fn kind() -> PieceKind {
        PieceKind::J
    }

    fn new() -> (piece: Tetrimino) {
        let piece = Tetrimino {
            states: vec![
                vec![vec![2, 2, 2, 2], vec![2, 0, 0, 0], vec![0, 0, 0, 0], vec![0, 0, 0, 0]],
                vec![vec![2, 2, 0, 0], vec![0, 2, 0, 0], vec![0, 2, 0, 0], vec![0, 0, 0, 0]],
                vec![vec![0, 0, 2, 0], vec![2, 2, 2, 0], vec![0, 0, 0, 0], vec![0, 0, 0, 0]],
                vec![vec![2, 0, 0, 0], vec![2, 0, 0, 0], vec![2, 2, 0, 0], vec![0, 0, 0, 0]],
            ],
            x: 4,
            y: 0,
            current_state: 0,
        };
        proof {
            assert(piece.states.deep_view() =~~= PieceKind::J.states());
            lemma_catalog(PieceKind::J);
        }
        piece
    }
}

impl TetriminoGenerator for TetriminoL {
    open spec fn kind() -> PieceKind {
        PieceKind::L
    }

    fn new() -> (piece: Tetrimino) {
        let piece = Tetrimino {
            states: vec![
                vec![vec![3, 3, 3, 0], vec![0, 0, 3, 0], vec![0, 0, 0, 0], vec![0, 0, 0, 0]],
                vec![vec![0, 3, 0, 0], vec![0, 3, 0, 0], vec![3, 3, 0, 0], vec![0, 0, 0, 0]],
                vec![vec![3, 0, 0, 0], vec![3, 3, 3, 0], vec![0, 0, 0, 0], vec![0, 0, 0, 0]],
                vec![vec![3, 3, 0, 0], vec![3, 0, 0, 0], vec![3, 0, 0, 0], vec![0, 0, 0, 0]],
            ],
            x: 4,
            y: 0,
            current_state: 0,
        };
        proof {
            assert(piece.states.deep_view() =~~= PieceKind::L.states());
            lemma_catalog(PieceKind::L);
        }
        piece
    }
}

impl TetriminoGenerator for TetriminoO {
    open spec fn kind() -> PieceKind {
        PieceKind::O
    }

    fn new() -> (piece: Tetrimino) {
        let piece = Tetrimino {
            states: vec![
                vec![vec![4, 4, 0, 0], vec![4, 4, 0, 0], vec![0, 0, 0, 0], vec![0, 0, 0, 0]],
            ],
            x: 5,
            y: 0,
            current_state: 0,
        };
        proof {
            assert(piece.states.deep_view() =~~= PieceKind::O.states());
            lemma_catalog(PieceKind::O);
        }
        piece
    }
}

impl TetriminoGenerator for TetriminoS {
    open spec fn kind() -> PieceKind {
        PieceKind::S
    }

    fn new() -> (piece: Tetrimino) {
        let piece = Tetrimino {
            states: vec![
                vec![vec![0, 5, 5, 0], vec![5, 5, 0, 0], vec![0, 0, 0, 0], vec![0, 0, 0, 0]],
                vec![vec![0, 5, 0, 0], vec![0, 5, 5, 0], vec![0, 0, 5, 0], vec![0, 0, 0, 0]],
            ],
            x: 4,
            y: 0,
            current_state: 0,
        };
        proof {
            assert(piece.states.deep_view() =~~= PieceKind::S.states());
            lemma_catalog(PieceKind::S);
        }
        piece
    }
}

impl TetriminoGenerator for TetriminoZ {
    open spec fn kind() -> PieceKind {
        PieceKind::Z
    }

    fn new() -> (piece: Tetrimino) {
        let piece = Tetrimino {
            states: vec![
                vec![vec![6, 6, 0, 0], vec![0, 6, 6, 0], vec![0, 0, 0, 0], vec![0, 0, 0, 0]],
                vec![vec![0, 6, 0, 0], vec![6, 6, 0, 0], vec![6, 0, 0, 0], vec![0, 0, 0, 0]],
            ],
            x: 4,
            y: 0,
            current_state: 0,
        };
        proof {
            assert(piece.states.deep_view() =~~= PieceKind::Z.states());
            lemma_catalog(PieceKind::Z);
        }
        piece
    }
}

impl TetriminoGenerator for TetriminoT {
    open spec fn kind() -> PieceKind {
        PieceKind::T
    }

    fn new() -> (piece: Tetrimino) {
        let piece = Tetrimino {
            states: vec![
                vec![vec![7, 7, 7, 0], vec![0, 7, 0, 0], vec![0, 0, 0, 0], vec![0, 0, 0, 0]],
                vec![vec![0, 7, 0, 0], vec![7, 7, 0, 0], vec![0, 7, 0, 0], vec![0, 0, 0, 0]],
                vec![vec![0, 7, 0, 0], vec![7, 7, 7, 0], vec![0, 0, 0, 0], vec![0, 0, 0, 0]],
                vec![vec![0, 7, 0, 0], vec![0, 7, 7, 0], vec![0, 7, 0, 0], vec![0, 0, 0, 0]],
            ],
            x: 4,
            y: 0,
            current_state: 0,
        };
        proof {
            assert(piece.states.deep_view() =~~= PieceKind::T.states());
            lemma_catalog(PieceKind::T);
        }
        piece
    }
}

impl Tetrimino {
    /// A fresh piece of `kind`: first rotation state, the kind's spawn
    /// column, top row.
    pub fn spawn(kind: PieceKind) -> (piece: Tetrimino)
        ensures
            piece@ == PieceModel::spawn(kind),
            piece.wf(),
    {
        match kind {
            PieceKind::I => TetriminoI::new(),
            PieceKind::J => TetriminoJ::new(),
            PieceKind::L => TetriminoL::new(),
            PieceKind::O => TetriminoO::new(),
            PieceKind::S => TetriminoS::new(),
            PieceKind::Z => TetriminoZ::new(),
            PieceKind::T => TetriminoT::new(),
        }
    }
}

} // verus!
