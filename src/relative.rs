//! The relative representation: boards and fields as one side sees them, and
//! the projection of an absolute field into it.
use vstd::prelude::*;

use cetkaik_fundamental::{AbsoluteSide, Color, ColorAndProf, Profession};

use crate::board::{Coord, Piece};
use crate::field::{copy_reserve, Field};
use crate::perspective::{
    absolute_of, relative_side_of, to_absolute_coord, to_relative_side, Perspective,
    RelativeCoord, RelativeSide,
};
use crate::traits::{slot_of, IsBoard, IsPieceWithSide, PieceParts};

verus! {

/// A piece in relative terms: Tam2, or an ordinary piece with its color,
/// profession and relative side.
#[derive(Clone, Copy, Debug, PartialEq, Eq)]
pub enum RelativePiece {
    Tam2,
    NonTam2Piece { color: Color, prof: Profession, side: RelativeSide },
}

impl IsPieceWithSide for RelativePiece {
    type Side = RelativeSide;

    open spec fn parts(&self) -> PieceParts<RelativeSide> {
        match *self {
            RelativePiece::Tam2 => None,
            RelativePiece::NonTam2Piece { color, prof, side } => Some((color, prof, side)),
        }
    }

    fn match_on_piece_and_apply<U, FT: Fn() -> U, FP: Fn(Color, Profession, RelativeSide) -> U>(
        self,
        f_tam: &FT,
        f_piece: &FP,
    ) -> (r: U) {
        match self {
            RelativePiece::Tam2 => f_tam(),
            RelativePiece::NonTam2Piece { color, prof, side } => f_piece(color, prof, side),
        }
    }
}

/// An absolute piece as seen from `p`.
pub open spec fn relative_piece_of(piece: Piece, p: Perspective) -> RelativePiece {
    match piece {
        Piece::Tam2 => RelativePiece::Tam2,
        Piece::NonTam2Piece { color, prof, side } => RelativePiece::NonTam2Piece {
            color,
            prof,
            side: relative_side_of(side, p),
        },
    }
}

/// An absolute piece as seen from `p`.
pub fn to_relative_piece(piece: Piece, p: Perspective) -> (r: RelativePiece)
    ensures
        r == relative_piece_of(piece, p),
{
    match piece {
        Piece::Tam2 => RelativePiece::Tam2,
        Piece::NonTam2Piece { color, prof, side } => RelativePiece::NonTam2Piece {
            color,
            prof,
            side: to_relative_side(side, p),
        },
    }
}

/// Position of a relative square in row-major order.
pub open spec fn relative_index(c: RelativeCoord) -> int {
    c.row as int * 9 + c.col as int
}

/// The relative square at row-major position `i`.
pub open spec fn relative_at(i: int) -> RelativeCoord {
    RelativeCoord { row: (i / 9) as u8, col: (i % 9) as u8 }
}

proof fn lemma_relative_index(c: RelativeCoord)
    requires
        c.valid(),
    ensures
        0 <= relative_index(c) < 81,
        relative_at(relative_index(c)) == c,
{
    let r = c.row as int;
    let k = c.col as int;
    assert((r * 9 + k) / 9 == r && (r * 9 + k) % 9 == k) by (nonlinear_arith)
        requires
            0 <= r < 9,
            0 <= k < 9,
    ;
}

proof fn lemma_relative_at(i: int)
    requires
        0 <= i < 81,
    ensures
        relative_at(i).valid(),
        relative_index(relative_at(i)) == i,
{
    assert(0 <= i / 9 < 9 && 0 <= i % 9 < 9 && (i / 9) * 9 + i % 9 == i) by (nonlinear_arith)
        requires
            0 <= i < 81,
    ;
}

fn relative_square_at(i: usize) -> (r: RelativeCoord)
    requires
        i < 81,
    ensures
        r == relative_at(i as int),
        r.valid(),
{
    proof { lemma_relative_at(i as int); }
    RelativeCoord { row: (i / 9) as u8, col: (i % 9) as u8 }
}

/// A board in relative coordinates, one slot per square in row-major order.
#[derive(Clone, Debug)]
pub struct RelativeBoard {
    cells: Vec<Option<RelativePiece>>,
}

impl RelativeBoard {
    /// The slots in row-major order.
    pub closed spec fn cells(&self) -> Seq<Option<RelativePiece>> {
        self.cells@
    }

    proof fn lemma_same_square(c: RelativeCoord, d: RelativeCoord)
        requires
            c.valid(),
            d.valid(),
            relative_index(c) == relative_index(d),
        ensures
            c == d,
    {
        lemma_relative_index(c);
        lemma_relative_index(d);
    }
}

/// The empty squares among the first `n` slots of `cells`, in row-major order.
pub open spec fn relative_empties_upto(cells: Seq<Option<RelativePiece>>, n: nat) -> Seq<RelativeCoord>
    decreases n,
{
    if n == 0 {
        Seq::empty()
    } else if cells[n - 1] is None {
        relative_empties_upto(cells, (n - 1) as nat).push(relative_at(n - 1))
    } else {
        relative_empties_upto(cells, (n - 1) as nat)
    }
}

impl IsBoard for RelativeBoard {
    type PieceWithSide = RelativePiece;
    type Coord = RelativeCoord;

    open spec fn wf(&self) -> bool {
        self.cells().len() == 81
    }

    open spec fn slots(&self) -> Map<RelativeCoord, RelativePiece> {
        Map::new(
            |c: RelativeCoord| c.valid() && self.cells()[relative_index(c)] is Some,
            |c: RelativeCoord| self.cells()[relative_index(c)]->Some_0,
        )
    }

    open spec fn is_square(c: RelativeCoord) -> bool {
        c.valid()
    }

    fn peek(&self, c: RelativeCoord) -> (r: Option<RelativePiece>) {
        proof { lemma_relative_index(c); }
        self.cells[c.row as usize * 9 + c.col as usize]
    }

    fn pop(&mut self, c: RelativeCoord) -> (r: Option<RelativePiece>) {
        proof { lemma_relative_index(c); }
        let i = c.row as usize * 9 + c.col as usize;
        let r = self.cells[i];
        self.cells.set(i, None);
        proof {
            assert forall|d: RelativeCoord| d.valid() && relative_index(d) == relative_index(c) implies d == c by {
                RelativeBoard::lemma_same_square(c, d);
            }
        }
        assert(self.slots() =~= old(self).slots().remove(c));
        r
    }

    fn put(&mut self, c: RelativeCoord, p: Option<RelativePiece>) {
        proof { lemma_relative_index(c); }
        let i = c.row as usize * 9 + c.col as usize;
        self.cells.set(i, p);
        proof {
            assert forall|d: RelativeCoord| d.valid() && relative_index(d) == relative_index(c) implies d == c by {
                RelativeBoard::lemma_same_square(c, d);
            }
        }
        assert(self.slots() =~= crate::traits::with_slot(old(self).slots(), c, p));
    }

    open spec fn empties_in_order(&self) -> Seq<RelativeCoord> {
        relative_empties_upto(self.cells(), 81)
    }

    fn assert_empty(&self, c: RelativeCoord) {
    }

    fn assert_occupied(&self, c: RelativeCoord) {
    }

    fn empty_squares(&self) -> (r: Vec<RelativeCoord>) {
        let mut out: Vec<RelativeCoord> = Vec::new();
        let mut i: usize = 0;
        while i < 81
            invariant
                self.wf(),
                i <= 81,
                out@ == relative_empties_upto(self.cells(), i as nat),
                out@.no_duplicates(),
                forall|j: int| 0 <= j < out@.len() ==> (#[trigger] out@[j]).valid() && relative_index(out@[j]) < i,
                forall|c: RelativeCoord|
                    out@.contains(c) <==> (c.valid() && relative_index(c) < i && self.cells()[relative_index(c)] is None),
            decreases 81 - i,
        {
            let c = relative_square_at(i);
            let ghost prev = out@;
            if self.cells[i].is_none() {
                out.push(c);
                proof {
                    if prev.contains(c) {
                        let j = choose|j: int| 0 <= j < prev.len() && prev[j] == c;
                        assert(relative_index(prev[j]) < i);
                    }
                }
            }
            proof {
                assert forall|d: RelativeCoord|
                    out@.contains(d) <==> (d.valid() && relative_index(d) < i + 1 && self.cells()[relative_index(d)] is None) by {
                    if d.valid() && relative_index(d) == i {
                        RelativeBoard::lemma_same_square(c, d);
                        if self.cells()[i as int] is None {
                            assert(out@[prev.len() as int] == d);
                        } else {
                            assert(out@ == prev);
                        }
                    }
                    if out@.contains(d) && d != c {
                        let j = choose|j: int| 0 <= j < out@.len() && out@[j] == d;
                        assert(prev[j] == d);
                    }
                    if prev.contains(d) {
                        let j = choose|j: int| 0 <= j < prev.len() && prev[j] == d;
                        assert(out@[j] == d);
                    }
                }
            }
            i = i + 1;
        }
        out
    }
}

/// A field in relative coordinates: the board and the reserves of the side
/// playing upward and of the side playing downward.
#[derive(Clone, Debug)]
pub struct RelativeField {
    pub board: RelativeBoard,
    pub upward_hop1zuo1: Vec<ColorAndProf>,
    pub downward_hop1zuo1: Vec<ColorAndProf>,
}

/// The absolute side that plays upward from `p`.
pub open spec fn upward_side(p: Perspective) -> AbsoluteSide {
    match p {
        Perspective::IaIsDownAndPointsUpward => AbsoluteSide::IASide,
        Perspective::IaIsUpAndPointsDownward => AbsoluteSide::ASide,
    }
}

/// The absolute side that plays downward from `p`.
pub open spec fn downward_side(p: Perspective) -> AbsoluteSide {
    match p {
        Perspective::IaIsDownAndPointsUpward => AbsoluteSide::ASide,
        Perspective::IaIsUpAndPointsDownward => AbsoluteSide::IASide,
    }
}

/// The occupied squares of an absolute board `m` as seen from `p`.
pub open spec fn relative_slots(m: Map<Coord, Piece>, p: Perspective) -> Map<RelativeCoord, RelativePiece> {
    Map::new(
        |c: RelativeCoord| c.valid() && m.contains_key(absolute_of(c, p)),
        |c: RelativeCoord| relative_piece_of(m[absolute_of(c, p)], p),
    )
}

/// The field as seen from `p`: each square re-expressed in relative
/// coordinates with relative sides, each reserve kept as it is.
pub fn to_relative_field(field: Field, p: Perspective) -> (r: RelativeField)
    requires
        field.wf(),
    ensures
        r.board.wf(),
        r.board.slots() == relative_slots(field.board.slots(), p),
        r.upward_hop1zuo1@ == field.hop1zuo1(upward_side(p)),
        r.downward_hop1zuo1@ == field.hop1zuo1(downward_side(p)),
{
    let ghost m = field.board.slots();
    let mut cells: Vec<Option<RelativePiece>> = Vec::new();
    let mut i: usize = 0;
    while i < 81
        invariant
            field.wf(),
            m == field.board.slots(),
            i <= 81,
            cells@.len() == i,
            forall|j: int|
                0 <= j < i ==> #[trigger] cells@[j] == match slot_of(m, absolute_of(relative_at(j), p)) {
                    Some(x) => Some(relative_piece_of(x, p)),
                    None => None,
                },
        decreases 81 - i,
    {
        let rc = relative_square_at(i);
        let a = to_absolute_coord(rc, p);
        let cell = match field.board.peek(a) {
            Some(x) => Some(to_relative_piece(x, p)),
            None => None,
        };
        cells.push(cell);
        i = i + 1;
    }
    let board = RelativeBoard { cells };
    assert forall|c: RelativeCoord| c.valid() implies #[trigger] board.cells()[relative_index(c)]
        == match slot_of(m, absolute_of(c, p)) {
            Some(x) => Some(relative_piece_of(x, p)),
            None => None,
        } by {
        lemma_relative_index(c);
    }
    assert(board.slots() =~= relative_slots(m, p));
    let (up, down) = match p {
        Perspective::IaIsDownAndPointsUpward => (
            copy_reserve(&field.ia_side_hop1zuo1),
            copy_reserve(&field.a_side_hop1zuo1),
        ),
        Perspective::IaIsUpAndPointsDownward => (
            copy_reserve(&field.a_side_hop1zuo1),
            copy_reserve(&field.ia_side_hop1zuo1),
        ),
    };
    RelativeField { board, upward_hop1zuo1: up, downward_hop1zuo1: down }
}

} // verus!
