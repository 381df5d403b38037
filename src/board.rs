//! A concrete absolute board: nine rows by nine columns, one slot per square.
use vstd::prelude::*;

use cetkaik_fundamental::{AbsoluteSide, Color, Profession};

use crate::traits::{IsBoard, IsPieceWithSide, PieceParts};

verus! {

/// A row of the board, in board order from the A side's back row.
#[derive(Clone, Copy, Debug, PartialEq, Eq, Structural)]
pub enum Row {
    A,
    E,
    I,
    U,
    O,
    Y,
    AI,
    AU,
    IA,
}

/// A column of the board, in board order.
#[derive(Clone, Copy, Debug, PartialEq, Eq, Structural)]
pub enum Column {
    K,
    L,
    N,
    T,
    Z,
    X,
    C,
    M,
    P,
}

/// An absolute coordinate: a square fixed on the board.
#[derive(Clone, Copy, Debug, PartialEq, Eq, Structural)]
pub struct Coord {
    pub row: Row,
    pub col: Column,
}

/// Number of rows, and of columns.
pub const SIDE_LEN: usize = 9;

/// Number of squares.
pub const NUM_SQUARES: usize = 81;

/// Position of a row, from 0.
pub open spec fn row_index(r: Row) -> int {
    match r {
        Row::A => 0,
        Row::E => 1,
        Row::I => 2,
        Row::U => 3,
        Row::O => 4,
        Row::Y => 5,
        Row::AI => 6,
        Row::AU => 7,
        Row::IA => 8,
    }
}

/// Position of a column, from 0.
pub open spec fn col_index(c: Column) -> int {
    match c {
        Column::K => 0,
        Column::L => 1,
        Column::N => 2,
        Column::T => 3,
        Column::Z => 4,
        Column::X => 5,
        Column::C => 6,
        Column::M => 7,
        Column::P => 8,
    }
}

/// The row at position `i`.
pub open spec fn row_at(i: int) -> Row {
    if i <= 0 { Row::A }
    else if i == 1 { Row::E }
    else if i == 2 { Row::I }
    else if i == 3 { Row::U }
    else if i == 4 { Row::O }
    else if i == 5 { Row::Y }
    else if i == 6 { Row::AI }
    else if i == 7 { Row::AU }
    else { Row::IA }
}

/// The column at position `i`.
pub open spec fn col_at(i: int) -> Column {
    if i <= 0 { Column::K }
    else if i == 1 { Column::L }
    else if i == 2 { Column::N }
    else if i == 3 { Column::T }
    else if i == 4 { Column::Z }
    else if i == 5 { Column::X }
    else if i == 6 { Column::C }
    else if i == 7 { Column::M }
    else { Column::P }
}

/// Position of a square in row-major order.
pub open spec fn square_index(c: Coord) -> int {
    row_index(c.row) * 9 + col_index(c.col)
}

/// The square at row-major position `i`.
pub open spec fn square_at(i: int) -> Coord {
    Coord { row: row_at(i / 9), col: col_at(i % 9) }
}

/// Row-major positions name squares one to one.
pub proof fn lemma_square_index(c: Coord)
    ensures
        0 <= square_index(c) < 81,
        square_at(square_index(c)) == c,
{
    let r = row_index(c.row);
    let k = col_index(c.col);
    assert(0 <= r < 9 && 0 <= k < 9);
    assert((r * 9 + k) / 9 == r && (r * 9 + k) % 9 == k) by (nonlinear_arith)
        requires
            0 <= r < 9,
            0 <= k < 9,
    ;
}

/// Positions below 81 are the positions of their squares.
pub proof fn lemma_square_at(i: int)
    requires
        0 <= i < 81,
    ensures
        square_index(square_at(i)) == i,
{
    assert(0 <= i / 9 < 9 && 0 <= i % 9 < 9 && (i / 9) * 9 + i % 9 == i) by (nonlinear_arith)
        requires
            0 <= i < 81,
    ;
}

pub(crate) fn row_number(r: Row) -> (i: u8)
    ensures
        i as int == row_index(r),
{
    match r {
        Row::A => 0,
        Row::E => 1,
        Row::I => 2,
        Row::U => 3,
        Row::O => 4,
        Row::Y => 5,
        Row::AI => 6,
        Row::AU => 7,
        Row::IA => 8,
    }
}

pub(crate) fn col_number(c: Column) -> (i: u8)
    ensures
        i as int == col_index(c),
{
    match c {
        Column::K => 0,
        Column::L => 1,
        Column::N => 2,
        Column::T => 3,
        Column::Z => 4,
        Column::X => 5,
        Column::C => 6,
        Column::M => 7,
        Column::P => 8,
    }
}

pub(crate) fn row_of_number(i: u8) -> (r: Row)
    requires
        i < 9,
    ensures
        r == row_at(i as int),
{
    match i {
        0 => Row::A,
        1 => Row::E,
        2 => Row::I,
        3 => Row::U,
        4 => Row::O,
        5 => Row::Y,
        6 => Row::AI,
        7 => Row::AU,
        _ => Row::IA,
    }
}

pub(crate) fn col_of_number(i: u8) -> (r: Column)
    requires
        i < 9,
    ensures
        r == col_at(i as int),
{
    match i {
        0 => Column::K,
        1 => Column::L,
        2 => Column::N,
        3 => Column::T,
        4 => Column::Z,
        5 => Column::X,
        6 => Column::C,
        7 => Column::M,
        _ => Column::P,
    }
}

fn index_of_square(c: Coord) -> (r: usize)
    ensures
        r as int == square_index(c),
        r < NUM_SQUARES,
{
    proof { lemma_square_index(c); }
    row_number(c.row) as usize * SIDE_LEN + col_number(c.col) as usize
}

fn square_of_index(i: usize) -> (r: Coord)
    requires
        i < NUM_SQUARES,
    ensures
        r == square_at(i as int),
{
    Coord { row: row_of_number((i / SIDE_LEN) as u8), col: col_of_number((i % SIDE_LEN) as u8) }
}

/// A piece in absolute terms: the neutral piece, or an ordinary piece with
/// its color, profession and side.
#[derive(Clone, Copy, Debug, PartialEq, Eq)]
pub enum Piece {
    Tam2,
    NonTam2Piece { color: Color, prof: Profession, side: AbsoluteSide },
}

impl IsPieceWithSide for Piece {
    type Side = AbsoluteSide;

    open spec fn parts(&self) -> PieceParts<AbsoluteSide> {
        match *self {
            Piece::Tam2 => None,
            Piece::NonTam2Piece { color, prof, side } => Some((color, prof, side)),
        }
    }

    fn match_on_piece_and_apply<U, FT: Fn() -> U, FP: Fn(Color, Profession, AbsoluteSide) -> U>(
        self,
        f_tam: &FT,
        f_piece: &FP,
    ) -> (r: U) {
        match self {
            Piece::Tam2 => f_tam(),
            Piece::NonTam2Piece { color, prof, side } => f_piece(color, prof, side),
        }
    }
}

/// A board in absolute coordinates, one slot per square in row-major order.
#[derive(Clone, Debug)]
pub struct Board {
    cells: Vec<Option<Piece>>,
}

impl Board {
    /// The slots in row-major order.
    pub closed spec fn cells(&self) -> Seq<Option<Piece>> {
        self.cells@
    }

    /// An independent copy.
    pub fn copied(&self) -> (r: Board)
        requires
            self.wf(),
        ensures
            r.wf(),
            r.cells() == self.cells(),
            r.slots() == self.slots(),
    {
        let mut cells: Vec<Option<Piece>> = Vec::new();
        let mut i: usize = 0;
        while i < self.cells.len()
            invariant
                i <= self.cells@.len(),
                cells@ == self.cells@.subrange(0, i as int),
            decreases self.cells@.len() - i,
        {
            cells.push(self.cells[i]);
            i = i + 1;
        }
        assert(cells@ =~= self.cells@);
        Board { cells }
    }

    /// A board with every square empty.
    pub fn empty() -> (r: Board)
        ensures
            r.wf(),
            r.slots() == Map::<Coord, Piece>::empty(),
    {
        let mut cells: Vec<Option<Piece>> = Vec::new();
        let mut i: usize = 0;
        while i < NUM_SQUARES
            invariant
                i <= NUM_SQUARES,
                cells@.len() == i,
                forall|j: int| 0 <= j < i ==> cells@[j] is None,
            decreases NUM_SQUARES - i,
        {
            cells.push(None);
            i = i + 1;
        }
        let r = Board { cells };
        assert(r.slots() =~= Map::<Coord, Piece>::empty()) by {
            assert forall|c: Coord| !r.slots().contains_key(c) by {
                lemma_square_index(c);
            }
        }
        r
    }
}

/// The empty squares among the first `n` slots of `cells`, in row-major order.
pub open spec fn empties_upto(cells: Seq<Option<Piece>>, n: nat) -> Seq<Coord>
    decreases n,
{
    if n == 0 {
        Seq::empty()
    } else if cells[n - 1] is None {
        empties_upto(cells, (n - 1) as nat).push(square_at(n - 1))
    } else {
        empties_upto(cells, (n - 1) as nat)
    }
}

impl IsBoard for Board {
    type PieceWithSide = Piece;
    type Coord = Coord;

    open spec fn wf(&self) -> bool {
        self.cells().len() == NUM_SQUARES
    }

    open spec fn slots(&self) -> Map<Coord, Piece> {
        Map::new(
            |c: Coord| self.cells()[square_index(c)] is Some,
            |c: Coord| self.cells()[square_index(c)]->Some_0,
        )
    }

    open spec fn is_square(c: Coord) -> bool {
        true
    }

    fn peek(&self, c: Coord) -> (r: Option<Piece>) {
        let i = index_of_square(c);
        self.cells[i]
    }

    fn pop(&mut self, c: Coord) -> (r: Option<Piece>) {
        let i = index_of_square(c);
        let r = self.cells[i];
        self.cells.set(i, None);
        proof {
            assert forall|d: Coord| square_index(d) == square_index(c) implies d == c by {
                lemma_square_index(d);
                lemma_square_index(c);
            }
        }
        assert(self.slots() =~= old(self).slots().remove(c));
        r
    }

    fn put(&mut self, c: Coord, p: Option<Piece>) {
        let i = index_of_square(c);
        self.cells.set(i, p);
        proof {
            assert forall|d: Coord| square_index(d) == square_index(c) implies d == c by {
                lemma_square_index(d);
                lemma_square_index(c);
            }
        }
        assert(self.slots() =~= crate::traits::with_slot(old(self).slots(), c, p));
    }

    open spec fn empties_in_order(&self) -> Seq<Coord> {
        empties_upto(self.cells(), 81)
    }

    fn assert_empty(&self, c: Coord) {
    }

    fn assert_occupied(&self, c: Coord) {
    }

    fn empty_squares(&self) -> (r: Vec<Coord>) {
        let mut out: Vec<Coord> = Vec::new();
        let mut i: usize = 0;
        while i < NUM_SQUARES
            invariant
                self.wf(),
                i <= NUM_SQUARES,
                out@ == empties_upto(self.cells(), i as nat),
                out@.no_duplicates(),
                forall|j: int| 0 <= j < out@.len() ==> square_index(#[trigger] out@[j]) < i,
                forall|c: Coord|
                    out@.contains(c) <==> (square_index(c) < i && self.cells()[square_index(c)] is None),
            decreases NUM_SQUARES - i,
        {
            let c = square_of_index(i);
            proof { lemma_square_at(i as int); }
            let ghost prev = out@;
            if self.cells[i].is_none() {
                out.push(c);
                proof {
                    if prev.contains(c) {
                        let j = choose|j: int| 0 <= j < prev.len() && prev[j] == c;
                        assert(square_index(prev[j]) < i);
                    }
                }
            }
            proof {
                assert forall|d: Coord|
                    out@.contains(d) <==> (square_index(d) < i + 1 && self.cells()[square_index(d)] is None) by {
                    lemma_square_index(d);
                    if square_index(d) == i {
                        assert(d == c);
                        if self.cells()[i as int] is None {
                            assert(out@[prev.len() as int] == d);
                        } else {
                            assert(out@ == prev);
                        }
                    }
                    if out@.contains(d) && d != c {
                        let j = choose|j: int| 0 <= j < out@.len() && out@[j] == d;
                        assert(prev[j] == d);
                    }
                    if prev.contains(d) {
                        let j = choose|j: int| 0 <= j < prev.len() && prev[j] == d;
                        assert(out@[j] == d);
                    }
                }
            }
            i = i + 1;
        }
        out
    }
}

} // verus!
