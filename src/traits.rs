//! The capability interfaces: boards, fields and pieces, stated over
//! mathematical views so that any representation can be held to them.
use vstd::multiset::Multiset;
use vstd::prelude::*;

use cetkaik_fundamental::{AbsoluteSide, Color, ColorAndProf, Profession};

use crate::fundamental::prof_eq;

verus! {

/// What a piece is, seen through its one case analysis: `None` for the
/// neutral piece (Tam2), else its color, profession and side.
pub type PieceParts<S> = Option<(Color, Profession, S)>;

/// A type that can be used as a piece carrying a side.
pub trait IsPieceWithSide: Sized {
    /// The side a piece belongs to.
    type Side: Copy + Eq;

    /// The piece as a case: `None` for Tam2.
    spec fn parts(&self) -> PieceParts<Self::Side>;

    /// Whether the piece is an ordinary piece of profession `prof`
    /// (the neutral piece has no profession).
    fn has_prof(self, prof: Profession) -> (r: bool)
        ensures
            r == (self.parts() matches Some((_c, p, _s)) && p == prof),
    {
        let f_tam = || -> (b: bool)
            ensures
                !b,
            { false };
        let f_piece = |_c: Color, p: Profession, _s: Self::Side| -> (b: bool)
            ensures
                b == (p == prof),
            { prof_eq(p, prof) };
        self.match_on_piece_and_apply(&f_tam, &f_piece)
    }

    /// Calls `f_tam()` on the neutral piece and `f_piece(color, profession,
    /// side)` on any other piece.
    fn match_on_piece_and_apply<U, FT: Fn() -> U, FP: Fn(Color, Profession, Self::Side) -> U>(
        self,
        f_tam: &FT,
        f_piece: &FP,
    ) -> (r: U)
        requires
            self.parts() is None ==> f_tam.requires(()),
            self.parts() matches Some((c, p, s)) ==> f_piece.requires((c, p, s)),
        ensures
            self.parts() is None ==> f_tam.ensures((), r),
            self.parts() matches Some((c, p, s)) ==> f_piece.ensures((c, p, s), r),
    ;
}

/// A type that can be used as a board: every coordinate holds at most one
/// piece, and `slots` maps exactly the occupied coordinates to their piece.
pub trait IsBoard: Sized {
    /// The piece type.
    type PieceWithSide: Copy;
    /// The coordinate type.
    type Coord: Copy;

    /// The representation is consistent.
    spec fn wf(&self) -> bool;

    /// The occupied squares and what stands on each; all of them are
    /// squares of the board.
    spec fn slots(&self) -> Map<Self::Coord, Self::PieceWithSide>;

    /// `c` names a square of the board.
    spec fn is_square(c: Self::Coord) -> bool;

    /// The empty squares in the board's fixed enumeration order.
    spec fn empties_in_order(&self) -> Seq<Self::Coord>;

    /// What stands at `c`, if anything.
    fn peek(&self, c: Self::Coord) -> (r: Option<Self::PieceWithSide>)
        requires
            self.wf(),
            Self::is_square(c),
        ensures
            r == slot_of(self.slots(), c),
    ;

    /// Removes and returns what stands at `c`, leaving it empty.
    fn pop(&mut self, c: Self::Coord) -> (r: Option<Self::PieceWithSide>)
        requires
            old(self).wf(),
            Self::is_square(c),
        ensures
            final(self).wf(),
            r == slot_of(old(self).slots(), c),
            final(self).slots() == old(self).slots().remove(c),
    ;

    /// Sets the square `c` to exactly `p`; `None` clears it.
    fn put(&mut self, c: Self::Coord, p: Option<Self::PieceWithSide>)
        requires
            old(self).wf(),
            Self::is_square(c),
        ensures
            final(self).wf(),
            final(self).slots() == with_slot(old(self).slots(), c, p),
    ;

    /// Checks that the square `c` is empty.
    fn assert_empty(&self, c: Self::Coord)
        requires
            self.wf(),
            Self::is_square(c),
            !self.slots().contains_key(c),
    ;

    /// Checks that the square `c` is occupied.
    fn assert_occupied(&self, c: Self::Coord)
        requires
            self.wf(),
            Self::is_square(c),
            self.slots().contains_key(c),
    ;

    /// Moves the piece located at `from` to the empty square `to`. No piece
    /// is taken: `from` must be occupied and `to` empty once `from` is popped.
    fn mov(&mut self, from: Self::Coord, to: Self::Coord)
        requires
            old(self).wf(),
            Self::is_square(from),
            Self::is_square(to),
            old(self).slots().contains_key(from),
            from == to || !old(self).slots().contains_key(to),
        ensures
            final(self).wf(),
            final(self).slots() == old(self).slots().remove(from).insert(
                to,
                old(self).slots()[from],
            ),
    {
        let src = self.pop(from);
        match src {
            Some(src_piece) => {
                self.assert_empty(to);
                self.put(to, Some(src_piece));
            },
            None => {},
        }
    }

    /// Every empty square, each once.
    fn empty_squares(&self) -> (r: Vec<Self::Coord>)
        requires
            self.wf(),
        ensures
            r@ == self.empties_in_order(),
            r@.no_duplicates(),
            forall|c: Self::Coord| #[trigger] r@.contains(c) <==> Self::is_square(c) && !self.slots().contains_key(c),
    ;
}

/// A board in absolute coordinates with the official initial arrangement.
pub trait IsAbsoluteBoard: IsBoard {
    /// The initial arrangement of the official (yhuap) rule.
    fn yhuap_initial() -> (r: Self)
        ensures
            r.wf(),
    ;
}

/// A type that can be used as a field: one board and the reserves.
pub trait IsField: Sized {
    /// The board type.
    type Board: IsBoard<PieceWithSide = Self::PieceWithSide, Coord = Self::Coord>;
    /// The coordinate type.
    type Coord: Copy + Eq;
    /// The piece type.
    type PieceWithSide: Copy + IsPieceWithSide<Side = Self::Side>;
    /// The side type.
    type Side: Copy + Eq;

    /// The representation is consistent.
    spec fn wf(&self) -> bool;

    /// The occupied squares of the board and what stands on each.
    spec fn board_slots(&self) -> Map<Self::Coord, Self::PieceWithSide>;

    /// The entries of `side`'s reserve.
    spec fn reserve(&self, side: Self::Side) -> Multiset<ColorAndProf>;

    /// Moves the non-Tam2 piece at `from` to `to` for `whose_turn`, taking the
    /// piece at `to` into `whose_turn`'s reserve if there is one; fails when
    /// `from` is empty, either square holds Tam2, or the piece at `from` is not
    /// `whose_turn`'s.
    fn move_nontam_piece_from_src_to_dest_while_taking_opponent_piece_if_needed(
        &self,
        from: Self::Coord,
        to: Self::Coord,
        whose_turn: Self::Side,
    ) -> (r: Result<Self, &'static str>)
        requires
            self.wf(),
        ensures
            r is Ok <==> move_allowed(self.board_slots(), from, to, whose_turn),
            r matches Ok(f) ==> {
                &&& f.wf()
                &&& f.board_slots() == self.board_slots().remove(from).insert(
                    to,
                    self.board_slots()[from],
                )
                &&& f.reserve(whose_turn) == self.reserve(whose_turn).add(
                    taken_by_move(self.board_slots(), from, to),
                )
                &&& forall|s: Self::Side| s != whose_turn ==> #[trigger] f.reserve(s) == self.reserve(s)
            },
    ;

    /// Removes a `(color, prof)` entry from `side`'s reserve and places it at
    /// `dest` as a piece of `side`; `None` if there is no such entry or `dest`
    /// is occupied.
    fn search_from_hop1zuo1_and_parachute_at(
        &self,
        color: Color,
        prof: Profession,
        side: Self::Side,
        dest: Self::Coord,
    ) -> (r: Option<Self>)
        requires
            self.wf(),
        ensures
            r is None <==> (self.board_slots().contains_key(dest) || self.reserve(side).count(
                ColorAndProf { color, prof },
            ) == 0),
            r matches Some(f) ==> {
                &&& f.wf()
                &&& f.board_slots().contains_key(dest)
                &&& f.board_slots()[dest].parts() == Some((color, prof, side))
                &&& f.board_slots().remove(dest) == self.board_slots()
                &&& f.reserve(side) == self.reserve(side).remove(ColorAndProf { color, prof })
                &&& forall|s: Self::Side| s != side ==> #[trigger] f.reserve(s) == self.reserve(s)
            },
    ;

    /// Immutably borrows the board.
    fn as_board(&self) -> (r: &Self::Board)
        requires
            self.wf(),
        ensures
            r.wf(),
            r.slots() == self.board_slots(),
    ;
}

/// Moving from `from` to `to` for `whose_turn` is allowed on a board with
/// occupied squares `m`: `from` holds a piece of `whose_turn` that is not
/// Tam2, and `to` does not hold Tam2.
pub open spec fn move_allowed<C, P: IsPieceWithSide>(
    m: Map<C, P>,
    from: C,
    to: C,
    whose_turn: P::Side,
) -> bool {
    &&& m.contains_key(from)
    &&& m[from].parts() matches Some((_c, _p, s)) && s == whose_turn
    &&& !(m.contains_key(to) && m[to].parts() is None)
}

/// What moving from `from` to `to` takes on a board with occupied squares
/// `m`: the color and profession of the ordinary piece on another square `to`.
pub open spec fn taken_by_move<C, P: IsPieceWithSide>(m: Map<C, P>, from: C, to: C) -> Multiset<
    ColorAndProf,
> {
    if from != to && m.contains_key(to) && m[to].parts() is Some {
        Multiset::singleton(
            ColorAndProf { color: m[to].parts()->Some_0.0, prof: m[to].parts()->Some_0.1 },
        )
    } else {
        Multiset::empty()
    }
}

/// A field in absolute coordinates.
pub trait IsAbsoluteField: IsField<Side = AbsoluteSide> {
    /// The initial arrangement of the official (yhuap) rule.
    fn yhuap_initial() -> (r: Self)
        ensures
            r.wf(),
    ;

    /// The entries of `side`'s reserve.
    fn hop1zuo1_of(&self, side: AbsoluteSide) -> (r: Vec<ColorAndProf>)
        requires
            self.wf(),
        ensures
            r@.to_multiset() == self.reserve(side),
    ;
}

/// Binds one absolute and one relative representation together, with the
/// conversions between their frames.
pub trait CetkaikRepresentation {
    /// The viewpoint of the relative frame.
    type Perspective: Copy + Eq;
    /// Coordinates of the absolute frame.
    type AbsoluteCoord: Copy + Eq;
    /// Coordinates of the relative frame.
    type RelativeCoord: Copy + Eq;
    /// Boards in absolute coordinates.
    type AbsoluteBoard: Clone + IsAbsoluteBoard<
        PieceWithSide = Self::AbsolutePiece,
        Coord = Self::AbsoluteCoord,
    >;
    /// Boards in relative coordinates.
    type RelativeBoard: Clone + IsBoard<PieceWithSide = Self::RelativePiece, Coord = Self::RelativeCoord>;
    /// Pieces in absolute terms.
    type AbsolutePiece: Copy + Eq + IsPieceWithSide<Side = AbsoluteSide>;
    /// Pieces in relative terms.
    type RelativePiece: Copy + Eq + IsPieceWithSide<Side = Self::RelativeSide>;
    /// Fields in absolute coordinates.
    type AbsoluteField: Clone + IsField<
        PieceWithSide = Self::AbsolutePiece,
        Coord = Self::AbsoluteCoord,
        Side = AbsoluteSide,
        Board = Self::AbsoluteBoard,
    > + IsAbsoluteField;
    /// Fields in relative coordinates.
    type RelativeField;
    /// Sides as seen from a perspective.
    type RelativeSide: Copy + Eq;

    /// `c` names a square of the relative frame.
    spec fn is_relative_square(c: Self::RelativeCoord) -> bool;

    /// The absolute square that `c` names from `p`.
    spec fn absolute_of(c: Self::RelativeCoord, p: Self::Perspective) -> Self::AbsoluteCoord;

    /// The relative coordinate of the absolute square `c` from `p`.
    spec fn relative_of(c: Self::AbsoluteCoord, p: Self::Perspective) -> Self::RelativeCoord;

    /// The two conversions undo each other.
    proof fn lemma_coord_round_trip(c: Self::RelativeCoord, a: Self::AbsoluteCoord, p: Self::Perspective)
        requires
            Self::is_relative_square(c),
        ensures
            Self::relative_of(Self::absolute_of(c, p), p) == c,
            Self::absolute_of(Self::relative_of(a, p), p) == a,
    ;

    /// Converts a relative coordinate to the absolute frame.
    fn to_absolute_coord(coord: Self::RelativeCoord, p: Self::Perspective) -> (r: Self::AbsoluteCoord)
        requires
            Self::is_relative_square(coord),
        ensures
            r == Self::absolute_of(coord, p),
    ;

    /// Converts an absolute coordinate to the relative frame.
    fn to_relative_coord(coord: Self::AbsoluteCoord, p: Self::Perspective) -> (r: Self::RelativeCoord)
        ensures
            r == Self::relative_of(coord, p),
            Self::is_relative_square(r),
    ;

    /// The relative coordinate at the given offset, if it is on the board.
    fn add_delta(coord: Self::RelativeCoord, row_delta: isize, col_delta: isize) -> (r: Option<
        Self::RelativeCoord,
    >)
        ensures
            r matches Some(c) ==> Self::is_relative_square(c),
    ;

    /// Whether Tam2 standing at `coord` takes its default hue.
    fn is_tam_hue_by_default(coord: Self::RelativeCoord) -> bool;

    /// The neutral piece in relative terms.
    fn relative_tam2() -> (r: Self::RelativePiece)
        ensures
            r.parts() is None,
    ;

    /// The neutral piece in absolute terms.
    fn absolute_tam2() -> (r: Self::AbsolutePiece)
        ensures
            r.parts() is None,
    ;

    /// Whether `s` plays upward.
    fn is_upward(s: Self::RelativeSide) -> (r: bool)
        ensures
            r == Self::upward(s),
    ;

    /// Borrows the board of an absolute field.
    fn as_board_absolute(field: &Self::AbsoluteField) -> (r: &Self::AbsoluteBoard)
        requires
            field.wf(),
        ensures
            r.wf(),
            r.slots() == field.board_slots(),
    ;

    /// The board of a relative field.
    spec fn relative_board(field: &Self::RelativeField) -> Self::RelativeBoard;

    /// Borrows the board of a relative field.
    fn as_board_relative(field: &Self::RelativeField) -> (r: &Self::RelativeBoard)
        ensures
            *r == Self::relative_board(field),
    ;

    /// The relative coordinates that are water.
    spec fn water_relative(c: Self::RelativeCoord) -> bool;

    /// The absolute coordinates that are water.
    spec fn water_absolute(c: Self::AbsoluteCoord) -> bool;

    /// Water is the same squares in both frames, from either perspective.
    proof fn lemma_water_frames(c: Self::RelativeCoord, p: Self::Perspective)
        requires
            Self::is_relative_square(c),
        ensures
            Self::water_relative(c) == Self::water_absolute(Self::absolute_of(c, p)),
    ;

    /// Whether a relative coordinate is water.
    fn is_water_relative(c: Self::RelativeCoord) -> (r: bool)
        ensures
            r == Self::water_relative(c),
    ;

    /// Whether an absolute coordinate is water.
    fn is_water_absolute(c: Self::AbsoluteCoord) -> (r: bool)
        ensures
            r == Self::water_absolute(c),
    ;

    /// The field as seen from `p`, as an independent value: each square
    /// re-expressed through the coordinate bijection, with the same color and
    /// profession and the side seen from `p`.
    fn to_relative_field(field: Self::AbsoluteField, p: Self::Perspective) -> (r: Self::RelativeField)
        requires
            field.wf(),
        ensures
            Self::relative_board(&r).wf(),
            forall|c: Self::RelativeCoord|
                Self::is_relative_square(c) ==> (#[trigger] Self::relative_board(&r).slots().contains_key(c)
                    <==> field.board_slots().contains_key(Self::absolute_of(c, p))),
            forall|c: Self::RelativeCoord|
                #![trigger Self::relative_board(&r).slots()[c]]
                Self::is_relative_square(c) && field.board_slots().contains_key(Self::absolute_of(c, p))
                    ==> Self::relative_board(&r).slots()[c].parts() == match field.board_slots()[Self::absolute_of(c, p)].parts() {
                    Some((col, prof, s)) => Some((col, prof, Self::relative_side_of(s, p))),
                    None => None,
                },
    ;

    /// How `side` appears from `p`.
    spec fn relative_side_of(side: AbsoluteSide, p: Self::Perspective) -> Self::RelativeSide;

    /// Whether a relative side plays upward.
    spec fn upward(s: Self::RelativeSide) -> bool;

    /// From any perspective exactly one of the two sides plays upward.
    proof fn lemma_sides_opposed(p: Self::Perspective)
        ensures
            Self::upward(Self::relative_side_of(AbsoluteSide::ASide, p)) != Self::upward(
                Self::relative_side_of(AbsoluteSide::IASide, p),
            ),
    ;

    /// How `side` appears from `p`.
    fn to_relative_side(side: AbsoluteSide, p: Self::Perspective) -> (r: Self::RelativeSide)
        ensures
            r == Self::relative_side_of(side, p),
    ;

    /// The fixed perspective.
    spec fn one_perspective() -> Self::Perspective;

    /// A perspective for contexts that need one fixed viewpoint.
    fn get_one_perspective() -> (r: Self::Perspective)
        ensures
            r == Self::one_perspective(),
    ;

    /// The distance between two absolute squares.
    spec fn distance(a: Self::AbsoluteCoord, b: Self::AbsoluteCoord) -> int;

    /// Distance is symmetric, and zero exactly between a square and itself.
    proof fn lemma_distance(a: Self::AbsoluteCoord, b: Self::AbsoluteCoord)
        ensures
            Self::distance(a, b) == Self::distance(b, a),
            Self::distance(a, b) >= 0,
            Self::distance(a, b) == 0 <==> a == b,
    ;

    /// The distance between two absolute squares.
    fn absolute_distance(a: Self::AbsoluteCoord, b: Self::AbsoluteCoord) -> (r: i32)
        ensures
            r as int == Self::distance(a, b),
    ;

    /// `a` and `b` lie on one ray out of `origin`.
    spec fn same_direction(origin: Self::AbsoluteCoord, a: Self::AbsoluteCoord, b: Self::AbsoluteCoord) -> bool;

    /// Whether `a` and `b` lie on one ray out of `origin`.
    fn absolute_same_direction(
        origin: Self::AbsoluteCoord,
        a: Self::AbsoluteCoord,
        b: Self::AbsoluteCoord,
    ) -> (r: bool)
        ensures
            r == Self::same_direction(origin, a, b),
    ;
}

/// The content of square `c` of a board with occupied squares `m`.
pub open spec fn slot_of<C, P>(m: Map<C, P>, c: C) -> Option<P> {
    if m.contains_key(c) {
        Some(m[c])
    } else {
        None
    }
}

/// The occupied squares after setting square `c` to exactly `p`.
pub open spec fn with_slot<C, P>(m: Map<C, P>, c: C, p: Option<P>) -> Map<C, P> {
    match p {
        Some(x) => m.insert(c, x),
        None => m.remove(c),
    }
}

} // verus!
