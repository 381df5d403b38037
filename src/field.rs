//! A concrete absolute field: one board and one reserve (hop1zuo1) per side,
//! with the move-with-capture and parachute transactions.
use vstd::multiset::Multiset;
use vstd::prelude::*;

use cetkaik_fundamental::{AbsoluteSide, Color, ColorAndProf, Profession};

use crate::board::{Board, Coord, Piece};
use crate::fundamental::{color_and_prof_eq, other_side, side_eq};
use crate::traits::{move_allowed, taken_by_move, IsBoard, IsField};

verus! {

broadcast use vstd::seq_lib::group_to_multiset_ensures;

/// Rejection: nothing stands at the source square.
pub const ERR_EMPTY_SOURCE: &'static str = "expected a piece at the source square, found none";

/// Rejection: the piece at the source square is Tam2.
pub const ERR_TAM2_AT_SOURCE: &'static str = "expected a non-Tam2 piece at the source square, found Tam2";

/// Rejection: the piece at the destination square is Tam2.
pub const ERR_TAM2_AT_DESTINATION: &'static str = "cannot take Tam2 at the destination square";

/// Rejection: the piece at the source square belongs to the other side.
pub const ERR_NOT_YOUR_PIECE: &'static str = "the piece at the source square does not belong to the side to move";

/// A field in absolute coordinates.
#[derive(Clone, Debug)]
pub struct Field {
    pub board: Board,
    pub a_side_hop1zuo1: Vec<ColorAndProf>,
    pub ia_side_hop1zuo1: Vec<ColorAndProf>,
}

/// The ordinary piece that parachuting `(color, prof)` for `side` places.
pub open spec fn parachuted(color: Color, prof: Profession, side: AbsoluteSide) -> Piece {
    Piece::NonTam2Piece { color, prof, side }
}

pub(crate) fn copy_reserve(v: &Vec<ColorAndProf>) -> (r: Vec<ColorAndProf>)
    ensures
        r@ == v@,
{
    let mut r: Vec<ColorAndProf> = Vec::new();
    let mut i: usize = 0;
    while i < v.len()
        invariant
            i <= v@.len(),
            r@ == v@.subrange(0, i as int),
        decreases v@.len() - i,
    {
        r.push(v[i]);
        i = i + 1;
    }
    assert(r@ =~= v@);
    r
}

impl Field {
    /// The representation is consistent.
    pub open spec fn wf(&self) -> bool {
        self.board.wf()
    }

    /// The reserve of `side`, in order.
    pub open spec fn hop1zuo1(&self, side: AbsoluteSide) -> Seq<ColorAndProf> {
        match side {
            AbsoluteSide::ASide => self.a_side_hop1zuo1@,
            AbsoluteSide::IASide => self.ia_side_hop1zuo1@,
        }
    }

    /// Why moving from `from` to `to` for `whose_turn` is rejected, if it is.
    pub open spec fn move_rejection(
        &self,
        from: Coord,
        to: Coord,
        whose_turn: AbsoluteSide,
    ) -> Option<&'static str> {
        let slots = self.board.slots();
        if !slots.contains_key(from) {
            Some(ERR_EMPTY_SOURCE)
        } else if slots[from] == Piece::Tam2 {
            Some(ERR_TAM2_AT_SOURCE)
        } else if slots.contains_key(to) && slots[to] == Piece::Tam2 {
            Some(ERR_TAM2_AT_DESTINATION)
        } else if slots[from]->side != whose_turn {
            Some(ERR_NOT_YOUR_PIECE)
        } else {
            None
        }
    }

    /// The color and profession taken when moving from `from` to `to`:
    /// those of the ordinary piece standing on another square `to`.
    pub open spec fn taken(&self, from: Coord, to: Coord) -> Option<ColorAndProf> {
        let slots = self.board.slots();
        if from != to && slots.contains_key(to) && slots[to] is NonTam2Piece {
            Some(ColorAndProf { color: slots[to]->color, prof: slots[to]->prof })
        } else {
            None
        }
    }

    /// The reserve of `side` gains `taken`, if anything was taken.
    pub open spec fn gains(before: Seq<ColorAndProf>, taken: Option<ColorAndProf>) -> Seq<ColorAndProf> {
        match taken {
            Some(cp) => before.push(cp),
            None => before,
        }
    }

    /// `g` is what moving from `from` to `to` for `whose_turn` makes of this
    /// field: `from` vacated, its piece at `to`, and whatever was taken added
    /// to the mover's reserve; the other reserve as it was.
    pub open spec fn moved_to(&self, from: Coord, to: Coord, whose_turn: AbsoluteSide, g: Field) -> bool {
        &&& g.wf()
        &&& g.board.slots() == self.board.slots().remove(from).insert(to, self.board.slots()[from])
        &&& g.hop1zuo1(whose_turn) == Field::gains(self.hop1zuo1(whose_turn), self.taken(from, to))
        &&& g.hop1zuo1(other_side(whose_turn)) == self.hop1zuo1(other_side(whose_turn))
    }

    /// `g` is what parachuting `(color, prof)` for `side` at `dest` makes of
    /// this field: one matching entry gone from `side`'s reserve, the piece at
    /// `dest`, the other reserve as it was.
    pub open spec fn parachuted_to(
        &self,
        color: Color,
        prof: Profession,
        side: AbsoluteSide,
        dest: Coord,
        g: Field,
    ) -> bool {
        &&& g.wf()
        &&& g.board.slots() == self.board.slots().insert(dest, parachuted(color, prof, side))
        &&& g.hop1zuo1(side).to_multiset() == self.hop1zuo1(side).to_multiset().remove(
            ColorAndProf { color, prof },
        )
        &&& g.hop1zuo1(other_side(side)) == self.hop1zuo1(other_side(side))
    }

    /// A field made of `board` with empty reserves.
    pub fn from_board(board: Board) -> (r: Field)
        requires
            board.wf(),
        ensures
            r.wf(),
            r.board.slots() == board.slots(),
            r.hop1zuo1(AbsoluteSide::ASide) == Seq::<ColorAndProf>::empty(),
            r.hop1zuo1(AbsoluteSide::IASide) == Seq::<ColorAndProf>::empty(),
    {
        Field { board, a_side_hop1zuo1: Vec::new(), ia_side_hop1zuo1: Vec::new() }
    }

    /// An independent copy.
    pub fn copied(&self) -> (r: Field)
        requires
            self.wf(),
        ensures
            r.wf(),
            r.board.slots() == self.board.slots(),
            r.a_side_hop1zuo1@ == self.a_side_hop1zuo1@,
            r.ia_side_hop1zuo1@ == self.ia_side_hop1zuo1@,
    {
        Field {
            board: self.board.copied(),
            a_side_hop1zuo1: copy_reserve(&self.a_side_hop1zuo1),
            ia_side_hop1zuo1: copy_reserve(&self.ia_side_hop1zuo1),
        }
    }

    /// The entries of `side`'s reserve, in order.
    pub fn hop1zuo1_of(&self, side: AbsoluteSide) -> (r: Vec<ColorAndProf>)
        ensures
            r@ == self.hop1zuo1(side),
    {
        match side {
            AbsoluteSide::ASide => copy_reserve(&self.a_side_hop1zuo1),
            AbsoluteSide::IASide => copy_reserve(&self.ia_side_hop1zuo1),
        }
    }

    fn add_to_hop1zuo1(&mut self, side: AbsoluteSide, cp: ColorAndProf)
        ensures
            final(self).board == old(self).board,
            final(self).hop1zuo1(side) == old(self).hop1zuo1(side).push(cp),
            final(self).hop1zuo1(other_side(side)) == old(self).hop1zuo1(
                other_side(side),
            ),
    {
        match side {
            AbsoluteSide::ASide => self.a_side_hop1zuo1.push(cp),
            AbsoluteSide::IASide => self.ia_side_hop1zuo1.push(cp),
        }
    }

    /// Moves the non-Tam2 piece at `from` to `to` for `whose_turn`, taking the
    /// piece at `to` into `whose_turn`'s reserve if there is one. The result is
    /// a new field; `self` is left as it was.
    pub fn move_nontam_piece_from_src_to_dest_while_taking_opponent_piece_if_needed(
        &self,
        from: Coord,
        to: Coord,
        whose_turn: AbsoluteSide,
    ) -> (r: Result<Field, &'static str>)
        requires
            self.wf(),
        ensures
            match self.move_rejection(from, to, whose_turn) {
                Some(e) => r == Err::<Field, &'static str>(e),
                None => r is Ok,
            },
            r matches Ok(f) ==> self.moved_to(from, to, whose_turn, f),
    {
        let src = self.board.peek(from);
        let side = match src {
            None => {
                return Err(ERR_EMPTY_SOURCE);
            },
            Some(Piece::Tam2) => {
                return Err(ERR_TAM2_AT_SOURCE);
            },
            Some(Piece::NonTam2Piece { color: _, prof: _, side }) => side,
        };
        let dst = self.board.peek(to);
        if let Some(Piece::Tam2) = dst {
            return Err(ERR_TAM2_AT_DESTINATION);
        }
        if !side_eq(side, whose_turn) {
            return Err(ERR_NOT_YOUR_PIECE);
        }
        let mut new_field = self.copied();
        let moving = new_field.board.pop(from);
        let target = new_field.board.pop(to);
        if let Some(Piece::NonTam2Piece { color, prof, side: _ }) = target {
            new_field.add_to_hop1zuo1(whose_turn, ColorAndProf { color, prof });
        }
        new_field.board.put(to, moving);
        assert(new_field.board.slots() =~= self.board.slots().remove(from).insert(to, self.board.slots()[from]));
        Ok(new_field)
    }

    /// Takes one `(color, prof)` entry out of `side`'s reserve and places it,
    /// as a piece of `side`, at the empty square `dest`. `None` when no such
    /// entry exists or `dest` is occupied. The result is a new field; `self`
    /// is left as it was.
    pub fn search_from_hop1zuo1_and_parachute_at(
        &self,
        color: Color,
        prof: Profession,
        side: AbsoluteSide,
        dest: Coord,
    ) -> (r: Option<Field>)
        requires
            self.wf(),
        ensures
            r is None <==> (self.board.slots().contains_key(dest)
                || !self.hop1zuo1(side).contains(ColorAndProf { color, prof })),
            r matches Some(f) ==> self.parachuted_to(color, prof, side, dest, f),
    {
        if self.board.peek(dest).is_some() {
            return None;
        }
        let wanted = ColorAndProf { color, prof };
        let reserve = match side {
            AbsoluteSide::ASide => &self.a_side_hop1zuo1,
            AbsoluteSide::IASide => &self.ia_side_hop1zuo1,
        };
        let mut i: usize = 0;
        while i < reserve.len()
            invariant
                reserve@ == self.hop1zuo1(side),
                i <= reserve@.len(),
                forall|j: int| 0 <= j < i ==> reserve@[j] != wanted,
            ensures
                i <= reserve@.len(),
                forall|j: int| 0 <= j < i ==> reserve@[j] != wanted,
                i < reserve@.len() ==> reserve@[i as int] == wanted,
            decreases reserve@.len() - i,
        {
            if color_and_prof_eq(reserve[i], wanted) {
                break;
            }
            i = i + 1;
        }
        if i == reserve.len() {
            return None;
        }
        let mut new_field = self.copied();
        let ghost before = new_field.hop1zuo1(side);
        match side {
            AbsoluteSide::ASide => {
                new_field.a_side_hop1zuo1.remove(i);
            },
            AbsoluteSide::IASide => {
                new_field.ia_side_hop1zuo1.remove(i);
            },
        }
        assert(new_field.hop1zuo1(side) == before.remove(i as int));
        assert(before[i as int] == wanted);
        new_field.board.put(dest, Some(Piece::NonTam2Piece { color, prof, side }));
        Some(new_field)
    }
}

impl IsField for Field {
    type Board = Board;
    type Coord = Coord;
    type PieceWithSide = Piece;
    type Side = AbsoluteSide;

    open spec fn wf(&self) -> bool {
        self.board.wf()
    }

    open spec fn board_slots(&self) -> Map<Coord, Piece> {
        self.board.slots()
    }

    open spec fn reserve(&self, side: AbsoluteSide) -> Multiset<ColorAndProf> {
        self.hop1zuo1(side).to_multiset()
    }

    fn move_nontam_piece_from_src_to_dest_while_taking_opponent_piece_if_needed(
        &self,
        from: Coord,
        to: Coord,
        whose_turn: AbsoluteSide,
    ) -> (r: Result<Field, &'static str>) {
        let r = Field::move_nontam_piece_from_src_to_dest_while_taking_opponent_piece_if_needed(
            self,
            from,
            to,
            whose_turn,
        );
        proof {
            let m = self.board.slots();
            assert(self.move_rejection(from, to, whose_turn) is None <==> move_allowed(
                m,
                from,
                to,
                whose_turn,
            ));
            if r is Ok {
                let f = r->Ok_0;
                let taken = self.taken(from, to);
                assert(f.reserve(whose_turn) =~= self.reserve(whose_turn).add(
                    taken_by_move(m, from, to),
                )) by {
                    if let Some(cp) = taken {
                        assert(taken_by_move(m, from, to) == Multiset::singleton(cp));
                    } else {
                        assert(taken_by_move(m, from, to) =~= Multiset::<ColorAndProf>::empty());
                    }
                }
                assert forall|s: AbsoluteSide| s != whose_turn implies #[trigger] f.reserve(s)
                    == self.reserve(s) by {
                    assert(s == other_side(whose_turn));
                }
            }
        }
        r
    }

    fn search_from_hop1zuo1_and_parachute_at(
        &self,
        color: Color,
        prof: Profession,
        side: AbsoluteSide,
        dest: Coord,
    ) -> (r: Option<Field>) {
        let r = Field::search_from_hop1zuo1_and_parachute_at(self, color, prof, side, dest);
        proof {
            let cp = ColorAndProf { color, prof };
            assert(self.hop1zuo1(side).contains(cp) <==> self.reserve(side).count(cp) > 0);
            if r is Some {
                let f = r->Some_0;
                assert(f.board.slots().remove(dest) =~= self.board.slots());
                assert forall|s: AbsoluteSide| s != side implies #[trigger] f.reserve(s)
                    == self.reserve(s) by {
                    assert(s == other_side(side));
                }
            }
        }
        r
    }

    fn as_board(&self) -> (r: &Board) {
        &self.board
    }
}

} // verus!
