//! Laws that relate the operations of boards and fields.
use vstd::multiset::Multiset;
use vstd::prelude::*;

use cetkaik_fundamental::{AbsoluteSide, Color, ColorAndProf, Profession};

use crate::board::{lemma_square_at, lemma_square_index, square_at, square_index, Coord, Piece};
use crate::field::{
    parachuted, Field, ERR_EMPTY_SOURCE, ERR_NOT_YOUR_PIECE, ERR_TAM2_AT_SOURCE,
};
use crate::traits::{slot_of, with_slot, IsBoard};

verus! {

broadcast use vstd::seq_lib::group_to_multiset_ensures;

/// Setting a square to `p` and reading it back gives `p`, and every other
/// square reads as before: a square holds at most one piece, the last put.
pub proof fn lemma_peek_after_put<C, P>(m: Map<C, P>, c: C, p: Option<P>)
    ensures
        slot_of(with_slot(m, c, p), c) == p,
        forall|d: C| d != c ==> slot_of(with_slot(m, c, p), d) == slot_of(m, d),
{
}

/// After moving from an occupied `from` to an empty `to`, `from` reads empty,
/// `to` reads the moved piece, and every other square reads as before.
pub proof fn lemma_mov_relocates<C, P>(m: Map<C, P>, from: C, to: C)
    requires
        m.contains_key(from),
        !m.contains_key(to),
    ensures
        slot_of(m.remove(from).insert(to, m[from]), from) == None::<P>,
        slot_of(m.remove(from).insert(to, m[from]), to) == Some(m[from]),
        forall|d: C|
            d != from && d != to ==> slot_of(m.remove(from).insert(to, m[from]), d) == slot_of(m, d),
{
}

/// The piece on square `c` of `m`, counted once.
pub open spec fn square_piece(m: Map<Coord, Piece>, c: Coord) -> Multiset<Piece> {
    if m.contains_key(c) {
        Multiset::singleton(m[c])
    } else {
        Multiset::empty()
    }
}

/// A piece or nothing, as a multiset.
pub open spec fn piece_multiset(p: Option<Piece>) -> Multiset<Piece> {
    match p {
        Some(x) => Multiset::singleton(x),
        None => Multiset::empty(),
    }
}

/// The pieces on the first `n` squares in row-major order.
pub open spec fn pieces_upto(m: Map<Coord, Piece>, n: nat) -> Multiset<Piece>
    decreases n,
{
    if n == 0 {
        Multiset::empty()
    } else {
        pieces_upto(m, (n - 1) as nat).add(square_piece(m, square_at(n - 1)))
    }
}

/// The pieces on a board, each counted once per square it stands on.
pub open spec fn board_pieces(m: Map<Coord, Piece>) -> Multiset<Piece> {
    pieces_upto(m, 81)
}

proof fn lemma_pieces_one_square(m1: Map<Coord, Piece>, m2: Map<Coord, Piece>, c: Coord, n: nat)
    requires
        n <= 81,
        forall|d: Coord| d != c ==> square_piece(m1, d) == square_piece(m2, d),
    ensures
        square_index(c) < n ==> pieces_upto(m1, n).add(square_piece(m2, c))
            == pieces_upto(m2, n).add(square_piece(m1, c)),
        square_index(c) >= n ==> pieces_upto(m1, n) == pieces_upto(m2, n),
    decreases n,
{
    if n > 0 {
        lemma_pieces_one_square(m1, m2, c, (n - 1) as nat);
        let d = square_at(n - 1);
        lemma_square_at(n - 1);
        lemma_square_index(c);
        let prev1 = pieces_upto(m1, (n - 1) as nat);
        let prev2 = pieces_upto(m2, (n - 1) as nat);
        assert(pieces_upto(m1, n) == prev1.add(square_piece(m1, d)));
        assert(pieces_upto(m2, n) == prev2.add(square_piece(m2, d)));
        if d == c {
            assert(prev1 == prev2);
            assert(pieces_upto(m1, n).add(square_piece(m2, c)) =~= pieces_upto(m2, n).add(
                square_piece(m1, c),
            ));
        } else {
            assert(square_piece(m1, d) == square_piece(m2, d));
            if square_index(c) < n {
                assert(prev1.add(square_piece(m2, c)) == prev2.add(square_piece(m1, c)));
                assert forall|x: Piece|
                    #[trigger] pieces_upto(m1, n).add(square_piece(m2, c)).count(x)
                        == pieces_upto(m2, n).add(square_piece(m1, c)).count(x) by {
                    assert(prev1.add(square_piece(m2, c)).count(x) == prev2.add(
                        square_piece(m1, c),
                    ).count(x));
                }
                assert(pieces_upto(m1, n).add(square_piece(m2, c)) =~= pieces_upto(m2, n).add(
                    square_piece(m1, c),
                ));
            }
        }
    }
}

/// Putting `p` on square `c` replaces what stood there and changes no other
/// piece: the board's pieces lose the old occupant of `c` and gain `p`.
pub proof fn lemma_put_replaces_one_piece(m: Map<Coord, Piece>, c: Coord, p: Option<Piece>)
    ensures
        board_pieces(with_slot(m, c, p)).add(square_piece(m, c)) == board_pieces(m).add(
            piece_multiset(p),
        ),
{
    let m2 = with_slot(m, c, p);
    assert forall|d: Coord| d != c implies square_piece(m2, d) == square_piece(m, d) by {}
    lemma_square_index(c);
    lemma_pieces_one_square(m2, m, c, 81);
    assert(square_piece(m2, c) == piece_multiset(p));
}

/// Moving a piece from `from` to an empty `to` keeps the board's pieces.
pub proof fn lemma_mov_keeps_pieces(m: Map<Coord, Piece>, from: Coord, to: Coord)
    requires
        m.contains_key(from),
        from == to || !m.contains_key(to),
    ensures
        board_pieces(m.remove(from).insert(to, m[from])) == board_pieces(m),
{
    let x = m[from];
    let m1 = m.remove(from);
    let m2 = m1.insert(to, x);
    if from == to {
        assert(m2 =~= m);
    } else {
        lemma_put_replaces_one_piece(m, from, None);
        assert(with_slot(m, from, None) == m1);
        assert(square_piece(m, from) == Multiset::singleton(x));
        lemma_put_replaces_one_piece(m1, to, Some(x));
        assert(with_slot(m1, to, Some(x)) == m2);
        assert(square_piece(m1, to) =~= Multiset::<Piece>::empty());
        assert(piece_multiset(None) =~= Multiset::<Piece>::empty());
        assert forall|y: Piece| #[trigger] board_pieces(m2).count(y) == board_pieces(m).count(y) by {
            assert(board_pieces(m2).add(square_piece(m1, to)).count(y) == board_pieces(m1).add(
                piece_multiset(Some(x)),
            ).count(y));
            assert(board_pieces(m1).add(square_piece(m, from)).count(y) == board_pieces(m).add(
                piece_multiset(None),
            ).count(y));
        }
        assert(board_pieces(m2) =~= board_pieces(m));
    }
}

/// The color and profession of a piece, counted once; Tam2 counts nothing.
pub open spec fn identity(p: Piece) -> Multiset<ColorAndProf> {
    match p {
        Piece::Tam2 => Multiset::empty(),
        Piece::NonTam2Piece { color, prof, side: _ } => Multiset::singleton(
            ColorAndProf { color, prof },
        ),
    }
}

/// What square `c` of `m` counts.
pub open spec fn square_identity(m: Map<Coord, Piece>, c: Coord) -> Multiset<ColorAndProf> {
    if m.contains_key(c) {
        identity(m[c])
    } else {
        Multiset::empty()
    }
}

/// The identities on the first `n` squares in row-major order.
pub open spec fn identities_upto(m: Map<Coord, Piece>, n: nat) -> Multiset<ColorAndProf>
    decreases n,
{
    if n == 0 {
        Multiset::empty()
    } else {
        identities_upto(m, (n - 1) as nat).add(square_identity(m, square_at(n - 1)))
    }
}

/// The identities of the pieces on a board.
pub open spec fn board_identities(m: Map<Coord, Piece>) -> Multiset<ColorAndProf> {
    identities_upto(m, 81)
}

/// The identities on a field: its board and both reserves.
pub open spec fn field_identities(f: Field) -> Multiset<ColorAndProf> {
    board_identities(f.board.slots()).add(f.hop1zuo1(AbsoluteSide::ASide).to_multiset()).add(
        f.hop1zuo1(AbsoluteSide::IASide).to_multiset(),
    )
}

proof fn lemma_identities_one_square(m1: Map<Coord, Piece>, m2: Map<Coord, Piece>, c: Coord, n: nat)
    requires
        n <= 81,
        forall|d: Coord| d != c ==> square_identity(m1, d) == square_identity(m2, d),
    ensures
        square_index(c) < n ==> identities_upto(m1, n).add(square_identity(m2, c))
            == identities_upto(m2, n).add(square_identity(m1, c)),
        square_index(c) >= n ==> identities_upto(m1, n) == identities_upto(m2, n),
    decreases n,
{
    if n > 0 {
        lemma_identities_one_square(m1, m2, c, (n - 1) as nat);
        let d = square_at(n - 1);
        lemma_square_at(n - 1);
        lemma_square_index(c);
        if d == c {
            assert(identities_upto(m1, n).add(square_identity(m2, c)) =~= identities_upto(m2, n).add(
                square_identity(m1, c),
            ));
        } else {
            assert(square_index(c) != n - 1);
            assert(square_identity(m1, d) == square_identity(m2, d));
            if square_index(c) < n {
                assert(square_index(c) < n - 1);
                let prev1 = identities_upto(m1, (n - 1) as nat);
                let prev2 = identities_upto(m2, (n - 1) as nat);
                assert(prev1.add(square_identity(m2, c)) == prev2.add(square_identity(m1, c)));
                assert(identities_upto(m1, n) == prev1.add(square_identity(m1, d)));
                assert(identities_upto(m2, n) == prev2.add(square_identity(m2, d)));
                assert forall|x: ColorAndProf|
                    #[trigger] identities_upto(m1, n).add(square_identity(m2, c)).count(x)
                        == identities_upto(m2, n).add(square_identity(m1, c)).count(x) by {
                    assert(prev1.add(square_identity(m2, c)).count(x) == prev2.add(
                        square_identity(m1, c),
                    ).count(x));
                }
                assert(identities_upto(m1, n).add(square_identity(m2, c)) =~= identities_upto(
                    m2,
                    n,
                ).add(square_identity(m1, c)));
            }
        }
    }
}

/// A move that takes an ordinary piece keeps every color and profession on
/// the field: the taken piece leaves the board and enters the mover's reserve
/// with the same color and profession, and the mover's piece only changes
/// square.
pub proof fn lemma_capture_conserves_identities(
    f: Field,
    from: Coord,
    to: Coord,
    whose_turn: AbsoluteSide,
    g: Field,
)
    requires
        f.wf(),
        f.move_rejection(from, to, whose_turn) is None,
        f.taken(from, to) is Some,
        f.moved_to(from, to, whose_turn, g),
    ensures
        field_identities(g) == field_identities(f),
        g.hop1zuo1(whose_turn).to_multiset() == f.hop1zuo1(whose_turn).to_multiset().insert(
            f.taken(from, to)->Some_0,
        ),
        !g.board.slots().contains_key(from),
        g.board.slots()[to] == f.board.slots()[from],
{
    let m = f.board.slots();
    let p = m[from];
    let m1 = m.remove(from);
    let m2 = m1.insert(to, p);
    let cp = f.taken(from, to)->Some_0;
    assert(g.board.slots() == m2);
    lemma_square_index(from);
    lemma_square_index(to);
    assert forall|d: Coord| d != from implies square_identity(m1, d) == square_identity(m, d) by {}
    lemma_identities_one_square(m1, m, from, 81);
    assert(square_identity(m1, from) =~= Multiset::empty());
    assert forall|d: Coord| d != to implies square_identity(m2, d) == square_identity(m1, d) by {}
    lemma_identities_one_square(m2, m1, to, 81);
    assert(square_identity(m1, to) =~= Multiset::singleton(cp));
    assert(square_identity(m2, to) == identity(p));
    assert(square_identity(m, from) == identity(p));
    // board(m2) + {cp} == board(m1) + id(p) and board(m1) + id(p) == board(m)
    assert(board_identities(m2).insert(cp) =~= board_identities(m));
    let a = AbsoluteSide::ASide;
    let ia = AbsoluteSide::IASide;
    assert(g.hop1zuo1(whose_turn).to_multiset() =~= f.hop1zuo1(whose_turn).to_multiset().insert(cp));
    if whose_turn == a {
        assert(field_identities(g) =~= field_identities(f));
    } else {
        assert(whose_turn == ia);
        assert(field_identities(g) =~= field_identities(f));
    }
}

/// A move is rejected from an empty square, from Tam2, and with a piece of
/// the other side, each with its own message; `to` holding Tam2 aside.
pub proof fn lemma_move_rejections(f: Field, from: Coord, to: Coord, whose_turn: AbsoluteSide)
    ensures
        !f.board.slots().contains_key(from) ==> f.move_rejection(from, to, whose_turn) == Some(
            ERR_EMPTY_SOURCE,
        ),
        f.board.slots().contains_key(from) && f.board.slots()[from] == Piece::Tam2
            ==> f.move_rejection(from, to, whose_turn) == Some(ERR_TAM2_AT_SOURCE),
        f.board.slots().contains_key(from) && f.board.slots()[from] is NonTam2Piece
            && f.board.slots()[from]->side != whose_turn && slot_of(f.board.slots(), to) != Some(
            Piece::Tam2,
        ) ==> f.move_rejection(from, to, whose_turn) == Some(ERR_NOT_YOUR_PIECE),
{
}

/// Parachuting a present entry onto an empty square takes exactly one entry
/// out of the reserve and leaves exactly one new piece, of that color,
/// profession and side, at the destination.
pub proof fn lemma_parachute_exact(
    f: Field,
    color: Color,
    prof: Profession,
    side: AbsoluteSide,
    dest: Coord,
    g: Field,
)
    requires
        f.wf(),
        f.hop1zuo1(side).contains(ColorAndProf { color, prof }),
        !f.board.slots().contains_key(dest),
        f.parachuted_to(color, prof, side, dest, g),
    ensures
        g.hop1zuo1(side).len() + 1 == f.hop1zuo1(side).len(),
        g.hop1zuo1(side).to_multiset().count(ColorAndProf { color, prof }) + 1 == f.hop1zuo1(
            side,
        ).to_multiset().count(ColorAndProf { color, prof }),
        g.board.slots().dom() == f.board.slots().dom().insert(dest),
        g.board.slots()[dest] == parachuted(color, prof, side),
        forall|d: Coord| d != dest ==> slot_of(g.board.slots(), d) == slot_of(f.board.slots(), d),
{
    let cp = ColorAndProf { color, prof };
    assert(f.hop1zuo1(side).to_multiset().count(cp) > 0);
    assert(g.hop1zuo1(side).to_multiset().len() + 1 == f.hop1zuo1(side).to_multiset().len());
}

} // verus!
