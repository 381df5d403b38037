use cetkaik_fundamental::{AbsoluteSide, Color, ColorAndProf, Profession};
use cetkaik_traits::board::{Board, Column, Coord, Piece, Row};
use cetkaik_traits::field::{
    Field, ERR_EMPTY_SOURCE, ERR_NOT_YOUR_PIECE, ERR_TAM2_AT_DESTINATION, ERR_TAM2_AT_SOURCE,
};
use cetkaik_traits::traits::{IsBoard, IsField, IsPieceWithSide};

fn sq(row: Row, col: Column) -> Coord {
    Coord { row, col }
}

fn piece(color: Color, prof: Profession, side: AbsoluteSide) -> Piece {
    Piece::NonTam2Piece { color, prof, side }
}

fn field_with(pieces: &[(Coord, Piece)]) -> Field {
    let mut board = Board::empty();
    for (c, p) in pieces {
        board.put(*c, Some(*p));
    }
    Field::from_board(board)
}

#[test]
fn parachute_then_reserve_is_empty() {
    let mut f = field_with(&[]);
    f.a_side_hop1zuo1.push(ColorAndProf { color: Color::Kok1, prof: Profession::Kauk2 });
    let d = sq(Row::O, Column::L);
    let g = f
        .search_from_hop1zuo1_and_parachute_at(Color::Kok1, Profession::Kauk2, AbsoluteSide::ASide, d)
        .expect("the entry is in the reserve and the square is empty");
    assert_eq!(
        g.board.peek(d),
        Some(piece(Color::Kok1, Profession::Kauk2, AbsoluteSide::ASide))
    );
    assert!(g.hop1zuo1_of(AbsoluteSide::ASide).is_empty());
    let again = g.search_from_hop1zuo1_and_parachute_at(
        Color::Kok1,
        Profession::Kauk2,
        AbsoluteSide::ASide,
        sq(Row::O, Column::K),
    );
    assert!(again.is_none());
    assert_eq!(f.hop1zuo1_of(AbsoluteSide::ASide).len(), 1);
    assert_eq!(f.board.peek(d), None);
}

#[test]
fn move_takes_opponent_general() {
    let from = sq(Row::I, Column::T);
    let to = sq(Row::U, Column::T);
    let f = field_with(&[
        (from, piece(Color::Kok1, Profession::Kauk2, AbsoluteSide::ASide)),
        (to, piece(Color::Huok2, Profession::Io, AbsoluteSide::IASide)),
    ]);
    let g = f
        .move_nontam_piece_from_src_to_dest_while_taking_opponent_piece_if_needed(
            from,
            to,
            AbsoluteSide::ASide,
        )
        .expect("a legal capture");
    assert_eq!(g.board.peek(from), None);
    assert_eq!(
        g.board.peek(to),
        Some(piece(Color::Kok1, Profession::Kauk2, AbsoluteSide::ASide))
    );
    assert_eq!(
        g.hop1zuo1_of(AbsoluteSide::ASide),
        vec![ColorAndProf { color: Color::Huok2, prof: Profession::Io }]
    );
    assert!(g.hop1zuo1_of(AbsoluteSide::IASide).is_empty());
    // the original field is untouched
    assert_eq!(
        f.board.peek(to),
        Some(piece(Color::Huok2, Profession::Io, AbsoluteSide::IASide))
    );
    assert!(f.hop1zuo1_of(AbsoluteSide::ASide).is_empty());
}

#[test]
fn move_to_empty_square_relocates() {
    let from = sq(Row::A, Column::K);
    let to = sq(Row::E, Column::K);
    let f = field_with(&[(from, piece(Color::Huok2, Profession::Kua2, AbsoluteSide::IASide))]);
    let g = f
        .move_nontam_piece_from_src_to_dest_while_taking_opponent_piece_if_needed(
            from,
            to,
            AbsoluteSide::IASide,
        )
        .unwrap();
    assert_eq!(g.board.peek(from), None);
    assert_eq!(
        g.board.peek(to),
        Some(piece(Color::Huok2, Profession::Kua2, AbsoluteSide::IASide))
    );
    assert!(g.hop1zuo1_of(AbsoluteSide::IASide).is_empty());
    assert!(g.hop1zuo1_of(AbsoluteSide::ASide).is_empty());
}

#[test]
fn move_from_empty_square_is_rejected() {
    let f = field_with(&[]);
    let r = f.move_nontam_piece_from_src_to_dest_while_taking_opponent_piece_if_needed(
        sq(Row::I, Column::T),
        sq(Row::U, Column::T),
        AbsoluteSide::ASide,
    );
    assert_eq!(r.err(), Some(ERR_EMPTY_SOURCE));
}

#[test]
fn move_of_tam2_is_rejected() {
    let from = sq(Row::O, Column::Z);
    let f = field_with(&[(from, Piece::Tam2)]);
    let r = f.move_nontam_piece_from_src_to_dest_while_taking_opponent_piece_if_needed(
        from,
        sq(Row::U, Column::Z),
        AbsoluteSide::ASide,
    );
    assert_eq!(r.err(), Some(ERR_TAM2_AT_SOURCE));
    assert_eq!(f.board.peek(from), Some(Piece::Tam2));
}

#[test]
fn move_onto_tam2_is_rejected() {
    let from = sq(Row::U, Column::Z);
    let to = sq(Row::O, Column::Z);
    let f = field_with(&[
        (from, piece(Color::Kok1, Profession::Dau2, AbsoluteSide::ASide)),
        (to, Piece::Tam2),
    ]);
    let r = f.move_nontam_piece_from_src_to_dest_while_taking_opponent_piece_if_needed(
        from,
        to,
        AbsoluteSide::ASide,
    );
    assert_eq!(r.err(), Some(ERR_TAM2_AT_DESTINATION));
}

#[test]
fn move_of_opponent_piece_is_rejected() {
    let from = sq(Row::AI, Column::N);
    let f = field_with(&[(from, piece(Color::Kok1, Profession::Gua2, AbsoluteSide::IASide))]);
    let r = f.move_nontam_piece_from_src_to_dest_while_taking_opponent_piece_if_needed(
        from,
        sq(Row::Y, Column::N),
        AbsoluteSide::ASide,
    );
    assert_eq!(r.err(), Some(ERR_NOT_YOUR_PIECE));
    assert_eq!(
        f.board.peek(from),
        Some(piece(Color::Kok1, Profession::Gua2, AbsoluteSide::IASide))
    );
}

#[test]
fn parachute_of_absent_entry_gives_nothing() {
    let mut f = field_with(&[]);
    f.ia_side_hop1zuo1.push(ColorAndProf { color: Color::Huok2, prof: Profession::Maun1 });
    let d = sq(Row::Y, Column::X);
    assert!(f
        .search_from_hop1zuo1_and_parachute_at(Color::Kok1, Profession::Maun1, AbsoluteSide::IASide, d)
        .is_none());
    assert!(f
        .search_from_hop1zuo1_and_parachute_at(Color::Huok2, Profession::Maun1, AbsoluteSide::ASide, d)
        .is_none());
    assert_eq!(f.hop1zuo1_of(AbsoluteSide::IASide).len(), 1);
}

#[test]
fn parachute_onto_occupied_square_gives_nothing() {
    let d = sq(Row::Y, Column::X);
    let mut f = field_with(&[(d, piece(Color::Kok1, Profession::Nuak1, AbsoluteSide::ASide))]);
    f.ia_side_hop1zuo1.push(ColorAndProf { color: Color::Huok2, prof: Profession::Maun1 });
    assert!(f
        .search_from_hop1zuo1_and_parachute_at(Color::Huok2, Profession::Maun1, AbsoluteSide::IASide, d)
        .is_none());
    assert_eq!(f.hop1zuo1_of(AbsoluteSide::IASide).len(), 1);
}

#[test]
fn parachute_takes_one_of_two_equal_entries() {
    let mut f = field_with(&[]);
    let cp = ColorAndProf { color: Color::Huok2, prof: Profession::Tuk2 };
    let other = ColorAndProf { color: Color::Kok1, prof: Profession::Tuk2 };
    f.ia_side_hop1zuo1.push(cp);
    f.ia_side_hop1zuo1.push(other);
    f.ia_side_hop1zuo1.push(cp);
    let d = sq(Row::E, Column::M);
    let g = f
        .search_from_hop1zuo1_and_parachute_at(Color::Huok2, Profession::Tuk2, AbsoluteSide::IASide, d)
        .unwrap();
    let left = g.hop1zuo1_of(AbsoluteSide::IASide);
    assert_eq!(left.len(), 2);
    assert_eq!(left.iter().filter(|e| **e == cp).count(), 1);
    assert_eq!(left.iter().filter(|e| **e == other).count(), 1);
    assert_eq!(
        g.board.peek(d),
        Some(piece(Color::Huok2, Profession::Tuk2, AbsoluteSide::IASide))
    );
}

#[test]
fn capture_keeps_every_identity() {
    let from = sq(Row::U, Column::C);
    let to = sq(Row::Y, Column::C);
    let mut f = field_with(&[
        (from, piece(Color::Huok2, Profession::Uai1, AbsoluteSide::IASide)),
        (to, piece(Color::Kok1, Profession::Kaun1, AbsoluteSide::ASide)),
    ]);
    f.ia_side_hop1zuo1.push(ColorAndProf { color: Color::Kok1, prof: Profession::Nuak1 });
    let g = f
        .move_nontam_piece_from_src_to_dest_while_taking_opponent_piece_if_needed(
            from,
            to,
            AbsoluteSide::IASide,
        )
        .unwrap();
    assert_eq!(
        g.hop1zuo1_of(AbsoluteSide::IASide),
        vec![
            ColorAndProf { color: Color::Kok1, prof: Profession::Nuak1 },
            ColorAndProf { color: Color::Kok1, prof: Profession::Kaun1 },
        ]
    );
    assert_eq!(g.board.empty_squares().len(), 80);
}

#[test]
fn as_board_shows_the_field_board() {
    let c = sq(Row::IA, Column::P);
    let f = field_with(&[(c, Piece::Tam2)]);
    assert_eq!(f.as_board().peek(c), Some(Piece::Tam2));
}

#[test]
fn has_prof_sees_only_ordinary_pieces() {
    assert!(piece(Color::Kok1, Profession::Io, AbsoluteSide::ASide).has_prof(Profession::Io));
    assert!(!piece(Color::Kok1, Profession::Io, AbsoluteSide::ASide).has_prof(Profession::Uai1));
    assert!(!Piece::Tam2.has_prof(Profession::Io));
}
