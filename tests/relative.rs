use cetkaik_fundamental::{AbsoluteSide, Color, ColorAndProf, Profession};
use cetkaik_traits::board::{Board, Column, Coord, Piece, Row};
use cetkaik_traits::field::Field;
use cetkaik_traits::perspective::{add_delta, Perspective, RelativeCoord, RelativeSide};
use cetkaik_traits::relative::{to_relative_field, to_relative_piece, RelativePiece};
use cetkaik_traits::traits::{IsBoard, IsPieceWithSide};

fn sample_field() -> Field {
    let mut board = Board::empty();
    board.put(
        Coord { row: Row::A, col: Column::K },
        Some(Piece::NonTam2Piece { color: Color::Huok2, prof: Profession::Kua2, side: AbsoluteSide::ASide }),
    );
    board.put(Coord { row: Row::O, col: Column::Z }, Some(Piece::Tam2));
    let mut f = Field::from_board(board);
    f.a_side_hop1zuo1.push(ColorAndProf { color: Color::Kok1, prof: Profession::Io });
    f.ia_side_hop1zuo1.push(ColorAndProf { color: Color::Huok2, prof: Profession::Gua2 });
    f
}

#[test]
fn relative_field_from_ia_below() {
    let r = to_relative_field(sample_field(), Perspective::IaIsDownAndPointsUpward);
    assert_eq!(
        r.board.peek(RelativeCoord { row: 0, col: 0 }),
        Some(RelativePiece::NonTam2Piece {
            color: Color::Huok2,
            prof: Profession::Kua2,
            side: RelativeSide::Downward,
        })
    );
    assert_eq!(r.board.peek(RelativeCoord { row: 4, col: 4 }), Some(RelativePiece::Tam2));
    assert_eq!(r.board.peek(RelativeCoord { row: 8, col: 8 }), None);
    assert_eq!(r.board.empty_squares().len(), 79);
    assert_eq!(r.upward_hop1zuo1, vec![ColorAndProf { color: Color::Huok2, prof: Profession::Gua2 }]);
    assert_eq!(r.downward_hop1zuo1, vec![ColorAndProf { color: Color::Kok1, prof: Profession::Io }]);
}

#[test]
fn relative_field_from_ia_above() {
    let r = to_relative_field(sample_field(), Perspective::IaIsUpAndPointsDownward);
    assert_eq!(
        r.board.peek(RelativeCoord { row: 8, col: 8 }),
        Some(RelativePiece::NonTam2Piece {
            color: Color::Huok2,
            prof: Profession::Kua2,
            side: RelativeSide::Upward,
        })
    );
    assert_eq!(r.board.peek(RelativeCoord { row: 0, col: 0 }), None);
    assert_eq!(r.upward_hop1zuo1, vec![ColorAndProf { color: Color::Kok1, prof: Profession::Io }]);
    assert_eq!(r.downward_hop1zuo1, vec![ColorAndProf { color: Color::Huok2, prof: Profession::Gua2 }]);
}

#[test]
fn relative_snapshot_is_independent() {
    let f = sample_field();
    let mut r = to_relative_field(f, Perspective::IaIsDownAndPointsUpward);
    let c = RelativeCoord { row: 4, col: 4 };
    assert_eq!(r.board.pop(c), Some(RelativePiece::Tam2));
    let f2 = sample_field();
    assert_eq!(f2.board.peek(Coord { row: Row::O, col: Column::Z }), Some(Piece::Tam2));
    r.board.mov(RelativeCoord { row: 0, col: 0 }, c);
    assert_eq!(r.board.peek(RelativeCoord { row: 0, col: 0 }), None);
    assert!(r.board.peek(c).unwrap().has_prof(Profession::Kua2));
}

#[test]
fn relative_piece_sides() {
    let p = Piece::NonTam2Piece { color: Color::Kok1, prof: Profession::Nuak1, side: AbsoluteSide::IASide };
    assert_eq!(
        to_relative_piece(p, Perspective::IaIsDownAndPointsUpward),
        RelativePiece::NonTam2Piece { color: Color::Kok1, prof: Profession::Nuak1, side: RelativeSide::Upward }
    );
    assert_eq!(to_relative_piece(Piece::Tam2, Perspective::IaIsUpAndPointsDownward), RelativePiece::Tam2);
    let seen = RelativePiece::Tam2.match_on_piece_and_apply(&|| 0u8, &|_, _, _| 1u8);
    assert_eq!(seen, 0);
}

#[test]
fn add_delta_stays_on_board() {
    let c = RelativeCoord { row: 2, col: 7 };
    assert_eq!(add_delta(c, 1, 1), Some(RelativeCoord { row: 3, col: 8 }));
    assert_eq!(add_delta(c, -2, -7), Some(RelativeCoord { row: 0, col: 0 }));
    assert_eq!(add_delta(c, 0, 2), None);
    assert_eq!(add_delta(c, -3, 0), None);
    assert_eq!(add_delta(c, isize::MAX, 0), None);
    assert_eq!(add_delta(c, 0, isize::MIN), None);
}

#[test]
fn relative_board_put_and_pop() {
    let mut b = to_relative_field(Field::from_board(Board::empty()), Perspective::IaIsUpAndPointsDownward).board;
    let c = RelativeCoord { row: 6, col: 1 };
    b.put(c, Some(RelativePiece::Tam2));
    assert_eq!(b.peek(c), Some(RelativePiece::Tam2));
    assert_eq!(b.pop(c), Some(RelativePiece::Tam2));
    assert_eq!(b.empty_squares().len(), 81);
}
