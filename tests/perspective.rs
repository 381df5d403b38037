use cetkaik_fundamental::AbsoluteSide;
use cetkaik_traits::board::{Column, Coord, Row};
use cetkaik_traits::perspective::{
    absolute_distance, absolute_same_direction, get_one_perspective, is_tam_hue_by_default, is_upward,
    is_water_absolute, is_water_relative, to_absolute_coord, to_relative_coord, to_relative_side,
    Perspective, RelativeCoord, RelativeSide,
};

#[test]
fn round_trip_for_every_square_and_perspective() {
    for p in [Perspective::IaIsDownAndPointsUpward, Perspective::IaIsUpAndPointsDownward] {
        for row in 0..9u8 {
            for col in 0..9u8 {
                let c = RelativeCoord { row, col };
                let a = to_absolute_coord(c, p);
                assert_eq!(to_relative_coord(a, p), c);
                assert_eq!(to_absolute_coord(to_relative_coord(a, p), p), a);
            }
        }
    }
}

#[test]
fn perspectives_mirror_the_board() {
    let a = Coord { row: Row::A, col: Column::K };
    assert_eq!(
        to_relative_coord(a, Perspective::IaIsDownAndPointsUpward),
        RelativeCoord { row: 0, col: 0 }
    );
    assert_eq!(
        to_relative_coord(a, Perspective::IaIsUpAndPointsDownward),
        RelativeCoord { row: 8, col: 8 }
    );
    assert_eq!(
        to_absolute_coord(RelativeCoord { row: 1, col: 3 }, Perspective::IaIsUpAndPointsDownward),
        Coord { row: Row::AU, col: Column::X }
    );
}

#[test]
fn relative_sides() {
    assert_eq!(
        to_relative_side(AbsoluteSide::IASide, Perspective::IaIsDownAndPointsUpward),
        RelativeSide::Upward
    );
    assert_eq!(
        to_relative_side(AbsoluteSide::ASide, Perspective::IaIsDownAndPointsUpward),
        RelativeSide::Downward
    );
    assert_eq!(
        to_relative_side(AbsoluteSide::ASide, Perspective::IaIsUpAndPointsDownward),
        RelativeSide::Upward
    );
    assert!(is_upward(RelativeSide::Upward));
    assert!(!is_upward(RelativeSide::Downward));
    assert_eq!(get_one_perspective(), Perspective::IaIsDownAndPointsUpward);
}

#[test]
fn water_squares() {
    assert!(is_water_absolute(Coord { row: Row::O, col: Column::Z }));
    assert!(is_water_absolute(Coord { row: Row::O, col: Column::N }));
    assert!(is_water_absolute(Coord { row: Row::AI, col: Column::Z }));
    assert!(!is_water_absolute(Coord { row: Row::O, col: Column::L }));
    assert!(!is_water_absolute(Coord { row: Row::U, col: Column::T }));
    assert!(is_water_relative(RelativeCoord { row: 2, col: 4 }));
    assert!(!is_water_relative(RelativeCoord { row: 1, col: 4 }));
    let mut count = 0;
    for row in 0..9u8 {
        for col in 0..9u8 {
            if is_water_relative(RelativeCoord { row, col }) {
                count += 1;
            }
        }
    }
    assert_eq!(count, 9);
}

#[test]
fn distances() {
    let o = Coord { row: Row::A, col: Column::K };
    assert_eq!(absolute_distance(o, o), 0);
    assert_eq!(absolute_distance(o, Coord { row: Row::U, col: Column::L }), 3);
    assert_eq!(absolute_distance(Coord { row: Row::IA, col: Column::K }, Coord { row: Row::A, col: Column::P }), 8);
}

#[test]
fn directions() {
    let o = Coord { row: Row::O, col: Column::Z };
    let a = Coord { row: Row::Y, col: Column::X };
    let b = Coord { row: Row::AU, col: Column::M };
    let back = Coord { row: Row::U, col: Column::T };
    assert!(absolute_same_direction(o, a, b));
    assert!(!absolute_same_direction(o, a, back));
    assert!(!absolute_same_direction(o, a, Coord { row: Row::Y, col: Column::Z }));
    assert!(!absolute_same_direction(o, o, a));
}

#[test]
fn tam_hue_squares() {
    assert!(is_tam_hue_by_default(RelativeCoord { row: 4, col: 4 }));
    assert!(is_tam_hue_by_default(RelativeCoord { row: 2, col: 6 }));
    assert!(is_tam_hue_by_default(RelativeCoord { row: 5, col: 3 }));
    assert!(!is_tam_hue_by_default(RelativeCoord { row: 4, col: 3 }));
    assert!(!is_tam_hue_by_default(RelativeCoord { row: 1, col: 1 }));
    assert!(!is_tam_hue_by_default(RelativeCoord { row: 8, col: 0 }));
    let mut count = 0;
    for row in 0..9u8 {
        for col in 0..9u8 {
            if is_tam_hue_by_default(RelativeCoord { row, col }) {
                count += 1;
            }
        }
    }
    assert_eq!(count, 9);
}
