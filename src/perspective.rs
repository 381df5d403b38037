//! The relative frame: coordinates and sides as one player sees the board,
//! the bijection with the absolute frame, and geometric helpers.
use vstd::prelude::*;

use cetkaik_fundamental::AbsoluteSide;

use crate::board::{
    col_at, col_index, col_number, col_of_number, lemma_square_index, row_at, row_index,
    row_number, row_of_number, Coord,
};

verus! {

/// Which side's point of view the relative frame takes.
#[derive(Clone, Copy, Debug, PartialEq, Eq, Structural)]
pub enum Perspective {
    /// The IA side sits at the bottom and plays upward.
    IaIsDownAndPointsUpward,
    /// The IA side sits at the top and plays downward.
    IaIsUpAndPointsDownward,
}

/// A side as seen from a perspective.
#[derive(Clone, Copy, Debug, PartialEq, Eq, Structural)]
pub enum RelativeSide {
    Upward,
    Downward,
}

/// A coordinate in the relative frame: row and column from the viewer's
/// top-left square, each below 9.
#[derive(Clone, Copy, Debug, PartialEq, Eq, Structural)]
pub struct RelativeCoord {
    pub row: u8,
    pub col: u8,
}

impl RelativeCoord {
    /// The coordinate names a square.
    pub open spec fn valid(&self) -> bool {
        self.row < 9 && self.col < 9
    }
}

/// The perspective for contexts that need one fixed viewpoint.
pub fn get_one_perspective() -> (r: Perspective)
    ensures
        r == Perspective::IaIsDownAndPointsUpward,
{
    Perspective::IaIsDownAndPointsUpward
}

/// Position `i` in a line of nine, seen from `p`.
pub open spec fn oriented(i: int, p: Perspective) -> int {
    match p {
        Perspective::IaIsDownAndPointsUpward => i,
        Perspective::IaIsUpAndPointsDownward => 8 - i,
    }
}

/// The absolute square of a relative coordinate.
pub open spec fn absolute_of(c: RelativeCoord, p: Perspective) -> Coord {
    Coord { row: row_at(oriented(c.row as int, p)), col: col_at(oriented(c.col as int, p)) }
}

/// The relative coordinate of an absolute square.
pub open spec fn relative_of(c: Coord, p: Perspective) -> RelativeCoord {
    RelativeCoord {
        row: oriented(row_index(c.row), p) as u8,
        col: oriented(col_index(c.col), p) as u8,
    }
}

fn orient(i: u8, p: Perspective) -> (r: u8)
    requires
        i < 9,
    ensures
        r as int == oriented(i as int, p),
        r < 9,
{
    match p {
        Perspective::IaIsDownAndPointsUpward => i,
        Perspective::IaIsUpAndPointsDownward => 8 - i,
    }
}

/// The absolute square that `coord` names from perspective `p`.
pub fn to_absolute_coord(coord: RelativeCoord, p: Perspective) -> (r: Coord)
    requires
        coord.valid(),
    ensures
        r == absolute_of(coord, p),
{
    Coord { row: row_of_number(orient(coord.row, p)), col: col_of_number(orient(coord.col, p)) }
}

/// The relative coordinate of the absolute square `coord` from perspective `p`.
pub fn to_relative_coord(coord: Coord, p: Perspective) -> (r: RelativeCoord)
    ensures
        r == relative_of(coord, p),
        r.valid(),
{
    proof { lemma_square_index(coord); }
    RelativeCoord { row: orient(row_number(coord.row), p), col: orient(col_number(coord.col), p) }
}

/// The relative coordinate `row_delta` rows and `col_delta` columns away
/// from `coord`, if it is on the board.
pub fn add_delta(coord: RelativeCoord, row_delta: isize, col_delta: isize) -> (r: Option<RelativeCoord>)
    ensures
        ({
            let row = coord.row as int + row_delta;
            let col = coord.col as int + col_delta;
            if 0 <= row < 9 && 0 <= col < 9 {
                r == Some(RelativeCoord { row: row as u8, col: col as u8 })
            } else {
                r is None
            }
        }),
{
    let row = coord.row as isize;
    let col = coord.col as isize;
    if row_delta < -row || row_delta >= 9 - row || col_delta < -col || col_delta >= 9 - col {
        return None;
    }
    Some(RelativeCoord { row: (row + row_delta) as u8, col: (col + col_delta) as u8 })
}

/// How `side` appears from perspective `p`.
pub open spec fn relative_side_of(side: AbsoluteSide, p: Perspective) -> RelativeSide {
    match (side, p) {
        (AbsoluteSide::IASide, Perspective::IaIsDownAndPointsUpward) => RelativeSide::Upward,
        (AbsoluteSide::ASide, Perspective::IaIsUpAndPointsDownward) => RelativeSide::Upward,
        _ => RelativeSide::Downward,
    }
}

/// How `side` appears from perspective `p`: the side at the bottom plays upward.
pub fn to_relative_side(side: AbsoluteSide, p: Perspective) -> (r: RelativeSide)
    ensures
        r == relative_side_of(side, p),
{
    match (side, p) {
        (AbsoluteSide::IASide, Perspective::IaIsDownAndPointsUpward) => RelativeSide::Upward,
        (AbsoluteSide::ASide, Perspective::IaIsUpAndPointsDownward) => RelativeSide::Upward,
        _ => RelativeSide::Downward,
    }
}

/// Whether `s` plays upward.
pub fn is_upward(s: RelativeSide) -> (r: bool)
    ensures
        r == (s == RelativeSide::Upward),
{
    matches!(s, RelativeSide::Upward)
}

/// Whether the square at row `r`, column `k` (in either frame) is water:
/// the middle row and the middle column, each from position 2 to 6.
pub open spec fn water_at(r: int, k: int) -> bool {
    (r == 4 && 2 <= k <= 6) || (k == 4 && 2 <= r <= 6)
}

fn is_water_at(r: u8, k: u8) -> (b: bool)
    ensures
        b == water_at(r as int, k as int),
{
    (r == 4 && 2 <= k && k <= 6) || (k == 4 && 2 <= r && r <= 6)
}

/// Whether the relative coordinate `c` is water.
pub fn is_water_relative(c: RelativeCoord) -> (r: bool)
    ensures
        r == water_at(c.row as int, c.col as int),
{
    is_water_at(c.row, c.col)
}

/// Whether the absolute square `c` is water.
pub fn is_water_absolute(c: Coord) -> (r: bool)
    ensures
        r == water_at(row_index(c.row), col_index(c.col)),
{
    is_water_at(row_number(c.row), col_number(c.col))
}

/// Whether the square at row `r`, column `k` (in either frame) is one of the
/// squares where Tam2 takes its default hue: the two diagonals through the
/// centre, from position 2 to 6.
pub open spec fn tam_hue_at(r: int, k: int) -> bool {
    2 <= r <= 6 && 2 <= k <= 6 && (r == k || r + k == 8)
}

/// Whether Tam2 standing at the relative coordinate `coord` takes its
/// default hue.
pub fn is_tam_hue_by_default(coord: RelativeCoord) -> (r: bool)
    ensures
        r == tam_hue_at(coord.row as int, coord.col as int),
{
    let (r, k) = (coord.row, coord.col);
    2 <= r && r <= 6 && 2 <= k && k <= 6 && (r == k || r as u16 + k as u16 == 8)
}

/// The absolute value of an integer.
pub open spec fn abs(x: int) -> int {
    if x < 0 { -x } else { x }
}

/// The number of king steps between two squares.
pub open spec fn distance(a: Coord, b: Coord) -> int {
    let dr = abs(row_index(a.row) - row_index(b.row));
    let dc = abs(col_index(a.col) - col_index(b.col));
    if dr < dc { dc } else { dr }
}

/// The number of king steps between two absolute squares.
pub fn absolute_distance(a: Coord, b: Coord) -> (r: i32)
    ensures
        r as int == distance(a, b),
{
    let dr: i32 = row_number(a.row) as i32 - row_number(b.row) as i32;
    let dc: i32 = col_number(a.col) as i32 - col_number(b.col) as i32;
    let ar: i32 = if dr < 0 { -dr } else { dr };
    let ac: i32 = if dc < 0 { -dc } else { dc };
    if ar < ac { ac } else { ar }
}

/// Whether `a` and `b` lie on one ray out of `origin`: the offsets from
/// `origin` are parallel and point the same way.
pub open spec fn same_direction(origin: Coord, a: Coord, b: Coord) -> bool {
    let au = row_index(a.row) - row_index(origin.row);
    let av = col_index(a.col) - col_index(origin.col);
    let bu = row_index(b.row) - row_index(origin.row);
    let bv = col_index(b.col) - col_index(origin.col);
    au * bv - av * bu == 0 && au * bu + av * bv > 0
}

/// Whether `a` and `b` lie on one ray out of `origin`.
pub fn absolute_same_direction(origin: Coord, a: Coord, b: Coord) -> (r: bool)
    ensures
        r == same_direction(origin, a, b),
{
    proof {
        lemma_square_index(origin);
        lemma_square_index(a);
        lemma_square_index(b);
    }
    let au: i32 = row_number(a.row) as i32 - row_number(origin.row) as i32;
    let av: i32 = col_number(a.col) as i32 - col_number(origin.col) as i32;
    let bu: i32 = row_number(b.row) as i32 - row_number(origin.row) as i32;
    let bv: i32 = col_number(b.col) as i32 - col_number(origin.col) as i32;
    assert(-8 <= au <= 8 && -8 <= av <= 8 && -8 <= bu <= 8 && -8 <= bv <= 8);
    assert(-64 <= au * bv <= 64 && -64 <= av * bu <= 64) by (nonlinear_arith)
        requires
            -8 <= au <= 8,
            -8 <= av <= 8,
            -8 <= bu <= 8,
            -8 <= bv <= 8,
    ;
    assert(-64 <= au * bu <= 64 && -64 <= av * bv <= 64) by (nonlinear_arith)
        requires
            -8 <= au <= 8,
            -8 <= av <= 8,
            -8 <= bu <= 8,
            -8 <= bv <= 8,
    ;
    au * bv - av * bu == 0 && au * bu + av * bv > 0
}

/// Converting a relative coordinate to the absolute frame and back gives it
/// again, and converting an absolute square to the relative frame and back
/// gives it again, for either perspective.
pub proof fn lemma_coord_round_trip(c: RelativeCoord, a: Coord, p: Perspective)
    requires
        c.valid(),
    ensures
        relative_of(absolute_of(c, p), p) == c,
        absolute_of(relative_of(a, p), p) == a,
{
    lemma_square_index(a);
}

} // verus!
