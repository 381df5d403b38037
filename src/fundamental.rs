//! Equality tests on the piece vocabulary of `cetkaik_fundamental` (colors,
//! professions, sides), decided by case analysis, and the opposite side.
use vstd::prelude::*;

use cetkaik_fundamental::{AbsoluteSide, Color, ColorAndProf, Profession};

verus! {

/// Decides whether two colors are the same.
pub fn color_eq(a: Color, b: Color) -> (r: bool)
    ensures
        r == (a == b),
{
    match a {
        Color::Kok1 => matches!(b, Color::Kok1),
        Color::Huok2 => matches!(b, Color::Huok2),
    }
}

/// Decides whether two sides are the same.
pub fn side_eq(a: AbsoluteSide, b: AbsoluteSide) -> (r: bool)
    ensures
        r == (a == b),
{
    match a {
        AbsoluteSide::ASide => matches!(b, AbsoluteSide::ASide),
        AbsoluteSide::IASide => matches!(b, AbsoluteSide::IASide),
    }
}

/// Decides whether two professions are the same.
pub fn prof_eq(a: Profession, b: Profession) -> (r: bool)
    ensures
        r == (a == b),
{
    match a {
        Profession::Nuak1 => matches!(b, Profession::Nuak1),
        Profession::Kauk2 => matches!(b, Profession::Kauk2),
        Profession::Gua2 => matches!(b, Profession::Gua2),
        Profession::Kaun1 => matches!(b, Profession::Kaun1),
        Profession::Dau2 => matches!(b, Profession::Dau2),
        Profession::Maun1 => matches!(b, Profession::Maun1),
        Profession::Kua2 => matches!(b, Profession::Kua2),
        Profession::Tuk2 => matches!(b, Profession::Tuk2),
        Profession::Uai1 => matches!(b, Profession::Uai1),
        Profession::Io => matches!(b, Profession::Io),
    }
}

/// Decides whether two reserve entries have the same color and profession.
pub fn color_and_prof_eq(a: ColorAndProf, b: ColorAndProf) -> (r: bool)
    ensures
        r == (a == b),
{
    color_eq(a.color, b.color) && prof_eq(a.prof, b.prof)
}

/// The side other than `s`.
pub open spec fn other_side(s: AbsoluteSide) -> AbsoluteSide {
    match s {
        AbsoluteSide::ASide => AbsoluteSide::IASide,
        AbsoluteSide::IASide => AbsoluteSide::ASide,
    }
}

} // verus!
