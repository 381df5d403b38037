//! The piece vocabulary of `cetkaik_fundamental`, made visible to the
//! verifier: plain enums and a plain struct, read as they are declared.
use vstd::prelude::*;

verus! {

#[verifier::external_type_specification]
pub struct ExColor(cetkaik_fundamental::Color);

#[verifier::external_type_specification]
pub struct ExProfession(cetkaik_fundamental::Profession);

#[verifier::external_type_specification]
pub struct ExAbsoluteSide(cetkaik_fundamental::AbsoluteSide);

#[verifier::external_type_specification]
pub struct ExColorAndProf(cetkaik_fundamental::ColorAndProf);

} // verus!
