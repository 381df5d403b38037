//! Abstract representation layer for cetkaik: boards, fields with reserves
//! (hop1zuo1), pieces and the two coordinate frames, together with concrete
//! absolute and relative representations whose operations are verified.

mod outside;
pub mod fundamental;
pub mod traits;
pub mod board;
pub mod field;
pub mod perspective;
pub mod relative;
pub mod laws;
