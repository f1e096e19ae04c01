//! Counts, over recorded chess games, the positions in which two bishops of
//! the side to move flank two adjacent enemy pawns on one rank.

pub mod bitboard;
pub mod counter;
pub mod detector;
pub mod position;
pub mod stats;
