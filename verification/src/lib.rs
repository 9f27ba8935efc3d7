//! Tools for rewriting bridge deal records in the tagged PBN text format:
//! rotating deals so the same hands can be replayed with different seat
//! assignments, filtering and renumbering boards, replicating blocks of
//! boards, scoring made contracts, and encoding boards in LIN notation.
pub mod analyze;
pub mod board;
pub mod commentary;
pub mod direction;
pub mod driver;
pub mod event;
pub mod filter;
pub mod lin;
pub mod pbn;
pub mod pdf;
pub mod replicate;
pub mod rewriter;
pub mod rotation;
pub mod tags;
pub mod text;
