//! Decision logic of a set of small on-chain programs: a two-player grid
//! game, a bounded leaderboard, a message store, a greeting counter and a
//! task list.
//!
//! Every function here is a pure transition over a record held in memory.
//! Checking who the caller is, moving value between accounts and loading or
//! storing the record is the business of the program that calls in.

pub mod account;
pub mod encoding;
pub mod greeting;
pub mod identity;
pub mod message;
pub mod rock_destroyer;
pub mod tic_tac_toe;
pub mod todo;
