//! Matchmaking coordinator for two-player sessions: a host asks for a room
//! and is given a short code, a joiner presents the code, and both are
//! told of the match.

pub mod base36;
pub mod handlers;
pub mod message;
pub mod state;
pub mod token;
