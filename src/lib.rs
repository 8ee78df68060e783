//! A local conversation store with a chat-turn protocol on top of it.
//!
//! `db` keeps conversations and their messages, `history` turns stored
//! messages into the role/content pairs of a completion request, `client`
//! reads what the completion service answered, and `turn` drives the send and
//! regenerate protocols over the three.
pub mod model;
pub mod seqs;
pub mod db;
pub mod history;
pub mod client;
pub mod turn;
