//! Decision logic of a study-group chat bot.
//!
//! The bot runs two review workflows that share one voting gate: flash-card
//! decks sent in private, and assignments entered into a shared calendar.
//! This crate holds the rules of both workflows as functions from the
//! current state and an incoming event to the next state and the actions
//! to perform. The surrounding program owns the connection to the chat
//! platform and the disk; it performs the actions and reports what came back.

pub mod assignment;
pub mod calendar;
pub mod date;
pub mod flash_cards;
pub mod handler;
pub mod persist;
pub mod tally;
pub mod text;
