//! Dialogue execution and card selection for a card-driven narrative game.
//!
//! The crate holds the state machine that sits between a script interpreter
//! and a presentation layer: it turns the interpreter's events into dialogue
//! text and option cards, keeps the history of the player's decisions, and
//! resolves a chosen card back into the option index the interpreter expects.
//! The interpreter, the renderer and the persistent store stay outside; they
//! exchange plain values with the functions defined here.

pub mod text;
pub mod cards;
pub mod phrasing;
pub mod registry;
pub mod story;
pub mod command;
pub mod yarn;
pub mod line;
pub mod state;
pub mod options;
pub mod dialogue;
pub mod laws;
