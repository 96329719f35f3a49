//! Keeps the scripts and UI markup of a tabletop game's objects in step with
//! files on disk: the tag model, the reconciliation of a save against changed
//! files, and the correlation of messages exchanged with the running game.

pub mod error;
pub mod globals;
pub mod objects;
pub mod parser;
pub mod protocol;
pub mod reconcile;
pub mod save;
pub mod script_states;
pub mod tags;
pub mod text;
