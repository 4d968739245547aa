//! Turns a caption transcript into clip ranges.
//!
//! `services::VttParser` reads the cues of a transcript and does the
//! arithmetic of its timestamps; `commands::analyze` holds the clips that a
//! language model proposes against the cues and keeps those that can be cut.
//! The modules `cues`, `nearest`, `reconcile`, `timestamp` and `transcript`
//! say what these functions compute and prove what holds of it; `text` is the
//! vocabulary they share. The rest of `services` and `commands` decides what
//! the application does between its calls to the encoder and to the services
//! on the network.

pub mod commands;
pub mod cues;
pub mod models;
pub mod nearest;
pub mod reconcile;
pub mod services;
pub mod text;
pub mod timestamp;
pub mod transcript;
