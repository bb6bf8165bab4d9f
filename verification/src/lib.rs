//! A small music language: a lexer, parser and evaluator for scores written
//! as notes, chords and tempo commands, and the sample-accurate state machines
//! (sample clocks, voices, instruments and the per-frame mixer) that turn a
//! score into one mixed value per output frame.
//!
//! Everything that decides *what* sounds when is verified here; turning the
//! per-frame voice descriptions into actual floating-point samples on an audio
//! device is left to the embedding program.

pub mod interpreter;
pub mod player;
pub mod views;
