//! Core of a real-time game-audio engine.
//!
//! The engine synthesizes one stereo frame per processing step by combining
//! playing sound instances, a parameter-automation system, a tempo clock
//! (metronome) and a two-level mixing graph with effects, while accepting
//! control commands from a non-real-time caller over bounded single-producer
//! single-consumer channels.
//!
//! All scalar quantities (seconds, beats per minute, parameter values and
//! sample amplitudes) are fixed-point `i64` values: multiples of
//! `1 / fixed::SCALE`. This keeps every computation in exact integer
//! arithmetic, so the behaviour of each processing step is stated and proved
//! precisely.

pub mod fixed;
pub mod frame;
pub mod table;
pub mod value;
pub mod parameter;
pub mod command;
pub mod metronome;
pub mod track;
pub mod channel;
pub mod mixer;
pub mod sound;
pub mod instance;
pub mod processor;
pub mod manager;
pub mod backend;
pub mod sequence;
