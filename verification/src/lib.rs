//! Core of a terminal typing trainer: a streaming word-wrapped text buffer
//! scored against the user's keystrokes, a throttled words-per-minute timer,
//! and the session and application state machines that sequence them.
//!
//! Everything here is pure logic over plain values; reading the clock, the
//! keyboard and the terminal is left to the embedding program, which passes
//! clock readings (milliseconds) and decoded key events in.

pub mod app;
pub mod game;
pub mod langs;
pub mod text;
pub mod timer;
