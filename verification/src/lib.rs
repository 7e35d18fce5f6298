//! Plays Morse code on a single binary indicator.
//!
//! The library turns input text into a stream of Morse tokens (dot, dash,
//! letter boundary, word boundary) and computes, for one playback pass, the
//! exact sequence of indicator writes and timed sleeps that standard Morse
//! timing calls for.  Performing the writes and sleeps, and looping forever,
//! is left to the surrounding program.

pub mod encoder;
pub mod schedule;
pub mod tokens;
