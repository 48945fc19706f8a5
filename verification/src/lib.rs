//! Core of a terminal audio player's analysis pipeline: an append-only
//! preview buffer of 3-band samples, a fixed-rate downsampling analyzer,
//! the player state machine, and per-track progress and windowing math.
//! The terminal, the channels and the codec live outside, in the
//! surrounding binary; they call in with plain values and draw what
//! comes back.

pub mod analyzer;
pub mod app_model;
pub mod player;
pub mod preview_buffer;
pub mod sample;
pub mod track;
