//! A toroidal Game-of-Life engine with a cursor-driven editor, verified with
//! Verus: the grid update rule (B3/S23 with wrap-around neighbours), cursor
//! wrapping, per-cell render decisions, and the key-dispatch state machine.
//! Terminal I/O lives outside the library and hands in plain values.

pub mod controller;
pub mod cursor;
pub mod grid;
pub mod render;
pub mod torus;
