//! A Game of Life engine on a toroidal grid, with a catalogue of seed
//! patterns and a renderer into a magnified pixel buffer.
//!
//! `model` states what the engine is, `game` is the engine, `pattern` the
//! catalogue of seed shapes, `canvas` the arithmetic of the pixel grid, and
//! `laws` the properties proved of the model.
pub mod canvas;
pub mod game;
pub mod laws;
pub mod model;
pub mod pattern;
pub mod random;
