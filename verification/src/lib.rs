//! The discrete core of a slope-field plotter for `dy/dt = f(t, y)`.
//!
//! Numbers are carried as IEEE 754 single-precision bit patterns, so that
//! every comparison the engine makes is an integer computation with a proof.

pub mod cfgtext;
pub mod config;
pub mod domain;
pub mod expression;
pub mod grid;
pub mod scalar;
pub mod text;
pub mod trace;
