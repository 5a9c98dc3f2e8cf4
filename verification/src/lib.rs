//! A toroidal Game of Life universe over a bit-packed cell buffer.

pub mod arith;
pub mod bitset;
pub mod grid;
pub mod theorems;
pub mod universe;
