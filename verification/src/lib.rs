//! Conway's Game of Life on a fixed-size rectangular grid.
//!
//! A [`grid::Grid`] is a total function from in-bounds coordinates to a
//! two-valued cell state (alive or dead), stored densely in row-major order.
//! The [`neighbors`] module counts live neighbors of a coordinate under an
//! explicit boundary policy (toroidal wrapping or clipping), [`step`] computes
//! the next generation under Conway's rules, [`seeds`] builds a well-known
//! start pattern, [`render`] turns a grid into one line of text per row, and
//! [`laws`] proves the general properties of the automaton.

pub mod grid;
pub mod laws;
pub mod neighbors;
pub mod render;
pub mod seeds;
pub mod step;
