//! Change-tracked cell state for a maze, and the pass that keeps the
//! sprites drawn for each cell in step with it.
pub mod maze;
pub mod draw;
pub mod load;
pub mod laws;
