//! Splits a forward-only sequence into non-overlapping chunks of a fixed
//! size, drawn one whole chunk at a time so that the chunks can be handed to
//! independent workers.
pub mod chunk;
pub mod cursor;
pub mod laws;
pub mod model;

pub use chunk::Schunk;
pub use cursor::{Schunks, SchunksTools};
