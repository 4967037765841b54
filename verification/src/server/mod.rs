//! The first-generation server's domain types, whose stored formats differ
//! from the current ones: an image status that carries its fault message, and
//! the two task kinds and five task states it knew.
pub mod image;
pub mod task;
