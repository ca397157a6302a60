//! The second game's launcher and companion.

pub mod companion;
pub mod launcher;
