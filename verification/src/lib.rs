//! Verified core of the Age of Empires archive installer: the game tables,
//! the installer's shared state, the release lookup, the launcher and
//! emulator configuration, and the archive listings.

pub mod text;
pub mod game;
pub mod config;
pub mod ctx;
pub mod github;
pub mod archive;
pub mod ui;
pub mod aoe;
pub mod goldberg;
pub mod utils;
pub mod pipeline;
pub mod steam;
