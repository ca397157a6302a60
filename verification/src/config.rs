//! The installer's settings: where the emulator, the launcher and its
//! companion are published.

use vstd::prelude::*;

verus! {

/// All settings.
pub struct Config {
    pub goldberg: Goldberg,
    pub aoe2: AoE2,
    pub aoe1: AoE1,
}

/// Where the Steam emulator is published, and which version to take.
pub struct Goldberg {
    pub gh_user: String,
    pub gh_repo: String,
    pub version: String,
}

/// Where the second game's launcher and companion are published.
pub struct AoE2 {
    pub gh_companion_user: String,
    pub gh_companion_repo: String,
    pub gh_launcher_user: String,
    pub gh_launcher_repo: String,
    pub launcher_version: String,
}

/// Where the first game's launcher and companion are published.
pub struct AoE1 {
    pub gh_companion_user: String,
    pub gh_companion_repo: String,
    pub gh_launcher_user: String,
    pub gh_launcher_repo: String,
    pub launcher_version: String,
}

} // verus!
