//! Checking a game's source folder.

use vstd::prelude::*;
use crate::game::GameDisc;

verus! {

/// What was found on disk at a proposed source folder.
pub struct SourceProbe {
    /// Something exists at the path.
    pub exists: bool,
    /// It is a directory.
    pub is_dir: bool,
    /// The game's executable lies directly in it.
    pub exe_exists: bool,
}

/// Why a folder is not a game's source folder.
#[derive(Debug, Clone, Copy, PartialEq, Eq, Structural)]
pub enum SourceError {
    Missing,
    NotADirectory,
    /// The game's executable is not in the folder.
    NoExecutable(GameDisc),
}

/// The name of the executable that a game's source folder holds.
pub open spec fn spec_source_exe_name(d: GameDisc) -> Seq<char> {
    match d {
        GameDisc::Aoe1 => "AoEDE_s.exe"@,
        GameDisc::Aoe2 => "AoE2DE_s.exe"@,
    }
}

/// The name of the executable that a game's source folder holds.
pub fn source_exe_name(game: GameDisc) -> (r: &'static str)
    ensures
        r@ == spec_source_exe_name(game),
{
    match game {
        GameDisc::Aoe1 => "AoEDE_s.exe",
        GameDisc::Aoe2 => "AoE2DE_s.exe",
    }
}

impl SourceError {
    /// The message shown to the user.
    pub fn message(&self) -> (r: &'static str)
        ensures
            *self == SourceError::Missing ==> r@ == "Directory does not exist"@,
            *self == SourceError::NotADirectory ==> r@ == "Path is not a directory"@,
            *self == SourceError::NoExecutable(GameDisc::Aoe2) ==> r@
                == "This doesn't appear to be an AoE2 DE directory (AoE2DE_s.exe not found)"@,
            *self == SourceError::NoExecutable(GameDisc::Aoe1) ==> r@
                == "This doesn't appear to be an AoE DE directory (AoEDE_s.exe not found)"@,
    {
        match self {
            SourceError::Missing => "Directory does not exist",
            SourceError::NotADirectory => "Path is not a directory",
            SourceError::NoExecutable(GameDisc::Aoe2) =>
                "This doesn't appear to be an AoE2 DE directory (AoE2DE_s.exe not found)",
            SourceError::NoExecutable(GameDisc::Aoe1) =>
                "This doesn't appear to be an AoE DE directory (AoEDE_s.exe not found)",
        }
    }
}

/// The verdict on a proposed source folder of a game: the checks in order
/// are that it exists, that it is a directory, and that it holds the game's
/// executable.
pub open spec fn spec_validate(game: GameDisc, p: SourceProbe) -> Result<(), SourceError> {
    if !p.exists {
        Err(SourceError::Missing)
    } else if !p.is_dir {
        Err(SourceError::NotADirectory)
    } else if !p.exe_exists {
        Err(SourceError::NoExecutable(game))
    } else {
        Ok(())
    }
}

/// Checks a proposed source folder of a game.
pub fn validate_source(game: GameDisc, probe: &SourceProbe) -> (r: Result<(), SourceError>)
    ensures
        r == spec_validate(game, *probe),
{
    if !probe.exists {
        Err(SourceError::Missing)
    } else if !probe.is_dir {
        Err(SourceError::NotADirectory)
    } else if !probe.exe_exists {
        Err(SourceError::NoExecutable(game))
    } else {
        Ok(())
    }
}

/// Checks a proposed source folder of the second game.
pub fn validate_aoe2_source(probe: &SourceProbe) -> (r: Result<(), SourceError>)
    ensures
        r == spec_validate(GameDisc::Aoe2, *probe),
{
    validate_source(GameDisc::Aoe2, probe)
}

/// Checks a proposed source folder of the first game.
pub fn validate_aoe1_source(probe: &SourceProbe) -> (r: Result<(), SourceError>)
    ensures
        r == spec_validate(GameDisc::Aoe1, *probe),
{
    validate_source(GameDisc::Aoe1, probe)
}

/// The label of a game in messages: `AoE1` or `AoE2`.
pub fn game_label(game: GameDisc) -> (r: &'static str)
    ensures
        game == GameDisc::Aoe1 ==> r@ == "AoE1"@,
        game == GameDisc::Aoe2 ==> r@ == "AoE2"@,
{
    match game {
        GameDisc::Aoe1 => "AoE1",
        GameDisc::Aoe2 => "AoE2",
    }
}

} // verus!
