//! The two supported games and their fixed Steam data.

use vstd::prelude::*;
use crate::text::str_equal;
use core::cmp::Ordering;
use vstd::std_specs::cmp::PartialEqSpecImpl;
use vstd::std_specs::cmp::PartialOrdSpecImpl;

verus! {

/// Which game a value refers to, without any per-game data.
#[derive(Clone, Copy, Debug, PartialEq, Eq, Structural, Hash)]
pub enum GameDisc {
    Aoe1,
    Aoe2,
}

pub open spec fn spec_steam_app_id(d: GameDisc) -> Seq<char> {
    match d {
        GameDisc::Aoe1 => "1017900"@,
        GameDisc::Aoe2 => "813780"@,
    }
}

pub open spec fn spec_exe_location(d: GameDisc) -> Seq<char> {
    match d {
        GameDisc::Aoe1 => "AoEDE\\AoEDE_s.exe"@,
        GameDisc::Aoe2 => "AoE2DE\\AoE2DE_s.exe"@,
    }
}

pub open spec fn spec_dll_folder(d: GameDisc) -> Option<Seq<char>> {
    match d {
        GameDisc::Aoe1 => None,
        GameDisc::Aoe2 => Some("dlls"@),
    }
}

/// The short name of a game: `aoe1` or `aoe2`.
pub open spec fn spec_game_name(d: GameDisc) -> Seq<char> {
    match d {
        GameDisc::Aoe1 => "aoe1"@,
        GameDisc::Aoe2 => "aoe2"@,
    }
}

/// The position of a game in the fixed order `Aoe1`, `Aoe2`.
pub open spec fn spec_order_index(d: GameDisc) -> nat {
    match d {
        GameDisc::Aoe1 => 0,
        GameDisc::Aoe2 => 1,
    }
}

impl GameDisc {
    /// The game's Steam application id.
    pub fn steam_app_id(&self) -> (r: &'static str)
        ensures
            r@ == spec_steam_app_id(*self),
    {
        match self {
            GameDisc::Aoe1 => "1017900",
            GameDisc::Aoe2 => "813780",
        }
    }

    /// Where the game's executable lies below its install folder.
    pub fn exe_location(&self) -> (r: &'static str)
        ensures
            r@ == spec_exe_location(*self),
    {
        match self {
            GameDisc::Aoe1 => "AoEDE\\AoEDE_s.exe",
            GameDisc::Aoe2 => "AoE2DE\\AoE2DE_s.exe",
        }
    }

    /// The folder of extra libraries to inject, if the game has one.
    pub fn dll_folder(&self) -> (r: Option<&'static str>)
        ensures
            r matches Some(f) ==> spec_dll_folder(*self) == Some(f@),
            r is None <==> spec_dll_folder(*self) is None,
    {
        match self {
            GameDisc::Aoe1 => None,
            GameDisc::Aoe2 => Some("dlls"),
        }
    }

    /// The game's short name, `aoe1` or `aoe2`.
    pub fn name(&self) -> (r: &'static str)
        ensures
            r@ == spec_game_name(*self),
    {
        match self {
            GameDisc::Aoe1 => "aoe1",
            GameDisc::Aoe2 => "aoe2",
        }
    }

    /// The position of the game in the order `Aoe1`, `Aoe2`.
    pub fn order_index(&self) -> (r: usize)
        ensures
            r == spec_order_index(*self),
    {
        match self {
            GameDisc::Aoe1 => 0,
            GameDisc::Aoe2 => 1,
        }
    }
}

/// The data kept for the first game.
pub struct Aoe1 {
    source: Option<String>,
}

/// The data kept for the second game.
pub struct Aoe2 {
    source: Option<String>,
}

impl Aoe1 {
    pub closed spec fn spec_source(&self) -> Option<Seq<char>> {
        match self.source {
            Some(s) => Some(s@),
            None => None,
        }
    }

    /// The data of a game with no source folder yet.
    pub fn new() -> (r: Aoe1)
        ensures
            r.spec_source() is None,
    {
        Aoe1 { source: None }
    }

    /// The folder the game was found in, if any.
    pub fn source(&self) -> (r: Option<&String>)
        ensures
            r is None <==> self.spec_source() is None,
            r matches Some(s) ==> self.spec_source() == Some(s@),
    {
        self.source.as_ref()
    }
}

impl Aoe2 {
    pub closed spec fn spec_source(&self) -> Option<Seq<char>> {
        match self.source {
            Some(s) => Some(s@),
            None => None,
        }
    }

    /// The data of a game with no source folder yet.
    pub fn new() -> (r: Aoe2)
        ensures
            r.spec_source() is None,
    {
        Aoe2 { source: None }
    }

    /// The folder the game was found in, if any.
    pub fn source(&self) -> (r: Option<&String>)
        ensures
            r is None <==> self.spec_source() is None,
            r matches Some(s) ==> self.spec_source() == Some(s@),
    {
        self.source.as_ref()
    }
}

/// A game together with its data.
pub enum Game {
    Aoe1(Aoe1),
    Aoe2(Aoe2),
}

/// The reason a game name was refused: the name itself.
#[derive(Debug)]
pub struct UnknownGame {
    pub name: String,
}

impl UnknownGame {
    /// The message shown for the refused name: `Unknown game: ` and the name.
    pub fn message(&self) -> (r: String)
        ensures
            r@ == "Unknown game: "@ + self.name@,
    {
        let mut m = String::from_str("Unknown game: ");
        m.append(self.name.as_str());
        m
    }
}

impl Game {
    pub open spec fn spec_disc(&self) -> GameDisc {
        match self {
            Game::Aoe1(_) => GameDisc::Aoe1,
            Game::Aoe2(_) => GameDisc::Aoe2,
        }
    }

    /// Which game this is.
    pub fn disc(&self) -> (r: GameDisc)
        ensures
            r == self.spec_disc(),
    {
        match self {
            Game::Aoe1(_) => GameDisc::Aoe1,
            Game::Aoe2(_) => GameDisc::Aoe2,
        }
    }

    /// The game's Steam application id.
    pub fn steam_app_id(&self) -> (r: &'static str)
        ensures
            r@ == spec_steam_app_id(self.spec_disc()),
    {
        self.disc().steam_app_id()
    }

    /// Where the game's executable lies below its install folder.
    pub fn exe_location(&self) -> (r: &'static str)
        ensures
            r@ == spec_exe_location(self.spec_disc()),
    {
        self.disc().exe_location()
    }

    /// The folder of extra libraries to inject, if the game has one.
    pub fn dll_folder(&self) -> (r: Option<&'static str>)
        ensures
            r matches Some(f) ==> spec_dll_folder(self.spec_disc()) == Some(f@),
            r is None <==> spec_dll_folder(self.spec_disc()) is None,
    {
        self.disc().dll_folder()
    }

    /// The game's short name, `aoe1` or `aoe2`.
    pub fn name(&self) -> (r: &'static str)
        ensures
            r@ == spec_game_name(self.spec_disc()),
    {
        self.disc().name()
    }

    /// The game named `s` (`aoe1` or `aoe2`), with no source folder yet.
    pub fn parse(s: &str) -> (r: Result<Game, UnknownGame>)
        ensures
            match parses_to(s@) {
                Some(d) => r matches Ok(g) && g.spec_disc() == d,
                None => r matches Err(e) && e.name@ == s@,
            },
            r matches Ok(Game::Aoe1(a)) ==> a.spec_source() is None,
            r matches Ok(Game::Aoe2(a)) ==> a.spec_source() is None,
    {
        proof {
            lemma_names_distinct();
        }
        if str_equal(s, "aoe1") {
            Ok(Game::Aoe1(Aoe1::new()))
        } else if str_equal(s, "aoe2") {
            Ok(Game::Aoe2(Aoe2::new()))
        } else {
            Err(UnknownGame { name: s.to_owned() })
        }
    }

    /// Every game, in the order `Aoe1`, `Aoe2`.
    pub fn all() -> (r: Vec<Game>)
        ensures
            r@.len() == 2,
            r@[0].spec_disc() == GameDisc::Aoe1,
            r@[1].spec_disc() == GameDisc::Aoe2,
            r@[0] matches Game::Aoe1(a) && a.spec_source() is None,
            r@[1] matches Game::Aoe2(a) && a.spec_source() is None,
    {
        let mut v = Vec::new();
        v.push(Game::Aoe1(Aoe1::new()));
        v.push(Game::Aoe2(Aoe2::new()));
        v
    }
}

/// Reads a game's short name; see `Game::parse`.
impl core::str::FromStr for Game {
    type Err = UnknownGame;

    fn from_str(s: &str) -> (r: Result<Game, UnknownGame>)
        ensures
            match parses_to(s@) {
                Some(d) => r matches Ok(g) && g.spec_disc() == d,
                None => r matches Err(e) && e.name@ == s@,
            },
            r matches Ok(Game::Aoe1(a)) ==> a.spec_source() is None,
            r matches Ok(Game::Aoe2(a)) ==> a.spec_source() is None,
    {
        Game::parse(s)
    }
}

/// Two games are equal when they are the same game, whatever data they hold.
impl PartialEq for Game {
    fn eq(&self, other: &Self) -> (r: bool) {
        self.disc() == other.disc()
    }
}

impl PartialEqSpecImpl for Game {
    open spec fn obeys_eq_spec() -> bool {
        true
    }

    open spec fn eq_spec(&self, other: &Game) -> bool {
        self.spec_disc() == other.spec_disc()
    }
}

impl Eq for Game {}

/// The ordering of two games by their position in `Aoe1`, `Aoe2`.
pub open spec fn game_order_of(a: GameDisc, b: GameDisc) -> Ordering {
    if spec_order_index(a) < spec_order_index(b) {
        Ordering::Less
    } else if spec_order_index(a) == spec_order_index(b) {
        Ordering::Equal
    } else {
        Ordering::Greater
    }
}

/// Games are ordered by their position in `Aoe1`, `Aoe2`.
impl PartialOrd for Game {
    fn partial_cmp(&self, other: &Self) -> (r: Option<Ordering>) {
        let a = self.disc().order_index();
        let b = other.disc().order_index();
        if a < b {
            Some(Ordering::Less)
        } else if a == b {
            Some(Ordering::Equal)
        } else {
            Some(Ordering::Greater)
        }
    }
}

impl PartialOrdSpecImpl for Game {
    open spec fn obeys_partial_cmp_spec() -> bool {
        true
    }

    open spec fn partial_cmp_spec(&self, other: &Game) -> Option<Ordering> {
        Some(game_order_of(self.spec_disc(), other.spec_disc()))
    }
}

/// The order of games is total and agrees with their equality: two games
/// compare `Equal` exactly when they are the same game, and swapping the
/// two sides reverses the order.
pub proof fn lemma_game_order(a: GameDisc, b: GameDisc)
    ensures
        (game_order_of(a, b) == Ordering::Equal) == (a == b),
        game_order_of(a, b) == Ordering::Less <==> game_order_of(b, a) == Ordering::Greater,
        game_order_of(GameDisc::Aoe1, GameDisc::Aoe2) == Ordering::Less,
{
}

proof fn lemma_names_distinct()
    ensures
        "aoe1"@ != "aoe2"@,
{
    reveal_strlit("aoe1");
    reveal_strlit("aoe2");
    assert("aoe1"@[3] != "aoe2"@[3]);
}

/// Reading back the name of a game gives the same game, and only the two
/// names of the games are read as games.
pub proof fn lemma_name_parse_roundtrip(d: GameDisc, s: Seq<char>)
    ensures
        s == spec_game_name(d) ==> parses_to(s) == Some(d),
        parses_to(s) matches Some(e) ==> spec_game_name(e) == s,
{
    lemma_names_distinct();
}

/// The game that `Game::parse` gives for a name, if any.
pub open spec fn parses_to(s: Seq<char>) -> Option<GameDisc> {
    if s == "aoe1"@ {
        Some(GameDisc::Aoe1)
    } else if s == "aoe2"@ {
        Some(GameDisc::Aoe2)
    } else {
        None
    }
}

} // verus!
