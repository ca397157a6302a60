//! Where Steam records a game's install folder.

use vstd::prelude::*;
use crate::game::{GameDisc, spec_steam_app_id};

verus! {

/// The name of a game's entry among the installed programs: `Steam App `
/// and the game's Steam id.
pub fn source_app_name(game: GameDisc) -> (r: String)
    ensures
        r@ == "Steam App "@ + spec_steam_app_id(game),
{
    let mut s = String::from_str("Steam App ");
    s.append(game.steam_app_id());
    s
}

/// The registry keys, under the local machine, to look for a program's
/// install location, in the order they are tried: the native list of
/// installed programs first, then the 32-bit one.
pub open spec fn spec_uninstall_keys(app_name: Seq<char>) -> Seq<Seq<char>> {
    seq![
        "SOFTWARE\\Microsoft\\Windows\\CurrentVersion\\Uninstall\\"@ + app_name,
        "SOFTWARE\\WOW6432Node\\Microsoft\\Windows\\CurrentVersion\\Uninstall\\"@ + app_name,
    ]
}

/// The registry keys to look for a program's install location, in order.
pub fn uninstall_keys(app_name: &str) -> (r: Vec<String>)
    ensures
        r@.map_values(|s: String| s@) == spec_uninstall_keys(app_name@),
{
    let mut a = String::from_str("SOFTWARE\\Microsoft\\Windows\\CurrentVersion\\Uninstall\\");
    a.append(app_name);
    let mut b = String::from_str(
        "SOFTWARE\\WOW6432Node\\Microsoft\\Windows\\CurrentVersion\\Uninstall\\",
    );
    b.append(app_name);
    let mut v = Vec::new();
    v.push(a);
    v.push(b);
    assert(v@.map_values(|s: String| s@) =~= spec_uninstall_keys(app_name@));
    v
}

} // verus!
