//! The first game's launcher and companion.

use vstd::prelude::*;
use crate::aoe::{
    companion_keeps, lemma_game_config_patched, patch_game_config, spec_companion_keeps,
    spec_patch_game_config,
};
use crate::ctx::Ctx;
use crate::github::ReleaseQuery;
use crate::text::{agrees, insertion_avoids, lowercase, occurs_at, seq_contains, views};

verus! {

/// Which companion release to fetch: the configured project's latest
/// release, its complete package.
pub fn launcher_companion_full_url(ctx: &Ctx) -> (r: ReleaseQuery)
    ensures
        r.user@ == ctx.spec_config().aoe1.gh_companion_user@,
        r.repo@ == ctx.spec_config().aoe1.gh_companion_repo@,
        r.version is None,
        views(r.search@) == seq!["_full_"@],
{
    let mut search = Vec::new();
    search.push(String::from_str("_full_"));
    assert(views(search@) =~= seq!["_full_"@]);
    ReleaseQuery {
        user: ctx.config().aoe1.gh_companion_user.clone(),
        repo: ctx.config().aoe1.gh_companion_repo.clone(),
        version: None,
        search,
    }
}

/// Which launcher release to fetch: the configured version, its complete
/// package for 64-bit Windows 10.
pub fn launcher_full_url(ctx: &Ctx) -> (r: ReleaseQuery)
    ensures
        r.user@ == ctx.spec_config().aoe1.gh_launcher_user@,
        r.repo@ == ctx.spec_config().aoe1.gh_launcher_repo@,
        r.version matches Some(v) && v@ == ctx.spec_config().aoe1.launcher_version@,
        views(r.search@) == seq!["_full_"@, "win10_x86-64"@],
{
    let mut search = Vec::new();
    search.push(String::from_str("_full_"));
    search.push(String::from_str("win10_x86-64"));
    assert(views(search@) =~= seq!["_full_"@, "win10_x86-64"@]);
    ReleaseQuery {
        user: ctx.config().aoe1.gh_launcher_user.clone(),
        repo: ctx.config().aoe1.gh_launcher_repo.clone(),
        version: Some(ctx.config().aoe1.launcher_version.clone()),
        search,
    }
}

/// Whether a file of the companion's archive is installed for this game:
/// its lower-case name holds `age1` or `fakehost`.
pub fn is_companion_file(name: &str) -> (r: bool)
    ensures
        r == spec_companion_keeps(name@, "age1"@),
        r == (seq_contains(lowercase(name@), "age1"@) || seq_contains(lowercase(name@), "fakehost"@)),
{
    companion_keeps(name, "age1")
}

/// The game path the launcher is given: the game's folder next to it.
pub open spec fn spec_game_path(game_folder: Seq<char>) -> Seq<char> {
    "Path = \"../"@ + game_folder + "\""@
}

/// Patches the launcher's configuration of this game: the emulator's
/// loader as executable, the game's folder (named as in the source) as
/// game path, the hosts file as argument.
pub fn patch_launcher_aoe1_config(text: &str, game_folder: &str) -> (r: String)
    ensures
        r@ == spec_patch_game_config(text@, spec_game_path(game_folder@)),
{
    let mut path = String::from_str("Path = \"../");
    path.append(game_folder);
    path.append("\"");
    patch_game_config(text, path.as_str())
}

/// A game path made from a folder name cannot form a placeholder `q` (one
/// longer than the path's fixed start, without `"` or `/`, with `P` at most
/// as its first character) unless the folder name itself holds `q`.
proof fn lemma_game_path_avoids(q: Seq<char>, folder: Seq<char>)
    requires
        q.len() > 10,
        forall|j: int| 0 <= j < q.len() ==> q[j] != '"' && q[j] != '/',
        forall|j: int| 1 <= j < q.len() ==> q[j] != 'P',
        !seq_contains(folder, q),
    ensures
        insertion_avoids(q, spec_game_path(folder)),
{
    let r = spec_game_path(folder);
    let pre = "Path = \"../"@;
    reveal_strlit("Path = \"../");
    reveal_strlit("\"");
    assert(pre.len() == 11);
    assert(r.len() == folder.len() + 12);
    assert(r[0] == 'P');
    assert(r[10] == '/');
    assert(r[r.len() - 1] == '"');
    assert forall|i: int| 0 <= i < r.len() implies !agrees(#[trigger] r.skip(i), q) by {
        let a = r.skip(i);
        if a.len() < q.len() {
            let k = a.len() as int;
            if a.take(k) == q.take(k) {
                assert(a[k - 1] == r[r.len() - 1]);
                assert(a.take(k)[k - 1] == q.take(k)[k - 1]);
            }
        } else {
            let k = q.len() as int;
            if a.take(k) == q.take(k) {
                assert forall|m: int| 0 <= m < k implies r[i + m] == q[m] by {
                    assert(a.take(k)[m] == q.take(k)[m]);
                }
                if i <= 10 {
                    assert(r[i + (10 - i)] == q[10 - i]);
                } else if i + k == r.len() {
                    assert(r[i + (k - 1)] == q[k - 1]);
                } else {
                    assert forall|m: int| 0 <= m < k implies folder.subrange(i - 11, i - 11 + k)[m]
                        == q[m] by {
                        assert(r[i + m] == folder[i - 11 + m]);
                    }
                    assert(folder.subrange(i - 11, i - 11 + k) =~= q);
                    assert(occurs_at(folder, q, i - 11));
                }
            }
        }
    }
    assert forall|j: int| 1 <= j < q.len() implies !agrees(r, #[trigger] q.skip(j)) by {
        let b = q.skip(j);
        let k: int = if r.len() < b.len() { r.len() as int } else { b.len() as int };
        assert(r[0] != b[0]);
        assert(r.take(k)[0] != b.take(k)[0]);
    }
}

proof fn lemma_placeholder_shapes()
    ensures
        forall|j: int| 0 <= j < "Executable = 'auto'"@.len() ==> "Executable = 'auto'"@[j] != '"'
            && "Executable = 'auto'"@[j] != '/' && "Executable = 'auto'"@[j] != 'P',
        forall|j: int| 0 <= j < "Path = 'auto'"@.len() ==> "Path = 'auto'"@[j] != '"'
            && "Path = 'auto'"@[j] != '/',
        forall|j: int| 1 <= j < "Path = 'auto'"@.len() ==> "Path = 'auto'"@[j] != 'P',
        "Executable = 'auto'"@.len() == 19,
        "Path = 'auto'"@.len() == 13,
{
    reveal_strlit("Executable = 'auto'");
    reveal_strlit("Path = 'auto'");
}

/// Once patched, this game's configuration of the launcher no longer leaves
/// the executable or the game path to be found automatically, nor gives the
/// game no arguments; the one exception is a configuration that asks for
/// the game path when the game's folder name itself holds the executable or
/// the path placeholder.
pub proof fn lemma_aoe1_config_patched(t: Seq<char>, game_folder: Seq<char>)
    requires
        seq_contains(t, "Path = 'auto'"@) ==> !seq_contains(game_folder, "Executable = 'auto'"@)
            && !seq_contains(game_folder, "Path = 'auto'"@),
    ensures
        !seq_contains(
            spec_patch_game_config(t, spec_game_path(game_folder)),
            "Executable = 'auto'"@,
        ),
        !seq_contains(spec_patch_game_config(t, spec_game_path(game_folder)), "Path = 'auto'"@),
        !seq_contains(
            spec_patch_game_config(t, spec_game_path(game_folder)),
            "ExecutableArgs = []"@,
        ),
{
    if seq_contains(t, "Path = 'auto'"@) {
        lemma_placeholder_shapes();
        lemma_game_path_avoids("Executable = 'auto'"@, game_folder);
        lemma_game_path_avoids("Path = 'auto'"@, game_folder);
    }
    lemma_game_config_patched(t, spec_game_path(game_folder));
}

} // verus!
