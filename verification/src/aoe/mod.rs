//! Installing the LAN launcher and its companion for each game: which
//! release to fetch, which files of it to keep, and how its configuration
//! is patched.

pub mod aoe1;
pub mod aoe2;

use vstd::prelude::*;
use crate::text::{
    insertion_avoids, lemma_avoids_by_mismatches, lemma_replace_all_absent, lemma_replace_all_keeps_absent,
    lemma_replace_all_removes, lowercase, replace_all, replace_str,
    seq_contains, str_contains, to_lowercase,
};

verus! {

/// The main launcher configuration with the single server chosen automatically.
pub open spec fn spec_patch_main_config(t: Seq<char>) -> Seq<char> {
    replace_all(t, "SingleAutoSelect = false"@, "SingleAutoSelect = true"@)
}

/// Patches the launcher's main configuration so that a single server is
/// chosen automatically.
pub fn patch_launcher_main_config(text: &str) -> (r: String)
    ensures
        r@ == spec_patch_main_config(text@),
{
    proof {
        reveal_strlit("SingleAutoSelect = false");
    }
    replace_str(text, "SingleAutoSelect = false", "SingleAutoSelect = true")
}

proof fn lemma_auto_select_inert()
    ensures
        insertion_avoids("SingleAutoSelect = false"@, "SingleAutoSelect = true"@),
{
    let q = "SingleAutoSelect = false"@;
    let r = "SingleAutoSelect = true"@;
    reveal_strlit("SingleAutoSelect = false");
    reveal_strlit("SingleAutoSelect = true");
    lemma_avoids_by_mismatches(q, r, |i: int| if i == 0 { 19int } else if i == 10 { 1int } else { 0int }, |j: int| if j == 10 { 1int } else { 0int });
}

/// Once patched, the main configuration no longer turns the automatic
/// choice of a single server off.
pub proof fn lemma_main_config_patched(t: Seq<char>)
    ensures
        !seq_contains(spec_patch_main_config(t), "SingleAutoSelect = false"@),
{
    lemma_auto_select_inert();
    reveal_strlit("SingleAutoSelect = false");
    lemma_replace_all_removes(t, "SingleAutoSelect = false"@, "SingleAutoSelect = true"@);
}

/// A game configuration of the launcher with the emulator's loader as
/// executable, `path` as game path, and the hosts file passed as argument.
pub open spec fn spec_patch_game_config(t: Seq<char>, path: Seq<char>) -> Seq<char> {
    replace_all(
        replace_all(
            replace_all(
                t,
                "Executable = 'auto'"@,
                "Executable = \"../goldberg/steamclient_loader_x64.exe\""@,
            ),
            "Path = 'auto'"@,
            path,
        ),
        "ExecutableArgs = []"@,
        "ExecutableArgs = ['--overrideHosts=\"{HostFilePath}\"']"@,
    )
}

/// Patches a game configuration of the launcher: the loader as executable,
/// `path` as game path, the hosts file as argument.
pub fn patch_game_config(text: &str, path: &str) -> (r: String)
    ensures
        r@ == spec_patch_game_config(text@, path@),
{
    proof {
        reveal_strlit("Executable = 'auto'");
        reveal_strlit("Path = 'auto'");
        reveal_strlit("ExecutableArgs = []");
    }
    let a = replace_str(
        text,
        "Executable = 'auto'",
        "Executable = \"../goldberg/steamclient_loader_x64.exe\"",
    );
    let b = replace_str(a.as_str(), "Path = 'auto'", path);
    replace_str(
        b.as_str(),
        "ExecutableArgs = []",
        "ExecutableArgs = ['--overrideHosts=\"{HostFilePath}\"']",
    )
}

proof fn lemma_exec_inert()
    ensures
        insertion_avoids("Executable = 'auto'"@, "Executable = \"../goldberg/steamclient_loader_x64.exe\""@),
{
    let q = "Executable = 'auto'"@;
    let r = "Executable = \"../goldberg/steamclient_loader_x64.exe\""@;
    reveal_strlit("Executable = 'auto'");
    reveal_strlit("Executable = \"../goldberg/steamclient_loader_x64.exe\"");
    lemma_avoids_by_mismatches(q, r, |i: int| if i == 0 { 13int } else { 0int }, |j: int| 0int);
}

proof fn lemma_args_inert()
    ensures
        insertion_avoids("ExecutableArgs = []"@, "ExecutableArgs = ['--overrideHosts=\"{HostFilePath}\"']"@),
{
    let q = "ExecutableArgs = []"@;
    let r = "ExecutableArgs = ['--overrideHosts=\"{HostFilePath}\"']"@;
    reveal_strlit("ExecutableArgs = []");
    reveal_strlit("ExecutableArgs = ['--overrideHosts=\"{HostFilePath}\"']");
    lemma_avoids_by_mismatches(q, r, |i: int| if i == 0 { 18int } else { 0int }, |j: int| 0int);
}

proof fn lemma_args_keep_exec()
    ensures
        insertion_avoids("Executable = 'auto'"@, "ExecutableArgs = ['--overrideHosts=\"{HostFilePath}\"']"@),
{
    let q = "Executable = 'auto'"@;
    let r = "ExecutableArgs = ['--overrideHosts=\"{HostFilePath}\"']"@;
    reveal_strlit("Executable = 'auto'");
    reveal_strlit("ExecutableArgs = ['--overrideHosts=\"{HostFilePath}\"']");
    lemma_avoids_by_mismatches(q, r, |i: int| if i == 0 { 10int } else { 0int }, |j: int| 0int);
}

proof fn lemma_args_keep_path()
    ensures
        insertion_avoids("Path = 'auto'"@, "ExecutableArgs = ['--overrideHosts=\"{HostFilePath}\"']"@),
{
    let q = "Path = 'auto'"@;
    let r = "ExecutableArgs = ['--overrideHosts=\"{HostFilePath}\"']"@;
    reveal_strlit("Path = 'auto'");
    reveal_strlit("ExecutableArgs = ['--overrideHosts=\"{HostFilePath}\"']");
    lemma_avoids_by_mismatches(q, r, |i: int| if i == 45 { 4int } else { 0int }, |j: int| 0int);
}

proof fn lemma_exec_keeps_path()
    ensures
        insertion_avoids("Path = 'auto'"@, "Executable = \"../goldberg/steamclient_loader_x64.exe\""@),
{
    let q = "Path = 'auto'"@;
    let r = "Executable = \"../goldberg/steamclient_loader_x64.exe\""@;
    reveal_strlit("Path = 'auto'");
    reveal_strlit("Executable = \"../goldberg/steamclient_loader_x64.exe\"");
    lemma_avoids_by_mismatches(q, r, |i: int| 0int, |j: int| 0int);
}

/// Once a game configuration has been patched, none of its three
/// placeholders is left, provided that the game path put in, where the
/// configuration asks for one, cannot itself form the executable or the
/// path placeholder.
pub proof fn lemma_game_config_patched(t: Seq<char>, path: Seq<char>)
    requires
        seq_contains(t, "Path = 'auto'"@) ==> insertion_avoids("Executable = 'auto'"@, path)
            && insertion_avoids("Path = 'auto'"@, path),
    ensures
        !seq_contains(spec_patch_game_config(t, path), "Executable = 'auto'"@),
        !seq_contains(spec_patch_game_config(t, path), "Path = 'auto'"@),
        !seq_contains(spec_patch_game_config(t, path), "ExecutableArgs = []"@),
{
    let exec_p = "Executable = 'auto'"@;
    let exec_r = "Executable = \"../goldberg/steamclient_loader_x64.exe\""@;
    let path_p = "Path = 'auto'"@;
    let args_p = "ExecutableArgs = []"@;
    let args_r = "ExecutableArgs = ['--overrideHosts=\"{HostFilePath}\"']"@;
    reveal_strlit("Executable = 'auto'");
    reveal_strlit("Path = 'auto'");
    reveal_strlit("ExecutableArgs = []");
    lemma_exec_inert();
    lemma_args_inert();
    lemma_args_keep_exec();
    lemma_args_keep_path();
    let a = replace_all(t, exec_p, exec_r);
    let b = replace_all(a, path_p, path);
    lemma_replace_all_removes(t, exec_p, exec_r);
    if seq_contains(t, path_p) {
        lemma_replace_all_removes(a, path_p, path);
        lemma_replace_all_keeps_absent(a, path_p, path, exec_p);
    } else {
        lemma_exec_keeps_path();
        lemma_replace_all_keeps_absent(t, exec_p, exec_r, path_p);
        lemma_replace_all_absent(a, path_p, path);
    }
    lemma_replace_all_removes(b, args_p, args_r);
    lemma_replace_all_keeps_absent(b, args_p, args_r, exec_p);
    lemma_replace_all_keeps_absent(b, args_p, args_r, path_p);
}

/// A file of the companion's archive is kept when its lower-case name names
/// the game (`tag`) or the shared fake host.
pub open spec fn spec_companion_keeps(name: Seq<char>, tag: Seq<char>) -> bool {
    seq_contains(lowercase(name), tag) || seq_contains(lowercase(name), "fakehost"@)
}

/// A companion file is kept exactly when its lower-case name holds the
/// game's tag at some position, or holds `fakehost` at some position.
pub proof fn lemma_companion_keeps_anywhere(name: Seq<char>, tag: Seq<char>)
    ensures
        spec_companion_keeps(name, tag) <==> ((exists|i: int|
            0 <= i && i + tag.len() <= lowercase(name).len() && #[trigger] lowercase(name).subrange(
                i,
                i + tag.len(),
            ) == tag) || (exists|i: int|
            0 <= i && i + "fakehost"@.len() <= lowercase(name).len() && #[trigger] lowercase(
                name,
            ).subrange(i, i + "fakehost"@.len()) == "fakehost"@)),
{
    let l = lowercase(name);
    let f = "fakehost"@;
    if seq_contains(l, tag) {
        let i = choose|i: int| crate::text::occurs_at(l, tag, i);
        assert(l.subrange(i, i + tag.len()) == tag);
    }
    if seq_contains(l, f) {
        let i = choose|i: int| crate::text::occurs_at(l, f, i);
        assert(l.subrange(i, i + f.len()) == f);
    }
    if exists|i: int| 0 <= i && i + tag.len() <= l.len() && #[trigger] l.subrange(i, i + tag.len()) == tag {
        let i = choose|i: int| 0 <= i && i + tag.len() <= l.len() && #[trigger] l.subrange(i, i + tag.len()) == tag;
        assert(crate::text::occurs_at(l, tag, i));
    }
    if exists|i: int| 0 <= i && i + f.len() <= l.len() && #[trigger] l.subrange(i, i + f.len()) == f {
        let i = choose|i: int| 0 <= i && i + f.len() <= l.len() && #[trigger] l.subrange(i, i + f.len()) == f;
        assert(crate::text::occurs_at(l, f, i));
    }
}

/// Whether a file of the companion's archive is kept for the game `tag`.
pub fn companion_keeps(name: &str, tag: &str) -> (r: bool)
    ensures
        r == spec_companion_keeps(name@, tag@),
        r == (seq_contains(lowercase(name@), tag@) || seq_contains(lowercase(name@), "fakehost"@)),
{
    let lower = to_lowercase(name);
    companion_keeps_lower(lower.as_str(), tag)
}

/// Whether a file of the companion's archive is kept for the game `tag`,
/// given the lower-case form of its name: it names the game or the shared
/// fake host.
pub fn companion_keeps_lower(lower: &str, tag: &str) -> (r: bool)
    ensures
        r == (seq_contains(lower@, tag@) || seq_contains(lower@, "fakehost"@)),
{
    str_contains(lower, tag) || str_contains(lower, "fakehost")
}

} // verus!
