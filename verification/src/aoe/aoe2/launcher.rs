//! The second game's launcher.

use vstd::prelude::*;
use crate::archive::{
    extract_tar_gz, extract_zip, listing_map, tar_gz_listing, zip_listing, ArchiveError, ArchiveFiles,
};
use crate::aoe::{lemma_game_config_patched, patch_game_config, spec_patch_game_config};
use crate::ctx::Ctx;
use crate::github::ReleaseQuery;
use crate::text::{
    insertion_avoids, lemma_avoids_by_mismatches, seq_contains, str_contains, str_equal, views,
};

verus! {

/// The game path the launcher is given: the game's folder next to it.
pub open spec fn spec_aoe2_path() -> Seq<char> {
    "Path = \"../AoE2DE\""@
}

/// Patches the launcher's configuration of this game: the emulator's
/// loader as executable, `../AoE2DE` as game path, the hosts file as argument.
pub fn patch_launcher_aoe2_config(text: &str) -> (r: String)
    ensures
        r@ == spec_patch_game_config(text@, spec_aoe2_path()),
{
    patch_game_config(text, "Path = \"../AoE2DE\"")
}

/// The piece of a release asset's name that stands for a processor
/// architecture (as `std::env::consts::ARCH` names it).
pub open spec fn spec_arch_piece(arch: Seq<char>) -> Option<Seq<char>> {
    if arch == "x86"@ {
        Some("_x86-32"@)
    } else if arch == "x86_64"@ {
        Some("_x86-64"@)
    } else if arch == "arm"@ {
        Some("_arm64"@)
    } else {
        None
    }
}

/// The piece of a release asset's name that stands for an operating system
/// (as `std::env::consts::OS` names it).
pub open spec fn spec_os_piece(os: Seq<char>) -> Option<Seq<char>> {
    if os == "windows"@ {
        Some("_win"@)
    } else if os == "linux"@ {
        Some("_linux"@)
    } else {
        None
    }
}

/// Why no launcher can be picked for this machine.
#[derive(Debug)]
pub enum PlatformError {
    /// The processor architecture (named) has no launcher.
    UnsupportedArch(String),
    /// The operating system has no launcher.
    UnsupportedOs(String),
}

impl PlatformError {
    /// The message shown to the user. The one for the operating system is
    /// the fixed text `{OS} operating system unsupported`, braces included.
    pub fn message(&self) -> (r: String)
        ensures
            self matches PlatformError::UnsupportedArch(a) ==> r@ == a@ + " arch unsupported"@,
            self is UnsupportedOs ==> r@ == "{OS} operating system unsupported"@,
    {
        match self {
            PlatformError::UnsupportedArch(a) => {
                let mut m = a.clone();
                m.append(" arch unsupported");
                m
            },
            PlatformError::UnsupportedOs(_) => String::from_str("{OS} operating system unsupported"),
        }
    }
}

/// The architecture's piece of an asset name, if the launcher is built for it.
pub fn arch_piece(arch: &str) -> (r: Option<&'static str>)
    ensures
        match spec_arch_piece(arch@) {
            Some(p) => r matches Some(q) && q@ == p,
            None => r is None,
        },
{
    if str_equal(arch, "x86") {
        Some("_x86-32")
    } else if str_equal(arch, "x86_64") {
        Some("_x86-64")
    } else if str_equal(arch, "arm") {
        Some("_arm64")
    } else {
        None
    }
}

/// The operating system's piece of an asset name, if the launcher is built for it.
pub fn os_piece(os: &str) -> (r: Option<&'static str>)
    ensures
        match spec_os_piece(os@) {
            Some(p) => r matches Some(q) && q@ == p,
            None => r is None,
        },
{
    if str_equal(os, "windows") {
        Some("_win")
    } else if str_equal(os, "linux") {
        Some("_linux")
    } else {
        None
    }
}

/// Which launcher release to fetch for a machine of architecture `arch`
/// running `os`: the configured version, the complete package built for
/// that system and architecture. The architecture is checked first.
pub fn launcher_full_url(ctx: &Ctx, arch: &str, os: &str) -> (r: Result<
    ReleaseQuery,
    PlatformError,
>)
    ensures
        spec_arch_piece(arch@) is None ==> (r matches Err(PlatformError::UnsupportedArch(a))
            && a@ == arch@),
        spec_arch_piece(arch@) is Some && spec_os_piece(os@) is None ==> (r matches Err(
            PlatformError::UnsupportedOs(o),
        ) && o@ == os@),
        match (spec_arch_piece(arch@), spec_os_piece(os@)) {
            (Some(a), Some(o)) => r matches Ok(q) && q.user@ == ctx.spec_config().aoe2.gh_launcher_user@
                && q.repo@ == ctx.spec_config().aoe2.gh_launcher_repo@ && (q.version matches Some(v)
                && v@ == ctx.spec_config().aoe2.launcher_version@) && views(q.search@) == seq![
                "_full_"@,
                o,
                a,
            ],
            _ => true,
        },
{
    let a = match arch_piece(arch) {
        Some(a) => a,
        None => {
            return Err(PlatformError::UnsupportedArch(arch.to_owned()));
        },
    };
    let o = match os_piece(os) {
        Some(o) => o,
        None => {
            return Err(PlatformError::UnsupportedOs(os.to_owned()));
        },
    };
    let mut search = Vec::new();
    search.push(String::from_str("_full_"));
    search.push(o.to_owned());
    search.push(a.to_owned());
    assert(views(search@) =~= seq!["_full_"@, o@, a@]);
    Ok(
        ReleaseQuery {
            user: ctx.config().aoe2.gh_launcher_user.clone(),
            repo: ctx.config().aoe2.gh_launcher_repo.clone(),
            version: Some(ctx.config().aoe2.launcher_version.clone()),
            search,
        },
    )
}

/// The kind of archive a launcher package is.
#[derive(Clone, Copy, Debug, PartialEq, Eq, Structural)]
pub enum ArchiveKind {
    Zip,
    TarGz,
}

/// The kind of archive behind a download address: zip when it mentions
/// `.zip`, else gzip-compressed tar when it mentions `.tar.gz`.
pub open spec fn spec_archive_kind(url: Seq<char>) -> Option<ArchiveKind> {
    if seq_contains(url, ".zip"@) {
        Some(ArchiveKind::Zip)
    } else if seq_contains(url, ".tar.gz"@) {
        Some(ArchiveKind::TarGz)
    } else {
        None
    }
}

/// The kind of archive behind a download address, if it is one this
/// installer unpacks.
pub fn archive_kind(url: &str) -> (r: Option<ArchiveKind>)
    ensures
        r == spec_archive_kind(url@),
{
    if str_contains(url, ".zip") {
        Some(ArchiveKind::Zip)
    } else if str_contains(url, ".tar.gz") {
        Some(ArchiveKind::TarGz)
    } else {
        None
    }
}

/// Why the launcher package could not be unpacked.
#[derive(Debug)]
pub enum UnpackError {
    /// The download is neither a zip nor a gzip-compressed tar archive.
    UnknownArchive,
    Archive(ArchiveError),
}

impl UnpackError {
    /// The message shown to the user.
    pub fn message(&self) -> (r: String)
        ensures
            self is UnknownArchive ==> r@ == "Unable to extract archive"@,
            self matches UnpackError::Archive(e) ==> r@ == e.message@,
    {
        match self {
            UnpackError::UnknownArchive => String::from_str("Unable to extract archive"),
            UnpackError::Archive(e) => e.message.clone(),
        }
    }
}

/// The files of the launcher package downloaded from `url`, unpacked as the
/// address's kind of archive says.
pub fn unpack_launcher(url: &str, data: &[u8]) -> (r: Result<ArchiveFiles, UnpackError>)
    ensures
        spec_archive_kind(url@) is None <==> r matches Err(UnpackError::UnknownArchive),
        spec_archive_kind(url@) == Some(ArchiveKind::Zip) ==> match zip_listing(data@) {
            None => r matches Err(UnpackError::Archive(_)),
            Some(l) => match listing_map(l) {
                None => r matches Err(UnpackError::Archive(_)),
                Some(m) => r matches Ok(f) && f.view() == m,
            },
        },
        spec_archive_kind(url@) == Some(ArchiveKind::TarGz) && tar_gz_listing(data@).len()
            < usize::MAX ==> match listing_map(tar_gz_listing(data@)) {
            None => r matches Err(UnpackError::Archive(_)),
            Some(m) => r matches Ok(f) && f.view() == m,
        },
{
    match archive_kind(url) {
        Some(ArchiveKind::Zip) => match extract_zip(data) {
            Ok(f) => Ok(f),
            Err(e) => Err(UnpackError::Archive(e)),
        },
        Some(ArchiveKind::TarGz) => match extract_tar_gz(data) {
            Ok(f) => Ok(f),
            Err(e) => Err(UnpackError::Archive(e)),
        },
        None => Err(UnpackError::UnknownArchive),
    }
}

proof fn lemma_aoe2_path_inert()
    ensures
        insertion_avoids("Path = 'auto'"@, "Path = \"../AoE2DE\""@),
{
    let q = "Path = 'auto'"@;
    let r = "Path = \"../AoE2DE\""@;
    reveal_strlit("Path = 'auto'");
    reveal_strlit("Path = \"../AoE2DE\"");
    lemma_avoids_by_mismatches(q, r, |i: int| if i == 0 { 7int } else { 0int }, |j: int| 0int);
}

proof fn lemma_aoe2_path_keeps_exec()
    ensures
        insertion_avoids("Executable = 'auto'"@, "Path = \"../AoE2DE\""@),
{
    let q = "Executable = 'auto'"@;
    let r = "Path = \"../AoE2DE\""@;
    reveal_strlit("Executable = 'auto'");
    reveal_strlit("Path = \"../AoE2DE\"");
    lemma_avoids_by_mismatches(q, r, |i: int| if i == 13 || i == 16 { 1int } else { 0int }, |j: int| 0int);
}

/// Once patched, this game's configuration of the launcher no longer leaves
/// the executable or the game path to be found automatically, nor gives the
/// game no arguments.
pub proof fn lemma_aoe2_config_patched(t: Seq<char>)
    ensures
        !seq_contains(spec_patch_game_config(t, spec_aoe2_path()), "Executable = 'auto'"@),
        !seq_contains(spec_patch_game_config(t, spec_aoe2_path()), "Path = 'auto'"@),
        !seq_contains(spec_patch_game_config(t, spec_aoe2_path()), "ExecutableArgs = []"@),
{
    lemma_aoe2_path_inert();
    lemma_aoe2_path_keeps_exec();
    lemma_game_config_patched(t, spec_aoe2_path());
}

} // verus!
