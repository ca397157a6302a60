use aoe_archive::aoe::aoe1;
use aoe_archive::aoe::aoe2::companion;
use aoe_archive::aoe::aoe2::launcher::{
    arch_piece, archive_kind, launcher_full_url, os_piece, patch_launcher_aoe2_config,
    unpack_launcher, ArchiveKind, PlatformError, UnpackError,
};
use aoe_archive::aoe::{companion_keeps_lower, patch_launcher_main_config};
use aoe_archive::config::{AoE1, AoE2, Config, Goldberg};
use aoe_archive::ctx::Ctx;

fn launcher_ctx() -> Ctx {
    let s = |x: &str| x.to_string();
    Ctx::new(
        Config {
            goldberg: Goldberg { gh_user: s("g"), gh_repo: s("gr"), version: s("gv") },
            aoe2: AoE2 {
                gh_companion_user: s("cu2"),
                gh_companion_repo: s("cr2"),
                gh_launcher_user: s("lu2"),
                gh_launcher_repo: s("lr2"),
                launcher_version: s("lv2"),
            },
            aoe1: AoE1 {
                gh_companion_user: s("cu1"),
                gh_companion_repo: s("cr1"),
                gh_launcher_user: s("lu1"),
                gh_launcher_repo: s("lr1"),
                launcher_version: s("lv1"),
            },
        },
        s("out"),
        s("out1"),
    )
}

const GAME_CONFIG: &str = "[Client]\nExecutable = 'auto'\nPath = 'auto'\nExecutableArgs = []\n";

#[test]
fn main_config_patch() {
    assert_eq!(
        patch_launcher_main_config("a\nSingleAutoSelect = false\nb"),
        "a\nSingleAutoSelect = true\nb"
    );
    assert_eq!(patch_launcher_main_config("nothing"), "nothing");
}

#[test]
fn aoe2_config_patch() {
    assert_eq!(
        patch_launcher_aoe2_config(GAME_CONFIG),
        "[Client]\nExecutable = \"../goldberg/steamclient_loader_x64.exe\"\nPath = \"../AoE2DE\"\nExecutableArgs = ['--overrideHosts=\"{HostFilePath}\"']\n"
    );
}

#[test]
fn aoe1_config_patch() {
    assert_eq!(
        aoe1::patch_launcher_aoe1_config(GAME_CONFIG, "AoEDE"),
        "[Client]\nExecutable = \"../goldberg/steamclient_loader_x64.exe\"\nPath = \"../AoEDE\"\nExecutableArgs = ['--overrideHosts=\"{HostFilePath}\"']\n"
    );
}

#[test]
fn platform_pieces() {
    assert_eq!(arch_piece("x86"), Some("_x86-32"));
    assert_eq!(arch_piece("x86_64"), Some("_x86-64"));
    assert_eq!(arch_piece("arm"), Some("_arm64"));
    assert_eq!(arch_piece("aarch64"), None);
    assert_eq!(os_piece("windows"), Some("_win"));
    assert_eq!(os_piece("linux"), Some("_linux"));
    assert_eq!(os_piece("macos"), None);
}

#[test]
fn aoe2_launcher_query() {
    let c = launcher_ctx();
    let q = launcher_full_url(&c, "x86_64", "windows").unwrap();
    assert_eq!(q.user, "lu2");
    assert_eq!(q.repo, "lr2");
    assert_eq!(q.version.as_deref(), Some("lv2"));
    assert_eq!(q.search, vec!["_full_", "_win", "_x86-64"]);
    let e = launcher_full_url(&c, "mips", "windows").err().unwrap();
    assert!(matches!(&e, PlatformError::UnsupportedArch(a) if a == "mips"));
    assert_eq!(e.message(), "mips arch unsupported");
    let e = launcher_full_url(&c, "mips", "plan9").err().unwrap();
    assert!(matches!(e, PlatformError::UnsupportedArch(_)));
    let e = launcher_full_url(&c, "arm", "plan9").err().unwrap();
    assert!(matches!(&e, PlatformError::UnsupportedOs(o) if o == "plan9"));
    assert_eq!(e.message(), "{OS} operating system unsupported");
}

#[test]
fn companion_queries() {
    let c = launcher_ctx();
    let q = companion::launcher_companion_full_url(&c);
    assert_eq!((q.user.as_str(), q.repo.as_str()), ("cu2", "cr2"));
    assert!(q.version.is_none());
    assert_eq!(q.search, vec!["_full_"]);
    let q = aoe1::launcher_companion_full_url(&c);
    assert_eq!((q.user.as_str(), q.repo.as_str()), ("cu1", "cr1"));
    let q = aoe1::launcher_full_url(&c);
    assert_eq!(q.version.as_deref(), Some("lv1"));
    assert_eq!(q.search, vec!["_full_", "win10_x86-64"]);
}

#[test]
fn companion_file_filter() {
    assert!(companion::is_companion_file("Age2FakeOnline.dll"));
    assert!(companion::is_companion_file("FAKEHOST/x.dll"));
    assert!(!companion::is_companion_file("Age1FakeOnline.dll"));
    assert!(aoe1::is_companion_file("AGE1FakeOnline.dll"));
    assert!(aoe1::is_companion_file("fakehost.dll"));
    assert!(!aoe1::is_companion_file("readme.md"));
}

#[test]
fn archive_kinds() {
    assert_eq!(archive_kind("https://x/launcher_full_win.zip"), Some(ArchiveKind::Zip));
    assert_eq!(archive_kind("https://x/launcher_full_linux.tar.gz"), Some(ArchiveKind::TarGz));
    assert_eq!(archive_kind("https://x/a.zip.tar.gz"), Some(ArchiveKind::Zip));
    assert_eq!(archive_kind("https://x/a.7z"), None);
    let e = unpack_launcher("https://x/a.7z", b"").err().unwrap();
    assert!(matches!(e, UnpackError::UnknownArchive));
    assert_eq!(e.message(), "Unable to extract archive");
    assert!(matches!(unpack_launcher("a.zip", b"junk"), Err(UnpackError::Archive(_))));
}

#[test]
fn patched_configs_leave_nothing_automatic() {
    let tricky = "Executable = 'auto'Executable = 'auto'\nPath = 'auto'Path = 'auto'ExecutableArgs = []ExecutableArgs = []\nSingleAutoSelect = falseSingleAutoSelect = false";
    let a = patch_launcher_aoe2_config(tricky);
    assert!(!a.contains("Executable = 'auto'"));
    assert!(!a.contains("Path = 'auto'"));
    assert!(!a.contains("ExecutableArgs = []"));
    let m = patch_launcher_main_config(tricky);
    assert!(!m.contains("SingleAutoSelect = false"));
    assert_eq!(m.matches("SingleAutoSelect = true").count(), 2);
}

#[test]
fn patched_aoe1_config_leaves_nothing_automatic() {
    let tricky = "Executable = 'auto'Path = 'auto'ExecutableArgs = []\nPath = 'auto'";
    let a = aoe1::patch_launcher_aoe1_config(tricky, "AoE Path = 'aut");
    assert!(!a.contains("Executable = 'auto'"));
    assert!(!a.contains("Path = 'auto'"));
    assert!(!a.contains("ExecutableArgs = []"));
    let untouched = aoe1::patch_launcher_aoe1_config("Executable = 'auto'", "Path = 'auto'");
    assert!(!untouched.contains("Executable = 'auto'"));
    assert!(!untouched.contains("Path = 'auto'"));
    let leaked = aoe1::patch_launcher_aoe1_config("Path = 'auto'", "Path = 'auto'");
    assert!(leaked.contains("Path = 'auto'"));
}

#[test]
fn companion_filter_on_lower_names() {
    assert!(companion_keeps_lower("age2fakeonline.dll", "age2"));
    assert!(companion_keeps_lower("fakehost.exe", "age1"));
    assert!(!companion_keeps_lower("age1fakeonline.dll", "age2"));
    assert!(!companion_keeps_lower("AGE2.dll", "age2"));
}
