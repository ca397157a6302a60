use aes_gcm::aead::{Aead, KeyInit};
use aoe_archive::archive::ArchiveFiles;
use aoe_archive::config::{AoE1, AoE2, Config, Goldberg};
use aoe_archive::game::Game;
use aoe_archive::goldberg::{
    cold_client_ini, cold_client_settings, cold_client_suffix, goldberg_files, goldberg_files_checked,
    goldberg_release_query, goldberg_subdirs, goldberg_target, goldberg_target_of_lower,
    is_cold_client_ini,
    steam_settings_files, GOLDBERG_SUBDIR,
};

fn goldberg_config() -> Config {
    let aoe = |v: &str| (v.to_string(), v.to_string());
    let (u, r) = aoe("x");
    Config {
        goldberg: Goldberg {
            gh_user: "Detanup01".to_string(),
            gh_repo: "gbe_fork".to_string(),
            version: "release-2025".to_string(),
        },
        aoe2: AoE2 {
            gh_companion_user: u.clone(),
            gh_companion_repo: r.clone(),
            gh_launcher_user: u.clone(),
            gh_launcher_repo: r.clone(),
            launcher_version: r.clone(),
        },
        aoe1: AoE1 {
            gh_companion_user: u.clone(),
            gh_companion_repo: r.clone(),
            gh_launcher_user: u,
            gh_launcher_repo: r.clone(),
            launcher_version: r,
        },
    }
}

#[test]
fn targets_of_release_files() {
    let t = goldberg_target("release/steamclient_experimental/SteamClient64.dll").unwrap();
    assert_eq!(t.name, "SteamClient64.dll");
    assert!(!t.encrypt);
    let t = goldberg_target("release/steamclient_experimental/ColdClientLoader.ini").unwrap();
    assert_eq!(t.name, "ColdClientLoader.ini");
    let t = goldberg_target("release/steamclient_experimental/steamclient_loader_x64.exe").unwrap();
    assert_eq!(t.name, "steamclient_loader_x64.encrypted");
    assert!(t.encrypt);
    assert!(goldberg_target("release/steamclient_experimental/other.dll").is_none());
    assert!(goldberg_target("release/regular/steamclient.dll").is_none());
    assert!(goldberg_target("steamclient.dll").is_none());
}

#[test]
fn release_files_become_output_files() {
    let key: Vec<u8> = (0u8..40).collect();
    let mut release = ArchiveFiles::new();
    release.insert("release/steamclient_experimental/steamclient.dll".to_string(), b"dll".to_vec());
    release.insert("release/readme.txt".to_string(), b"r".to_vec());
    release.insert(
        "release/steamclient_experimental/steamclient_loader_x64.exe".to_string(),
        b"loader".to_vec(),
    );
    let out = goldberg_files(&release, &key);
    assert_eq!(out.len(), 2);
    assert_eq!(out[0].name, "steamclient.dll");
    assert_eq!(out[0].content, b"dll");
    assert_eq!(out[1].name, "steamclient_loader_x64.encrypted");
    assert_eq!(out[1].content.len(), b"loader".len() + 16);
    assert_ne!(&out[1].content[..6], b"loader");

    let cipher = aes_gcm::Aes256Gcm::new(aes_gcm::Key::<aes_gcm::Aes256Gcm>::from_slice(&key[..32]));
    let plain = cipher.decrypt(aes_gcm::Nonce::from_slice(&[0u8; 12]), out[1].content.as_slice()).unwrap();
    assert_eq!(plain, b"loader");

    let checked = goldberg_files_checked(&release, &key).unwrap();
    assert_eq!(checked.len(), 2);
}

#[test]
fn loader_settings_per_game() {
    let s = cold_client_settings(&Game::parse("aoe2").unwrap());
    let v: Vec<(String, String, String)> =
        s.into_iter().map(|x| (x.section, x.key, x.value)).collect();
    assert_eq!(
        v,
        vec![
            ("SteamClient".to_string(), "Exe".to_string(), "..\\AoE2DE\\AoE2DE_s.exe".to_string()),
            ("SteamClient".to_string(), "AppId".to_string(), "813780".to_string()),
            ("Injection".to_string(), "DllsToInjectFolder".to_string(), "dlls".to_string()),
        ]
    );
    let s = cold_client_settings(&Game::parse("aoe1").unwrap());
    assert_eq!(s.len(), 2);
    assert_eq!(s[0].value, "..\\AoEDE\\AoEDE_s.exe");
    assert_eq!(s[1].value, "1017900");
    assert_eq!(cold_client_suffix(&Game::parse("aoe1").unwrap()), ".aoe1");
}

#[test]
fn loader_ini_name() {
    assert!(is_cold_client_ini("ColdClientLoader.ini"));
    assert!(is_cold_client_ini("coldclientloader.INI"));
    assert!(!is_cold_client_ini("coldclientloader.ini.bak"));
}

#[test]
fn emulator_release_and_layout() {
    let q = goldberg_release_query(&goldberg_config());
    assert_eq!(q.user, "Detanup01");
    assert_eq!(q.repo, "gbe_fork");
    assert_eq!(q.version.as_deref(), Some("release-2025"));
    assert_eq!(q.search, vec!["emu-win-release.7z".to_string()]);
    assert_eq!(goldberg_subdirs(), vec!["dlls", "steam_settings", "saves"]);
    assert_eq!(steam_settings_files().len(), 4);
    assert_eq!(GOLDBERG_SUBDIR, "goldberg");
}

fn set_all_at_once(text: &str, game: &Game) -> String {
    let mut conf = ini::Ini::load_from_str(text).unwrap();
    for s in cold_client_settings(game) {
        conf.with_section(Some(s.section)).set(s.key, s.value);
    }
    let mut out = Vec::new();
    conf.write_to_opt(&mut out, ini::WriteOption { line_separator: ini::LineSeparator::CR, ..Default::default() })
        .unwrap();
    String::from_utf8(out).unwrap()
}

#[test]
fn cold_client_ini_sets_the_game() {
    let text = "[SteamClient]\nExe=game.exe\nAppId=0\nSteamClientDll=steamclient.dll\n\n[Injection]\nIgnoreLoaderArchDifference=0\n";
    let aoe2 = Game::parse("aoe2").unwrap();
    let out = cold_client_ini(text, &aoe2, false).unwrap();
    let conf = ini::Ini::load_from_str(&out).unwrap();
    assert_eq!(conf.get_from(Some("SteamClient"), "Exe"), Some("..\\AoE2DE\\AoE2DE_s.exe"));
    assert_eq!(conf.get_from(Some("SteamClient"), "AppId"), Some("813780"));
    assert_eq!(conf.get_from(Some("SteamClient"), "SteamClientDll"), Some("steamclient.dll"));
    assert_eq!(conf.get_from(Some("Injection"), "DllsToInjectFolder"), Some("dlls"));
    assert_eq!(out, set_all_at_once(text, &aoe2));

    let aoe1 = Game::parse("aoe1").unwrap();
    let out1 = cold_client_ini(text, &aoe1, false).unwrap();
    let conf1 = ini::Ini::load_from_str(&out1).unwrap();
    assert_eq!(conf1.get_from(Some("SteamClient"), "AppId"), Some("1017900"));
    assert_eq!(conf1.get_from(Some("Injection"), "DllsToInjectFolder"), None);
    assert_eq!(out1, set_all_at_once(text, &aoe1));

    let with_bom = format!("\u{feff}{text}");
    assert_eq!(cold_client_ini(&with_bom, &aoe2, false).unwrap(), out);
    assert!(cold_client_ini(text, &aoe2, true).unwrap().contains("\r\n"));
    assert!(cold_client_ini("[SteamClient\nExe=x\n", &aoe2, false).is_err());
}

#[test]
fn target_from_lower_name() {
    let t = goldberg_target_of_lower("SteamClient64.DLL".to_string(), "steamclient64.dll").unwrap();
    assert_eq!(t.name, "SteamClient64.DLL");
    assert!(!t.encrypt);
    let l = goldberg_target_of_lower("Steamclient_Loader_x64.exe".to_string(), "steamclient_loader_x64.exe").unwrap();
    assert_eq!(l.name, "steamclient_loader_x64.encrypted");
    assert!(l.encrypt);
    assert!(goldberg_target_of_lower("readme.txt".to_string(), "readme.txt").is_none());
}
