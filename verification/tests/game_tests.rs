use aoe_archive::game::{Game, GameDisc};
use aoe_archive::steam::{source_app_name, uninstall_keys};
use aoe_archive::utils::{
    game_label, source_exe_name, validate_aoe1_source, validate_aoe2_source, SourceError,
    SourceProbe,
};

#[test]
fn disc_tables() {
    assert_eq!(GameDisc::Aoe1.steam_app_id(), "1017900");
    assert_eq!(GameDisc::Aoe2.steam_app_id(), "813780");
    assert_eq!(GameDisc::Aoe1.exe_location(), "AoEDE\\AoEDE_s.exe");
    assert_eq!(GameDisc::Aoe2.exe_location(), "AoE2DE\\AoE2DE_s.exe");
    assert_eq!(GameDisc::Aoe1.dll_folder(), None);
    assert_eq!(GameDisc::Aoe2.dll_folder(), Some("dlls"));
}

#[test]
fn game_tables_follow_disc() {
    for g in Game::all() {
        let d = g.disc();
        assert_eq!(g.steam_app_id(), d.steam_app_id());
        assert_eq!(g.exe_location(), d.exe_location());
        assert_eq!(g.dll_folder(), d.dll_folder());
    }
}

#[test]
fn all_games_in_order() {
    let all = Game::all();
    assert_eq!(all.len(), 2);
    assert_eq!(all[0].disc(), GameDisc::Aoe1);
    assert_eq!(all[1].disc(), GameDisc::Aoe2);
    assert!(all[0] < all[1]);
}

#[test]
fn name_parse_round_trip() {
    for g in Game::all() {
        let back = Game::parse(g.name()).unwrap();
        assert!(back == g);
        assert_eq!(back.name(), g.name());
    }
    assert_eq!(Game::parse("aoe1").unwrap().disc(), GameDisc::Aoe1);
    assert_eq!(Game::parse("aoe2").unwrap().disc(), GameDisc::Aoe2);
}

#[test]
fn parse_unknown_game() {
    let err = Game::parse("aoe3").err().unwrap();
    assert_eq!(err.name, "aoe3");
    assert_eq!(err.message(), "Unknown game: aoe3");
    assert!(Game::parse("AOE1").is_err());
    assert!(Game::parse("").is_err());
}

#[test]
fn games_order_and_equality() {
    let a = Game::parse("aoe1").unwrap();
    let b = Game::parse("aoe2").unwrap();
    assert!(a < b);
    assert!(b > a);
    assert!(a != b);
    assert_eq!(a.partial_cmp(&a), Some(std::cmp::Ordering::Equal));
    assert_eq!(b.partial_cmp(&a), Some(std::cmp::Ordering::Greater));
    assert!(a.disc().order_index() < b.disc().order_index());
}

#[test]
fn new_games_have_no_source() {
    match Game::parse("aoe1").unwrap() {
        Game::Aoe1(g) => assert!(g.source().is_none()),
        Game::Aoe2(_) => panic!("wrong game"),
    }
}

#[test]
fn steam_registry_names() {
    assert_eq!(source_app_name(GameDisc::Aoe2), "Steam App 813780");
    assert_eq!(source_app_name(GameDisc::Aoe1), "Steam App 1017900");
    let keys = uninstall_keys("Steam App 813780");
    assert_eq!(
        keys,
        vec![
            "SOFTWARE\\Microsoft\\Windows\\CurrentVersion\\Uninstall\\Steam App 813780".to_string(),
            "SOFTWARE\\WOW6432Node\\Microsoft\\Windows\\CurrentVersion\\Uninstall\\Steam App 813780"
                .to_string(),
        ]
    );
}

#[test]
fn source_validation() {
    let probe = |exists, is_dir, exe_exists| SourceProbe { exists, is_dir, exe_exists };
    assert_eq!(validate_aoe2_source(&probe(false, false, false)), Err(SourceError::Missing));
    assert_eq!(validate_aoe2_source(&probe(true, false, true)), Err(SourceError::NotADirectory));
    assert_eq!(
        validate_aoe2_source(&probe(true, true, false)),
        Err(SourceError::NoExecutable(GameDisc::Aoe2))
    );
    assert_eq!(validate_aoe2_source(&probe(true, true, true)), Ok(()));
    assert_eq!(
        validate_aoe1_source(&probe(true, true, false)),
        Err(SourceError::NoExecutable(GameDisc::Aoe1))
    );
    assert_eq!(SourceError::Missing.message(), "Directory does not exist");
    assert_eq!(SourceError::NotADirectory.message(), "Path is not a directory");
    assert_eq!(
        SourceError::NoExecutable(GameDisc::Aoe2).message(),
        "This doesn't appear to be an AoE2 DE directory (AoE2DE_s.exe not found)"
    );
    assert_eq!(source_exe_name(GameDisc::Aoe2), "AoE2DE_s.exe");
    assert_eq!(source_exe_name(GameDisc::Aoe1), "AoEDE_s.exe");
    assert_eq!(game_label(GameDisc::Aoe1), "AoE1");
    assert_eq!(game_label(GameDisc::Aoe2), "AoE2");
}

#[test]
fn game_from_str() {
    let g: Game = "aoe2".parse().unwrap();
    assert_eq!(g.disc(), GameDisc::Aoe2);
    assert!("x".parse::<Game>().is_err());
}
