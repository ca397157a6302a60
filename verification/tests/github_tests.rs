use aoe_archive::github::{
    asset_from_json, release_from_json, releases_download_url, releases_download_url_from_text,
    releases_from_json,
    select_download_url, GhAsset, GhAssets, GhError, GhRelease, GhReleases, JsonValue,
    ReleaseQuery,
};
use serde_json::Value;

fn json_value(v: &Value) -> JsonValue {
    match v {
        Value::Null => JsonValue::Null,
        Value::Bool(b) => JsonValue::Bool(*b),
        Value::Number(n) => JsonValue::Number(n.to_string()),
        Value::String(s) => JsonValue::Str(s.clone()),
        Value::Array(a) => JsonValue::Array(a.iter().map(json_value).collect()),
        Value::Object(m) => JsonValue::Object(m.iter().map(|(k, x)| (k.clone(), json_value(x))).collect()),
    }
}

fn parse(text: &str) -> JsonValue {
    json_value(&serde_json::from_str::<Value>(text).unwrap())
}

const COMPANION_RELEASES_JSON: &str = r#"[
  {"tag_name": "v1.3.0.0", "draft": false, "author": {"login": "luskaner"},
   "assets": [{"name": "ageLANServerLauncherCompanion_Age2FakeOnline_1.1.0.0.zip", "size": 1,
     "browser_download_url": "https://github.com/luskaner/ageLANServerLauncherCompanion/releases/download/v1.3.0.0/ageLANServerLauncherCompanion_Age2FakeOnline_1.1.0.0.zip"}]},
  {"tag_name": "v1.2.1.0", "draft": false,
   "assets": [{"name": "ageLANServerLauncherCompanion_Age2FakeOnline_1.0.0.0.zip", "size": 2,
     "browser_download_url": "https://github.com/luskaner/ageLANServerLauncherCompanion/releases/download/v1.2.1.0/ageLANServerLauncherCompanion_Age2FakeOnline_1.0.0.0.zip"}]}
]"#;

fn asset(name: &str, url: &str) -> GhAsset {
    GhAsset { name: Some(name.to_string()), browser_download_url: Some(url.to_string()) }
}

fn release(tag: &str, assets: Vec<GhAsset>) -> GhRelease {
    GhRelease { tag_name: Some(tag.to_string()), assets: GhAssets::List(assets) }
}

fn query(repo: &str, version: Option<&str>, search: &[&str]) -> ReleaseQuery {
    ReleaseQuery {
        user: "luskaner".to_string(),
        repo: repo.to_string(),
        version: version.map(|v| v.to_string()),
        search: search.iter().map(|s| s.to_string()).collect(),
    }
}

fn companion_releases() -> GhReleases {
    GhReleases::List(vec![
        release(
            "v1.3.0.0",
            vec![asset(
                "ageLANServerLauncherCompanion_Age2FakeOnline_1.1.0.0.zip",
                "https://github.com/luskaner/ageLANServerLauncherCompanion/releases/download/v1.3.0.0/ageLANServerLauncherCompanion_Age2FakeOnline_1.1.0.0.zip",
            )],
        ),
        release(
            "v1.2.1.0",
            vec![asset(
                "ageLANServerLauncherCompanion_Age2FakeOnline_1.0.0.0.zip",
                "https://github.com/luskaner/ageLANServerLauncherCompanion/releases/download/v1.2.1.0/ageLANServerLauncherCompanion_Age2FakeOnline_1.0.0.0.zip",
            )],
        ),
    ])
}

#[test]
fn load_specific_version() {
    let q = query("ageLANServerLauncherCompanion", Some("v1.2.1.0"), &[]);
    let result = releases_download_url_from_text(COMPANION_RELEASES_JSON, &q).unwrap();
    assert_eq!(
        result.unwrap(),
        "https://github.com/luskaner/ageLANServerLauncherCompanion/releases/download/v1.2.1.0/ageLANServerLauncherCompanion_Age2FakeOnline_1.0.0.0.zip"
    );
}

#[test]
fn test_goldberg_download_url() {
    let releases = GhReleases::List(vec![release(
        "release-2025_01_01",
        vec![
            asset("emu-linux-release.tar.bz2", "https://example.org/linux"),
            asset("emu-win-release.7z", "https://example.org/win"),
        ],
    )]);
    let q = query("gbe_fork", Some("release-2025_01_01"), &["emu-win-release.7z"]);
    let dl_url = select_download_url(&releases, &q).unwrap();
    assert!(dl_url.is_some());
    assert_eq!(dl_url.unwrap(), "https://example.org/win");
}

#[test]
fn latest_release_when_no_version() {
    let q = query("ageLANServerLauncherCompanion", None, &["_Age2"]);
    let url = select_download_url(&companion_releases(), &q).unwrap().unwrap();
    assert!(url.contains("v1.3.0.0"));
}

#[test]
fn version_matches_by_substring() {
    let q = query("x", Some("1.2"), &[]);
    let url = select_download_url(&companion_releases(), &q).unwrap().unwrap();
    assert!(url.contains("v1.2.1.0"));
    let q = query("x", Some("v9"), &[]);
    assert_eq!(select_download_url(&companion_releases(), &q).unwrap(), None);
}

#[test]
fn every_search_piece_must_match() {
    let releases = GhReleases::List(vec![release(
        "v1",
        vec![
            asset("launcher_full_linux_x86-64.tar.gz", "u1"),
            asset("launcher_full_win_x86-32.zip", "u2"),
            asset("launcher_full_win_x86-64.zip", "u3"),
            asset("launcher_full_win_x86-64.zip", "u4"),
        ],
    )]);
    let q = query("r", Some("v1"), &["_full_", "_win", "_x86-64"]);
    assert_eq!(select_download_url(&releases, &q).unwrap().unwrap(), "u3");
    let q = query("r", Some("v1"), &["_full_", "_arm64"]);
    assert_eq!(select_download_url(&releases, &q).unwrap(), None);
}

#[test]
fn assets_without_name_or_url_are_skipped() {
    let releases = GhReleases::List(vec![GhRelease {
        tag_name: Some("v1".to_string()),
        assets: GhAssets::List(vec![
            GhAsset { name: None, browser_download_url: Some("a".to_string()) },
            GhAsset { name: Some("x_full_".to_string()), browser_download_url: None },
            asset("y_full_", "b"),
        ]),
    }]);
    let q = query("r", None, &["_full_"]);
    assert_eq!(select_download_url(&releases, &q).unwrap().unwrap(), "b");
}

#[test]
fn releases_without_tag_never_match_a_version() {
    let releases = GhReleases::List(vec![GhRelease {
        tag_name: None,
        assets: GhAssets::List(vec![asset("a", "u")]),
    }]);
    assert_eq!(select_download_url(&releases, &query("r", Some(""), &[])).unwrap(), None);
    assert_eq!(select_download_url(&releases, &query("r", None, &[])).unwrap().unwrap(), "u");
}

#[test]
fn malformed_answers() {
    let q = query("myrepo", None, &[]);
    let e = select_download_url(&GhReleases::NotArray, &q).err().unwrap();
    assert!(matches!(e, GhError::NotArray));
    assert_eq!(e.message(), "Expected releases json to be an array.");
    let e = select_download_url(&GhReleases::List(vec![]), &q).err().unwrap();
    assert!(matches!(&e, GhError::NoReleases(r) if r == "myrepo"));
    assert_eq!(e.message(), "myrepo has no releases.");
    let missing = GhReleases::List(vec![GhRelease { tag_name: None, assets: GhAssets::Missing }]);
    let e = select_download_url(&missing, &q).err().unwrap();
    assert!(matches!(e, GhError::MissingAssets));
    assert_eq!(e.message(), "Unexpected response from github: expected assets field.");
    let bad = GhReleases::List(vec![GhRelease { tag_name: None, assets: GhAssets::NotArray }]);
    let e = select_download_url(&bad, &q).err().unwrap();
    assert!(matches!(e, GhError::AssetsNotArray));
    assert_eq!(e.message(), "Expected github assets to be an array, but it was not.");
}

#[test]
fn api_address() {
    let q = query("ageLANServer", None, &[]);
    assert_eq!(q.api_url(), "https://api.github.com/repos/luskaner/ageLANServer/releases");
}

#[test]
fn json_answer_shapes() {
    let q = query("repo", None, &["_full_"]);
    let e = releases_download_url_from_text(r#"{"message": "Not Found"}"#, &q).err().unwrap();
    assert!(matches!(e, GhError::NotArray));
    let e = releases_download_url_from_text("[]", &q).err().unwrap();
    assert_eq!(e.message(), "repo has no releases.");
    let e = releases_download_url_from_text(r#"[{"tag_name": "v1"}]"#, &q).err().unwrap();
    assert!(matches!(e, GhError::MissingAssets));
    let e = releases_download_url_from_text(r#"[{"tag_name": "v1", "assets": {}}]"#, &q).err().unwrap();
    assert!(matches!(e, GhError::AssetsNotArray));
    let text = r#"[{"tag_name": 7, "assets": [
        {"name": 1, "browser_download_url": "a"},
        {"name": "x_full_", "browser_download_url": null},
        {"name": "y_full_", "browser_download_url": "u"}]}]"#;
    assert_eq!(releases_download_url_from_text(text, &q).unwrap(), Some("u".to_string()));
    let e = releases_download_url_from_text("[{", &q).err().unwrap();
    assert!(matches!(e, GhError::NotJson(_)));
    assert!(!e.message().is_empty());
    let doc = parse(COMPANION_RELEASES_JSON);
    let vq = query("ageLANServerLauncherCompanion", Some("v1.3"), &[]);
    assert_eq!(
        releases_download_url(&doc, &vq).unwrap(),
        releases_download_url_from_text(COMPANION_RELEASES_JSON, &vq).unwrap()
    );
    let versioned = query("repo", Some("v1"), &[]);
    assert_eq!(releases_download_url_from_text(text, &versioned).unwrap(), None);

    let rel = release_from_json(&parse(r#"{"tag_name": "v2", "assets": [{"name": "n"}]}"#));
    assert_eq!(rel.tag_name.as_deref(), Some("v2"));
    match rel.assets {
        GhAssets::List(v) => {
            assert_eq!(v.len(), 1);
            assert_eq!(v[0].name.as_deref(), Some("n"));
            assert!(v[0].browser_download_url.is_none());
        }
        _ => panic!("assets should be a list"),
    }
    let a = asset_from_json(&parse(r#"[1]"#));
    assert!(a.name.is_none() && a.browser_download_url.is_none());
    assert!(matches!(releases_from_json(&parse("3")), GhReleases::NotArray));
}
