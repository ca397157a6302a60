use aoe_archive::text::{
    chars_of, replace_str, split_slash, str_contains, str_eq_ignore_ascii_case, str_equal,
    str_starts_with,
};

#[test]
fn contains_and_prefix() {
    assert!(str_contains("ageLANServerLauncher_full_win", "_full_"));
    assert!(!str_contains("abc", "abcd"));
    assert!(str_contains("abc", ""));
    assert!(str_contains("abc", "bc"));
    assert!(!str_contains("", "a"));
    assert!(str_starts_with("release/x", "release/"));
    assert!(!str_starts_with("rel", "release/"));
    assert!(str_equal("éa", "éa"));
    assert!(!str_equal("ab", "abc"));
    assert_eq!(chars_of("héllo"), vec!['h', 'é', 'l', 'l', 'o']);
}

#[test]
fn replace_matches_std() {
    let cases = [
        ("aaaa", "aa", "b"),
        ("xSingleAutoSelect = falsey", "SingleAutoSelect = false", "SingleAutoSelect = true"),
        ("no match here", "zzz", "q"),
        ("abcabc", "abc", ""),
        ("ééé", "é", "e"),
        ("", "a", "b"),
    ];
    for (s, p, r) in cases {
        assert_eq!(replace_str(s, p, r), s.replace(p, r));
    }
}

#[test]
fn split_on_slash() {
    assert_eq!(split_slash("a/b/c"), vec!["a", "b", "c"]);
    assert_eq!(split_slash(""), vec![""]);
    assert_eq!(split_slash("dir/"), vec!["dir", ""]);
    assert_eq!(split_slash("/x"), vec!["", "x"]);
    for s in ["server/bin/genCert.exe", "a//b", "plain"] {
        assert_eq!(split_slash(s), s.split('/').collect::<Vec<_>>());
        assert_eq!(split_slash(s).join("/"), s);
    }
}

#[test]
fn ascii_case_and_lowercase() {
    assert!(str_eq_ignore_ascii_case("ColdClientLoader.ini", "coldclientloader.ini"));
    assert!(!str_eq_ignore_ascii_case("ColdClientLoader.in", "coldclientloader.ini"));
    assert!(!str_eq_ignore_ascii_case("É", "é"));
}
