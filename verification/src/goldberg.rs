//! Installing the Steam emulator: which files of its release to take and
//! under which names, the encryption of its loader, and its configuration
//! for each game.

use vstd::prelude::*;
use aes_gcm::aead::{Aead, KeyInit};
use crate::archive::{ArchiveFile, ArchiveFiles};
use crate::config::Config;
use crate::github::ReleaseQuery;
use crate::game::{Game, GameDisc, spec_dll_folder, spec_exe_location, spec_game_name, spec_steam_app_id};
use crate::text::{
    eq_ignore_ascii_case, lowercase, replace_all, replace_str, seq_starts_with, str_eq_ignore_ascii_case,
    str_equal, str_starts_with, to_lowercase, views,
};

verus! {

/// The folder of the output that receives the emulator.
pub const GOLDBERG_SUBDIR: &'static str = "goldberg";

/// The folder of the emulator's release that holds the files taken.
pub open spec fn experimental_dir() -> Seq<char> {
    "release/steamclient_experimental/"@
}

/// The loader's name in the release.
pub open spec fn loader_name() -> Seq<char> {
    "steamclient_loader_x64.exe"@
}

/// The name the loader is written under once encrypted.
pub open spec fn encrypted_loader_name() -> Seq<char> {
    "steamclient_loader_x64.encrypted"@
}

/// The (lower-case) names of the files taken from the release.
pub open spec fn is_goldberg_file(lower: Seq<char>) -> bool {
    ||| lower == "steamclient.dll"@
    ||| lower == "steamclient64.dll"@
    ||| lower == "coldclientloader.ini"@
    ||| lower == loader_name()
}

/// Where a file of the release goes: taken only from the experimental
/// folder (every occurrence of that folder's path is removed from the name)
/// and only when its lower-case name is one of the emulator's files; the
/// loader is encrypted and renamed, any other file keeps its name.
/// `Some((name, encrypt))` for a file taken.
pub open spec fn spec_goldberg_target(path: Seq<char>) -> Option<(Seq<char>, bool)> {
    if !seq_starts_with(path, experimental_dir()) {
        None
    } else {
        let inner_name = replace_all(path, experimental_dir(), Seq::empty());
        spec_goldberg_target_of_lower(inner_name, lowercase(inner_name))
    }
}

/// Where a file of the release goes, from its name inside the experimental
/// folder and the lower-case form of that name: only the emulator's files
/// are taken; the loader is encrypted and renamed, any other file keeps
/// its name.
pub open spec fn spec_goldberg_target_of_lower(inner_name: Seq<char>, lower: Seq<char>) -> Option<
    (Seq<char>, bool),
> {
    if !is_goldberg_file(lower) {
        None
    } else if lower == loader_name() {
        Some((encrypted_loader_name(), true))
    } else {
        Some((inner_name, false))
    }
}

/// A file of the release is taken exactly when its lower-case name is one
/// of `steamclient.dll`, `steamclient64.dll`, `coldclientloader.ini` and
/// `steamclient_loader_x64.exe`; only the last is encrypted, and it is
/// written as `steamclient_loader_x64.encrypted`; the others keep their name.
pub proof fn lemma_goldberg_files_exactly(inner_name: Seq<char>, lower: Seq<char>)
    ensures
        spec_goldberg_target_of_lower(inner_name, lower) is Some <==> (lower == "steamclient.dll"@
            || lower == "steamclient64.dll"@ || lower == "coldclientloader.ini"@ || lower
            == "steamclient_loader_x64.exe"@),
        spec_goldberg_target_of_lower(inner_name, lower) matches Some((n, e)) ==> ((e <==> lower
            == "steamclient_loader_x64.exe"@) && (e ==> n == "steamclient_loader_x64.encrypted"@)
            && (!e ==> n == inner_name)),
{
}

/// Where a file of the emulator's release goes.
pub struct GoldbergTarget {
    /// The name it is written under, below the emulator's folder.
    pub name: String,
    /// Whether it is written encrypted.
    pub encrypt: bool,
}

fn is_goldberg_name(lower: &str) -> (r: bool)
    ensures
        r == is_goldberg_file(lower@),
{
    str_equal(lower, "steamclient.dll") || str_equal(lower, "steamclient64.dll") || str_equal(
        lower,
        "coldclientloader.ini",
    ) || str_equal(lower, "steamclient_loader_x64.exe")
}

/// Where a file of the emulator's release goes, if it is taken.
pub fn goldberg_target(path: &str) -> (r: Option<GoldbergTarget>)
    ensures
        match spec_goldberg_target(path@) {
            Some((n, e)) => r matches Some(t) && t.name@ == n && t.encrypt == e,
            None => r is None,
        },
        r is Some <==> (seq_starts_with(path@, "release/steamclient_experimental/"@) && ({
            let lower = lowercase(replace_all(path@, "release/steamclient_experimental/"@, Seq::empty()));
            lower == "steamclient.dll"@ || lower == "steamclient64.dll"@ || lower
                == "coldclientloader.ini"@ || lower == "steamclient_loader_x64.exe"@
        })),
{
    if !str_starts_with(path, "release/steamclient_experimental/") {
        return None;
    }
    proof {
        reveal_strlit("release/steamclient_experimental/");
        reveal_strlit("");
        assert(""@ =~= Seq::<char>::empty());
    }
    let inner_name = replace_str(path, "release/steamclient_experimental/", "");
    let lower = to_lowercase(inner_name.as_str());
    goldberg_target_of_lower(inner_name, lower.as_str())
}

/// Where a file of the release goes, given its name inside the experimental
/// folder and the lower-case form of that name.
pub fn goldberg_target_of_lower(inner_name: String, lower: &str) -> (r: Option<GoldbergTarget>)
    ensures
        match spec_goldberg_target_of_lower(inner_name@, lower@) {
            Some((n, e)) => r matches Some(t) && t.name@ == n && t.encrypt == e,
            None => r is None,
        },
        r is Some <==> (lower@ == "steamclient.dll"@ || lower@ == "steamclient64.dll"@ || lower@
            == "coldclientloader.ini"@ || lower@ == "steamclient_loader_x64.exe"@),
        r matches Some(t) ==> (t.encrypt <==> lower@ == "steamclient_loader_x64.exe"@),
        r matches Some(t) ==> (t.encrypt ==> t.name@ == "steamclient_loader_x64.encrypted"@),
        r matches Some(t) ==> (!t.encrypt ==> t.name@ == inner_name@),
{
    if !is_goldberg_name(lower) {
        return None;
    }
    if str_equal(lower, "steamclient_loader_x64.exe") {
        Some(GoldbergTarget { name: String::from_str("steamclient_loader_x64.encrypted"), encrypt: true })
    } else {
        Some(GoldbergTarget { name: inner_name, encrypt: false })
    }
}

/// The longest message AES-256-GCM encrypts.
pub const SEAL_MAX: u64 = 0x10_0000_0000;

/// The ciphertext, authentication tag appended, of `plaintext` under
/// AES-256-GCM with the key `key`, an all-zero 96-bit nonce and no
/// associated data.
pub uninterp spec fn aes256_gcm_zero_nonce(key: Seq<u8>, plaintext: Seq<u8>) -> Seq<u8>;

/// Declares the error type of the `aead` encryption.
#[verifier::external_type_specification]
#[verifier::external_body]
pub struct ExAeadError(aes_gcm::Error);

/// Calls `aes_gcm::Aes256Gcm::new` with the first 32 bytes of `key` and
/// `Aead::encrypt` with an all-zero nonce. The crate refuses only messages
/// longer than `SEAL_MAX` bytes, and appends a 16-byte tag to the ciphertext.
#[verifier::external_body]
fn seal_zero_nonce(key: &[u8], plaintext: &[u8]) -> (r: Result<Vec<u8>, aes_gcm::Error>)
    requires
        key@.len() >= 32,
    ensures
        plaintext@.len() <= SEAL_MAX <==> r is Ok,
        r matches Ok(c) ==> c@ == aes256_gcm_zero_nonce(key@.subrange(0, 32), plaintext@),
        r matches Ok(c) ==> c@.len() == plaintext@.len() + 16,
{
    let cipher = aes_gcm::Aes256Gcm::new(aes_gcm::Key::<aes_gcm::Aes256Gcm>::from_slice(&key[..32]));
    cipher.encrypt(aes_gcm::Nonce::from_slice(&[0u8; 12]), plaintext)
}

/// The file of the release is the loader, written encrypted.
pub open spec fn is_sealed(path: Seq<char>) -> bool {
    spec_goldberg_target(path) matches Some((_, true))
}

/// The content a file of the release is written with.
pub open spec fn goldberg_content(key: Seq<u8>, encrypt: bool, content: Seq<u8>) -> Seq<u8> {
    if encrypt {
        aes256_gcm_zero_nonce(key.subrange(0, 32), content)
    } else {
        content
    }
}

/// The files written from the release's files, in order: each file taken,
/// under its new name, with its content (encrypted for the loader).
pub open spec fn goldberg_plan(key: Seq<u8>, files: Seq<ArchiveFile>) -> Seq<(Seq<char>, Seq<u8>)>
    decreases files.len(),
{
    if files.len() == 0 {
        Seq::empty()
    } else {
        let rest = goldberg_plan(key, files.drop_last());
        match spec_goldberg_target(files.last().name@) {
            Some((n, e)) => rest.push((n, goldberg_content(key, e, files.last().content@))),
            None => rest,
        }
    }
}

/// The name and content of each file.
pub open spec fn file_views(v: Seq<ArchiveFile>) -> Seq<(Seq<char>, Seq<u8>)> {
    v.map_values(|f: ArchiveFile| (f.name@, f.content@))
}

/// The files to write into the emulator's folder, from the files of its
/// release, with the loader encrypted under the first 32 bytes of `key`.
pub fn goldberg_files(release: &ArchiveFiles, key: &[u8]) -> (r: Vec<ArchiveFile>)
    requires
        key@.len() >= 32,
        forall|i: int|
            0 <= i < release.file_list().len() && is_sealed(#[trigger] release.file_list()[i].name@)
                ==> release.file_list()[i].content@.len() <= SEAL_MAX,
    ensures
        file_views(r@) == goldberg_plan(key@, release.file_list()),
{
    let n = release.len();
    let mut out: Vec<ArchiveFile> = Vec::new();
    let mut i: usize = 0;
    proof {
        release.lemma_view_is_list();
        assert(release.file_list().take(0) =~= Seq::<ArchiveFile>::empty());
        assert(file_views(out@) =~= Seq::<(Seq<char>, Seq<u8>)>::empty());
    }
    while i < n
        invariant
                n == release.file_list().len(),
            n == release.spec_len(),
            i <= n,
            key@.len() >= 32,
            forall|j: int|
                0 <= j < release.file_list().len() && is_sealed(#[trigger] release.file_list()[j].name@)
                    ==> release.file_list()[j].content@.len() <= SEAL_MAX,
            file_views(out@) == goldberg_plan(key@, release.file_list().take(i as int)),
        decreases n - i,
    {
        let f = release.get_index(i);
        let ghost before = out@;
        proof {
            assert(release.file_list().take(i + 1).drop_last() =~= release.file_list().take(
                i as int,
            ));
            assert(release.file_list().take(i + 1).last() == *f);
        }
        match goldberg_target(f.name.as_str()) {
            Some(t) => {
                if t.encrypt {
                    match seal_zero_nonce(key, f.content.as_slice()) {
                        Ok(c) => {
                            out.push(ArchiveFile { name: t.name, content: c });
                        },
                        Err(_) => {
                            assert(false);
                        },
                    }
                } else {
                    out.push(ArchiveFile { name: t.name, content: f.content.clone() });
                }
                assert(file_views(out@) =~= file_views(before).push(
                    (out@.last().name@, out@.last().content@),
                ));
            },
            None => {},
        }
        i = i + 1;
    }
    assert(release.file_list().take(n as int) =~= release.file_list());
    out
}

/// The files to write into the emulator's folder, as `goldberg_files`
/// gives them; `None` when the loader is too long to encrypt.
pub fn goldberg_files_checked(release: &ArchiveFiles, key: &[u8]) -> (r: Option<Vec<ArchiveFile>>)
    requires
        key@.len() >= 32,
    ensures
        (forall|i: int|
            0 <= i < release.file_list().len() && is_sealed(#[trigger] release.file_list()[i].name@)
                ==> release.file_list()[i].content@.len() <= SEAL_MAX) <==> r is Some,
        r matches Some(v) ==> file_views(v@) == goldberg_plan(key@, release.file_list()),
{
    let n = release.len();
    let mut i: usize = 0;
    proof {
        release.lemma_view_is_list();
    }
    while i < n
        invariant
                n == release.file_list().len(),
            n == release.spec_len(),
            i <= n,
            forall|j: int|
                0 <= j < i && is_sealed(#[trigger] release.file_list()[j].name@)
                    ==> release.file_list()[j].content@.len() <= SEAL_MAX,
        decreases n - i,
    {
        let f = release.get_index(i);
        match goldberg_target(f.name.as_str()) {
            Some(t) => {
                if t.encrypt && f.content.len() as u64 > SEAL_MAX {
                    return None;
                }
            },
            None => {},
        }
        i = i + 1;
    }
    Some(goldberg_files(release, key))
}

/// One key of the emulator's loader configuration.
pub struct IniSetting {
    pub section: String,
    pub key: String,
    pub value: String,
}

/// The keys set in the loader configuration of a game, as
/// `(section, key, value)`: the game's executable one folder up, its Steam
/// id, and its folder of libraries to inject when it has one.
pub open spec fn spec_cold_client_settings(d: GameDisc) -> Seq<(Seq<char>, Seq<char>, Seq<char>)> {
    let base = seq![
        ("SteamClient"@, "Exe"@, "..\\"@ + spec_exe_location(d)),
        ("SteamClient"@, "AppId"@, spec_steam_app_id(d)),
    ];
    match spec_dll_folder(d) {
        Some(f) => base.push(("Injection"@, "DllsToInjectFolder"@, f)),
        None => base,
    }
}

/// The `(section, key, value)` of each setting.
pub open spec fn setting_views(v: Seq<IniSetting>) -> Seq<(Seq<char>, Seq<char>, Seq<char>)> {
    v.map_values(|s: IniSetting| (s.section@, s.key@, s.value@))
}

fn setting(section: &str, key: &str, value: String) -> (r: IniSetting)
    ensures
        r.section@ == section@,
        r.key@ == key@,
        r.value@ == value@,
{
    IniSetting { section: section.to_owned(), key: key.to_owned(), value }
}

/// The keys to set in the loader configuration written for a game.
pub fn cold_client_settings(game: &Game) -> (r: Vec<IniSetting>)
    ensures
        setting_views(r@) == spec_cold_client_settings(game.spec_disc()),
{
    let mut exe = String::from_str("..\\");
    exe.append(game.exe_location());
    let mut v = Vec::new();
    v.push(setting("SteamClient", "Exe", exe));
    v.push(setting("SteamClient", "AppId", game.steam_app_id().to_owned()));
    match game.dll_folder() {
        Some(dlls) => {
            v.push(setting("Injection", "DllsToInjectFolder", dlls.to_owned()));
        },
        None => {},
    }
    assert(setting_views(v@) =~= spec_cold_client_settings(game.spec_disc()));
    v
}

/// The text of an INI file as `ini::Ini` writes it after reading `text`
/// (`Ini::load_from_str`) and setting `key` to `value` in `section`
/// (`with_section(Some(section)).set(key, value)`), lines ended by `\r\n`
/// when `crlf` is set and by `\n` otherwise; `None` when `text` cannot be
/// read as an INI file.
pub uninterp spec fn ini_set_text(
    text: Seq<char>,
    section: Seq<char>,
    key: Seq<char>,
    value: Seq<char>,
    crlf: bool,
) -> Option<Seq<char>>;

/// Calls `ini::Ini::load_from_str`, `SectionSetter::set` and
/// `Ini::write_to_opt` (the crate's default escaping and separator, the line
/// ending chosen by `crlf`); the result is the text written, named
/// `ini_set_text`, or `None` when the text does not parse.
#[verifier::external_body]
fn ini_set(text: &str, section: &str, key: &str, value: &str, crlf: bool) -> (r: Option<String>)
    ensures
        r matches Some(s) ==> ini_set_text(text@, section@, key@, value@, crlf) == Some(s@),
        r is None ==> ini_set_text(text@, section@, key@, value@, crlf) is None,
{
    let mut conf = ini::Ini::load_from_str(text).ok()?;
    conf.with_section(Some(section)).set(key, value);
    let line_separator = if crlf { ini::LineSeparator::CRLF } else { ini::LineSeparator::CR };
    let mut out: Vec<u8> = Vec::new();
    conf.write_to_opt(&mut out, ini::WriteOption { line_separator, ..Default::default() }).ok()?;
    String::from_utf8(out).ok()
}

/// The text without a leading byte-order mark, which the INI crate's file
/// reader skips.
pub open spec fn without_bom(t: Seq<char>) -> Seq<char> {
    if t.len() > 0 && t[0] == '\u{feff}' {
        t.skip(1)
    } else {
        t
    }
}

/// The INI text after setting each of `settings` in turn, the first one
/// first; `None` when a step cannot read the text.
pub open spec fn ini_apply(
    text: Seq<char>,
    settings: Seq<(Seq<char>, Seq<char>, Seq<char>)>,
    crlf: bool,
) -> Option<Seq<char>>
    decreases settings.len(),
{
    if settings.len() == 0 {
        Some(text)
    } else {
        match ini_apply(text, settings.drop_last(), crlf) {
            Some(t) => ini_set_text(
                t,
                settings.last().0,
                settings.last().1,
                settings.last().2,
                crlf,
            ),
            None => None,
        }
    }
}

/// The loader configuration of a game, from the text of the emulator's
/// `ColdClientLoader.ini`: the game's settings (`cold_client_settings`) set
/// one after the other, lines ended by `\r\n` when `crlf` is set. An error
/// when the text cannot be read as an INI file.
pub fn cold_client_ini(text: &str, game: &Game, crlf: bool) -> (r: Result<String, String>)
    ensures
        match ini_apply(without_bom(text@), spec_cold_client_settings(game.spec_disc()), crlf) {
            Some(t) => r matches Ok(s) && s@ == t,
            None => r is Err,
        },
{
    let settings = cold_client_settings(game);
    let n = text.unicode_len();
    let body: &str = if n > 0 && text.get_char(0) == '\u{feff}' {
        text.substring_char(1, n)
    } else {
        text
    };
    proof {
        if n > 0 && text@[0] == '\u{feff}' {
            assert(body@ =~= without_bom(text@));
        }
    }
    let mut current = body.to_owned();
    let mut i: usize = 0;
    while i < settings.len()
        invariant
            i <= settings@.len(),
            setting_views(settings@) == spec_cold_client_settings(game.spec_disc()),
            ini_apply(without_bom(text@), setting_views(settings@).take(i as int), crlf) == Some(
                current@,
            ),
        decreases settings.len() - i,
    {
        let s = &settings[i];
        proof {
            let v = setting_views(settings@);
            assert(v.take(i + 1).drop_last() =~= v.take(i as int));
            assert(v.take(i + 1).last() == (s.section@, s.key@, s.value@));
        }
        match ini_set(current.as_str(), s.section.as_str(), s.key.as_str(), s.value.as_str(), crlf) {
            Some(t) => {
                current = t;
            },
            None => {
                proof {
                    lemma_ini_apply_prefix_fails(
                        without_bom(text@),
                        setting_views(settings@),
                        crlf,
                        i + 1,
                    );
                }
                return Err(String::from_str("Failed to load the loader configuration"));
            },
        }
        i = i + 1;
    }
    proof {
        assert(setting_views(settings@).take(settings@.len() as int) =~= setting_views(settings@));
    }
    Ok(current)
}

proof fn lemma_ini_apply_prefix_fails(
    text: Seq<char>,
    settings: Seq<(Seq<char>, Seq<char>, Seq<char>)>,
    crlf: bool,
    i: int,
)
    requires
        0 <= i <= settings.len(),
        ini_apply(text, settings.take(i), crlf) is None,
    ensures
        ini_apply(text, settings, crlf) is None,
    decreases settings.len() - i,
{
    if i == settings.len() {
        assert(settings.take(i) =~= settings);
    } else {
        assert(settings.take(i + 1).drop_last() =~= settings.take(i));
        lemma_ini_apply_prefix_fails(text, settings, crlf, i + 1);
    }
}

/// The name added to the loader configuration's path for a game: a dot and
/// the game's short name.
pub fn cold_client_suffix(game: &Game) -> (r: String)
    ensures
        r@ == "."@ + spec_game_name(game.spec_disc()),
{
    let mut s = String::from_str(".");
    s.append(game.name());
    s
}

/// Whether a file of the emulator's folder is its loader configuration,
/// the name compared without regard to ASCII case.
pub fn is_cold_client_ini(file_name: &str) -> (r: bool)
    ensures
        r == eq_ignore_ascii_case(file_name@, "coldclientloader.ini"@),
{
    str_eq_ignore_ascii_case(file_name, "coldclientloader.ini")
}

/// Which emulator release to fetch: the configured project and version,
/// its Windows release archive.
pub fn goldberg_release_query(config: &Config) -> (r: ReleaseQuery)
    ensures
        r.user@ == config.goldberg.gh_user@,
        r.repo@ == config.goldberg.gh_repo@,
        r.version matches Some(v) && v@ == config.goldberg.version@,
        views(r.search@) == seq!["emu-win-release.7z"@],
{
    let mut search = Vec::new();
    search.push(String::from_str("emu-win-release.7z"));
    assert(views(search@) =~= seq!["emu-win-release.7z"@]);
    ReleaseQuery {
        user: config.goldberg.gh_user.clone(),
        repo: config.goldberg.gh_repo.clone(),
        version: Some(config.goldberg.version.clone()),
        search,
    }
}

/// The folders made inside the emulator's folder.
pub fn goldberg_subdirs() -> (r: Vec<&'static str>)
    ensures
        r@.map_values(|s: &str| s@) == seq!["dlls"@, "steam_settings"@, "saves"@],
{
    let v = vec!["dlls", "steam_settings", "saves"];
    assert(v@.map_values(|s: &str| s@) =~= seq!["dlls"@, "steam_settings"@, "saves"@]);
    v
}

/// The files of the emulator's game settings, written into its
/// `steam_settings` folder.
pub fn steam_settings_files() -> (r: Vec<&'static str>)
    ensures
        r@.map_values(|s: &str| s@) == seq![
            "supported_languages.txt"@,
            "achievements.json"@,
            "configs.app.ini"@,
            "configs.user.ini"@,
        ],
{
    let v = vec!["supported_languages.txt", "achievements.json", "configs.app.ini", "configs.user.ini"];
    assert(v@.map_values(|s: &str| s@) =~= seq![
        "supported_languages.txt"@,
        "achievements.json"@,
        "configs.app.ini"@,
        "configs.user.ini"@,
    ]);
    v
}

} // verus!
