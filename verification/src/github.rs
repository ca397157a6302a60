//! Picking a download from a project's GitHub releases.
//!
//! The list of releases arrives as JSON; what the lookup reads of it is held
//! in the types below: for each release its tag name and its assets, for
//! each asset its name and download address. A field that is absent or is
//! not a string is held as `None`.

use vstd::prelude::*;
use crate::text::{seq_contains, str_contains, str_equal, views};
use serde_json::Value;

verus! {

/// One downloadable file of a release.
pub struct GhAsset {
    pub name: Option<String>,
    pub browser_download_url: Option<String>,
}

/// The `assets` field of a release.
pub enum GhAssets {
    /// The release has no `assets` field.
    Missing,
    /// The field is there but is not an array.
    NotArray,
    List(Vec<GhAsset>),
}

/// One release.
pub struct GhRelease {
    pub tag_name: Option<String>,
    pub assets: GhAssets,
}

/// The whole answer of the releases endpoint.
pub enum GhReleases {
    /// The answer is not an array.
    NotArray,
    List(Vec<GhRelease>),
}

/// What to look for: whose releases, which version (any when `None`),
/// and the pieces that the asset's name must all contain.
pub struct ReleaseQuery {
    pub user: String,
    pub repo: String,
    pub version: Option<String>,
    pub search: Vec<String>,
}

/// Why the releases could not be read.
#[derive(Debug)]
pub enum GhError {
    /// The answer is not an array.
    NotArray,
    /// The project (named) has no releases.
    NoReleases(String),
    /// The chosen release has no `assets` field.
    MissingAssets,
    /// The chosen release's `assets` field is not an array.
    AssetsNotArray,
    /// The answer is not JSON; the JSON reader's message.
    NotJson(String),
}

/// The outcome of a lookup, as a value of the specification.
pub enum Lookup {
    NotArray,
    NoReleases,
    MissingAssets,
    AssetsNotArray,
    NotJson,
    /// The download address of the first fitting asset, if there is one.
    Found(Option<Seq<char>>),
}

/// What the lookup reads of an asset: its name and its download address.
pub type AssetView = (Option<Seq<char>>, Option<Seq<char>>);

/// What the lookup reads of a release's `assets` field: `None` when it is
/// missing, `Some(None)` when it is not an array, else the assets.
pub type AssetsView = Option<Option<Seq<AssetView>>>;

/// What the lookup reads of a release: its tag name and its assets.
pub type ReleaseView = (Option<Seq<char>>, AssetsView);

/// What the lookup reads of the answer: `None` when it is not an array,
/// else the releases.
pub type ReleasesView = Option<Seq<ReleaseView>>;

pub open spec fn opt_str_view(o: Option<String>) -> Option<Seq<char>> {
    match o {
        Some(s) => Some(s@),
        None => None,
    }
}

pub open spec fn asset_view(a: GhAsset) -> AssetView {
    (opt_str_view(a.name), opt_str_view(a.browser_download_url))
}

pub open spec fn asset_list_view(v: Seq<GhAsset>) -> Seq<AssetView> {
    v.map_values(|a: GhAsset| asset_view(a))
}

pub open spec fn assets_view(a: GhAssets) -> AssetsView {
    match a {
        GhAssets::Missing => None,
        GhAssets::NotArray => Some(None),
        GhAssets::List(v) => Some(Some(asset_list_view(v@))),
    }
}

pub open spec fn release_view(r: GhRelease) -> ReleaseView {
    (opt_str_view(r.tag_name), assets_view(r.assets))
}

pub open spec fn release_list_view(v: Seq<GhRelease>) -> Seq<ReleaseView> {
    v.map_values(|r: GhRelease| release_view(r))
}

pub open spec fn releases_view(r: GhReleases) -> ReleasesView {
    match r {
        GhReleases::NotArray => None,
        GhReleases::List(v) => Some(release_list_view(v@)),
    }
}

/// The asset has a name that contains every search piece, and a download address.
pub open spec fn asset_fits(a: AssetView, search: Seq<Seq<char>>) -> bool {
    &&& a.0 matches Some(n) && forall|k: int|
        0 <= k < search.len() ==> seq_contains(n, #[trigger] search[k])
    &&& a.1 is Some
}

/// The download address of the first asset that fits.
pub open spec fn first_fitting_url(assets: Seq<AssetView>, search: Seq<Seq<char>>) -> Option<
    Seq<char>,
>
    decreases assets.len(),
{
    if assets.len() == 0 {
        None
    } else if asset_fits(assets[0], search) {
        assets[0].1
    } else {
        first_fitting_url(assets.drop_first(), search)
    }
}

/// The release's tag name contains the version.
pub open spec fn tag_fits(r: ReleaseView, version: Seq<char>) -> bool {
    r.0 matches Some(t) && seq_contains(t, version)
}

/// The first release whose tag name contains the version.
pub open spec fn first_release_with(rs: Seq<ReleaseView>, version: Seq<char>) -> Option<ReleaseView>
    decreases rs.len(),
{
    if rs.len() == 0 {
        None
    } else if tag_fits(rs[0], version) {
        Some(rs[0])
    } else {
        first_release_with(rs.drop_first(), version)
    }
}

/// The lookup in the chosen release.
pub open spec fn lookup_in_release(r: ReleaseView, search: Seq<Seq<char>>) -> Lookup {
    match r.1 {
        None => Lookup::MissingAssets,
        Some(None) => Lookup::AssetsNotArray,
        Some(Some(v)) => Lookup::Found(first_fitting_url(v, search)),
    }
}

/// The whole lookup: the answer must be a non-empty array; the release is
/// the first one whose tag name contains the version when a version is
/// asked for (none found: nothing found), else the first release; the
/// download is that of the release's first asset that fits.
pub open spec fn spec_lookup(
    releases: ReleasesView,
    version: Option<Seq<char>>,
    search: Seq<Seq<char>>,
) -> Lookup {
    match releases {
        None => Lookup::NotArray,
        Some(rs) => if rs.len() == 0 {
            Lookup::NoReleases
        } else {
            match version {
                Some(v) => match first_release_with(rs, v) {
                    Some(r) => lookup_in_release(r, search),
                    None => Lookup::Found(None),
                },
                None => lookup_in_release(rs[0], search),
            }
        },
    }
}

/// The outcome that a result of `select_download_url` stands for.
pub open spec fn outcome(r: Result<Option<String>, GhError>) -> Lookup {
    match r {
        Ok(Some(u)) => Lookup::Found(Some(u@)),
        Ok(None) => Lookup::Found(None),
        Err(GhError::NotArray) => Lookup::NotArray,
        Err(GhError::NoReleases(_)) => Lookup::NoReleases,
        Err(GhError::MissingAssets) => Lookup::MissingAssets,
        Err(GhError::AssetsNotArray) => Lookup::AssetsNotArray,
        Err(GhError::NotJson(_)) => Lookup::NotJson,
    }
}

impl ReleaseQuery {
    pub open spec fn spec_version(&self) -> Option<Seq<char>> {
        match self.version {
            Some(v) => Some(v@),
            None => None,
        }
    }

    pub open spec fn spec_search(&self) -> Seq<Seq<char>> {
        views(self.search@)
    }

    /// The address of the project's releases endpoint.
    pub fn api_url(&self) -> (r: String)
        ensures
            r@ == "https://api.github.com/repos/"@ + self.user@ + "/"@ + self.repo@
                + "/releases"@,
    {
        let mut u = String::from_str("https://api.github.com/repos/");
        u.append(self.user.as_str());
        u.append("/");
        u.append(self.repo.as_str());
        u.append("/releases");
        u
    }
}

impl GhError {
    /// The message shown to the user.
    pub fn message(&self) -> (r: String)
        ensures
            self matches GhError::NoReleases(repo) ==> r@ == repo@ + " has no releases."@,
            self is NotArray ==> r@ == "Expected releases json to be an array."@,
            self is MissingAssets ==> r@
                == "Unexpected response from github: expected assets field."@,
            self is AssetsNotArray ==> r@
                == "Expected github assets to be an array, but it was not."@,
            self matches GhError::NotJson(m) ==> r@ == m@,
    {
        match self {
            GhError::NotArray => String::from_str("Expected releases json to be an array."),
            GhError::NoReleases(repo) => {
                let mut m = repo.clone();
                m.append(" has no releases.");
                m
            },
            GhError::MissingAssets => String::from_str(
                "Unexpected response from github: expected assets field.",
            ),
            GhError::AssetsNotArray => String::from_str(
                "Expected github assets to be an array, but it was not.",
            ),
            GhError::NotJson(m) => m.clone(),
        }
    }
}

/// Whether `name` contains every search piece.
fn contains_all(name: &str, search: &Vec<String>) -> (r: bool)
    ensures
        r == forall|k: int|
            0 <= k < search@.len() ==> seq_contains(name@, #[trigger] views(search@)[k]),
{
    let mut k: usize = 0;
    while k < search.len()
        invariant
            k <= search@.len(),
            forall|j: int| 0 <= j < k ==> seq_contains(name@, #[trigger] views(search@)[j]),
        decreases search.len() - k,
    {
        if !str_contains(name, search[k].as_str()) {
            assert(views(search@)[k as int] == search@[k as int]@);
            return false;
        }
        k = k + 1;
    }
    true
}

/// The download address of the first asset that fits the search.
fn find_asset(assets: &Vec<GhAsset>, search: &Vec<String>) -> (r: Option<String>)
    ensures
        opt_str_view(r) == first_fitting_url(asset_list_view(assets@), views(search@)),
{
    let n = assets.len();
    let ghost all = asset_list_view(assets@);
    let mut i: usize = 0;
    assert(all.subrange(0, n as int) =~= all);
    while i < n
        invariant
            n == assets@.len(),
            all == asset_list_view(assets@),
            i <= n,
            first_fitting_url(all.subrange(i as int, n as int), views(search@))
                == first_fitting_url(all, views(search@)),
        decreases n - i,
    {
        let ghost rest = all.subrange(i as int, n as int);
        assert(rest.drop_first() =~= all.subrange(i + 1, n as int));
        assert(rest[0] == asset_view(assets@[i as int]));
        let a = &assets[i];
        match &a.name {
            Some(name) => {
                if contains_all(name.as_str(), search) {
                    match &a.browser_download_url {
                        Some(u) => {
                            return Some(u.clone());
                        },
                        None => {},
                    }
                }
            },
            None => {},
        }
        i = i + 1;
    }
    assert(all.subrange(n as int, n as int).len() == 0);
    None
}

/// The first release whose tag name contains the version.
fn find_release<'a>(rs: &'a Vec<GhRelease>, version: &str) -> (r: Option<&'a GhRelease>)
    ensures
        match r {
            Some(x) => first_release_with(release_list_view(rs@), version@) == Some(release_view(*x)),
            None => first_release_with(release_list_view(rs@), version@) is None,
        },
{
    let n = rs.len();
    let ghost all = release_list_view(rs@);
    let mut i: usize = 0;
    assert(all.subrange(0, n as int) =~= all);
    while i < n
        invariant
            n == rs@.len(),
            all == release_list_view(rs@),
            i <= n,
            first_release_with(all.subrange(i as int, n as int), version@) == first_release_with(
                all,
                version@,
            ),
        decreases n - i,
    {
        let ghost rest = all.subrange(i as int, n as int);
        assert(rest.drop_first() =~= all.subrange(i + 1, n as int));
        assert(rest[0] == release_view(rs@[i as int]));
        match &rs[i].tag_name {
            Some(t) => {
                if str_contains(t.as_str(), version) {
                    return Some(&rs[i]);
                }
            },
            None => {},
        }
        i = i + 1;
    }
    assert(all.subrange(n as int, n as int).len() == 0);
    None
}

fn lookup_release(r: &GhRelease, search: &Vec<String>) -> (res: Result<Option<String>, GhError>)
    ensures
        outcome(res) == lookup_in_release(release_view(*r), views(search@)),
        !(res is Err && res->Err_0 is NoReleases),
{
    match &r.assets {
        GhAssets::Missing => Err(GhError::MissingAssets),
        GhAssets::NotArray => Err(GhError::AssetsNotArray),
        GhAssets::List(v) => Ok(find_asset(v, search)),
    }
}

/// The download address that the query asks for, read from the answer of
/// the releases endpoint; an error names what the answer lacked.
pub fn select_download_url(releases: &GhReleases, query: &ReleaseQuery) -> (r: Result<
    Option<String>,
    GhError,
>)
    ensures
        outcome(r) == spec_lookup(releases_view(*releases), query.spec_version(), query.spec_search()),
        r matches Err(GhError::NoReleases(repo)) ==> repo@ == query.repo@,
{
    match releases {
        GhReleases::NotArray => Err(GhError::NotArray),
        GhReleases::List(rs) => {
            if rs.len() == 0 {
                return Err(GhError::NoReleases(query.repo.clone()));
            }
            proof {
                assert(release_list_view(rs@)[0] == release_view(rs@[0]));
            }
            match &query.version {
                Some(v) => match find_release(rs, v.as_str()) {
                    Some(r) => lookup_release(r, &query.search),
                    None => Ok(None),
                },
                None => lookup_release(&rs[0], &query.search),
            }
        },
    }
}

/// A JSON document as the releases endpoint answers it. A number is kept as
/// its text; an object's members are kept in order, each name once.
pub enum JsonValue {
    Null,
    Bool(bool),
    Number(String),
    Str(String),
    Array(Vec<JsonValue>),
    Object(Vec<(String, JsonValue)>),
}

/// The value of the first member named `key`.
pub open spec fn spec_member(es: Seq<(String, JsonValue)>, key: Seq<char>) -> Option<JsonValue>
    decreases es.len(),
{
    if es.len() == 0 {
        None
    } else if es[0].0@ == key {
        Some(es[0].1)
    } else {
        spec_member(es.drop_first(), key)
    }
}

/// The member `key` of an object; nothing for any other value.
pub open spec fn spec_json_get(v: JsonValue, key: Seq<char>) -> Option<JsonValue> {
    match v {
        JsonValue::Object(es) => spec_member(es@, key),
        _ => None,
    }
}

/// The member `key` when it is a string.
pub open spec fn spec_json_text(v: JsonValue, key: Seq<char>) -> Option<Seq<char>> {
    match spec_json_get(v, key) {
        Some(JsonValue::Str(s)) => Some(s@),
        _ => None,
    }
}

/// What the lookup reads of an asset in the answer.
pub open spec fn json_asset_view(v: JsonValue) -> AssetView {
    (spec_json_text(v, "name"@), spec_json_text(v, "browser_download_url"@))
}

/// What the lookup reads of a release's `assets` member in the answer.
pub open spec fn json_assets_view(v: JsonValue) -> AssetsView {
    match spec_json_get(v, "assets"@) {
        None => None,
        Some(JsonValue::Array(xs)) => Some(Some(xs@.map_values(|x: JsonValue| json_asset_view(x)))),
        Some(_) => Some(None),
    }
}

/// What the lookup reads of a release in the answer.
pub open spec fn json_release_view(v: JsonValue) -> ReleaseView {
    (spec_json_text(v, "tag_name"@), json_assets_view(v))
}

/// What the lookup reads of the whole answer.
pub open spec fn json_releases_view(v: JsonValue) -> ReleasesView {
    match v {
        JsonValue::Array(xs) => Some(xs@.map_values(|x: JsonValue| json_release_view(x))),
        _ => None,
    }
}

/// The member `key` of an object.
fn json_get<'a>(v: &'a JsonValue, key: &str) -> (r: Option<&'a JsonValue>)
    ensures
        match spec_json_get(*v, key@) {
            Some(x) => r matches Some(y) && *y == x,
            None => r is None,
        },
{
    match v {
        JsonValue::Object(es) => {
            let n = es.len();
            let mut i: usize = 0;
            assert(es@.subrange(0, n as int) =~= es@);
            while i < n
                invariant
                    n == es@.len(),
                    i <= n,
                    spec_member(es@.subrange(i as int, n as int), key@) == spec_member(es@, key@),
                    spec_json_get(*v, key@) == spec_member(es@, key@),
                decreases n - i,
            {
                let ghost rest = es@.subrange(i as int, n as int);
                assert(rest.drop_first() =~= es@.subrange(i + 1, n as int));
                assert(rest[0] == es@[i as int]);
                if str_equal(es[i].0.as_str(), key) {
                    assert(spec_member(rest, key@) == Some(es@[i as int].1));
                    return Some(&es[i].1);
                }
                assert(spec_member(rest, key@) == spec_member(rest.drop_first(), key@));
                i = i + 1;
            }
            assert(es@.subrange(n as int, n as int).len() == 0);
            None
        },
        _ => None,
    }
}

/// The member `key` when it is a string.
fn json_text(v: &JsonValue, key: &str) -> (r: Option<String>)
    ensures
        opt_str_view(r) == spec_json_text(*v, key@),
{
    match json_get(v, key) {
        Some(JsonValue::Str(s)) => Some(s.clone()),
        _ => None,
    }
}

/// An asset as the lookup reads it from the answer.
pub fn asset_from_json(v: &JsonValue) -> (r: GhAsset)
    ensures
        asset_view(r) == json_asset_view(*v),
{
    GhAsset { name: json_text(v, "name"), browser_download_url: json_text(v, "browser_download_url") }
}

/// A release as the lookup reads it from the answer: its tag name, and its
/// `assets` member (missing, not an array, or the list of assets).
pub fn release_from_json(v: &JsonValue) -> (r: GhRelease)
    ensures
        release_view(r) == json_release_view(*v),
        spec_json_get(*v, "assets"@) matches Some(JsonValue::Array(xs)) ==> (r.assets matches GhAssets::List(out)
            && out@.len() == xs@.len() && forall|i: int|
            0 <= i < xs@.len() ==> asset_view(#[trigger] out@[i]) == json_asset_view(xs@[i])),
        spec_json_get(*v, "assets"@) is None ==> r.assets is Missing,
{
    let assets = match json_get(v, "assets") {
        None => GhAssets::Missing,
        Some(JsonValue::Array(xs)) => {
            let mut out: Vec<GhAsset> = Vec::new();
            let mut i: usize = 0;
            while i < xs.len()
                invariant
                    i <= xs@.len(),
                    out@.len() == i,
                    forall|j: int| 0 <= j < i ==> asset_view(#[trigger] out@[j]) == json_asset_view(xs@[j]),
                decreases xs.len() - i,
            {
                out.push(asset_from_json(&xs[i]));
                i = i + 1;
            }
            assert(asset_list_view(out@) =~= xs@.map_values(|x: JsonValue| json_asset_view(x)));
            GhAssets::List(out)
        },
        Some(_) => GhAssets::NotArray,
    };
    GhRelease { tag_name: json_text(v, "tag_name"), assets }
}

/// The releases as the lookup reads them from the answer: not an array, or
/// the list of releases.
pub fn releases_from_json(v: &JsonValue) -> (r: GhReleases)
    ensures
        releases_view(r) == json_releases_view(*v),
        *v matches JsonValue::Array(xs) ==> (r matches GhReleases::List(out) && out@.len() == xs@.len()
            && forall|i: int|
            0 <= i < xs@.len() ==> release_view(#[trigger] out@[i]) == json_release_view(xs@[i])),
        !(*v is Array) ==> r is NotArray,
{
    match v {
        JsonValue::Array(xs) => {
            let mut out: Vec<GhRelease> = Vec::new();
            let mut i: usize = 0;
            while i < xs.len()
                invariant
                    i <= xs@.len(),
                    out@.len() == i,
                    forall|j: int|
                        0 <= j < i ==> release_view(#[trigger] out@[j]) == json_release_view(xs@[j]),
                decreases xs.len() - i,
            {
                out.push(release_from_json(&xs[i]));
                i = i + 1;
            }
            assert(release_list_view(out@) =~= xs@.map_values(|x: JsonValue| json_release_view(x)));
            GhReleases::List(out)
        },
        _ => GhReleases::NotArray,
    }
}

/// The download address that the query asks for, read from the JSON answer
/// of the releases endpoint; an error names what the answer lacked.
pub fn releases_download_url(doc: &JsonValue, query: &ReleaseQuery) -> (r: Result<
    Option<String>,
    GhError,
>)
    ensures
        outcome(r) == spec_lookup(json_releases_view(*doc), query.spec_version(), query.spec_search()),
        r matches Err(GhError::NoReleases(repo)) ==> repo@ == query.repo@,
{
    select_download_url(&releases_from_json(doc), query)
}

/// The document that serde_json reads from `text`, node for node (a number
/// as serde_json writes it back); `None` when `text` is not JSON.
pub uninterp spec fn json_document(text: Seq<char>) -> Option<JsonValue>;

/// Calls `serde_json::from_str` into a `serde_json::Value` and copies it
/// node for node, each member or element read again the same way from its
/// own text; the document is named `json_document`. The error is the
/// crate's message.
#[verifier::external_body]
fn parse_json(text: &str) -> (r: Result<JsonValue, String>)
    ensures
        r is Err <==> json_document(text@) is None,
        r matches Ok(d) ==> json_document(text@) == Some(d),
{
    let v: Value = serde_json::from_str(text).map_err(|e| e.to_string())?;
    let again = |x: &Value| parse_json(&x.to_string()).expect("rereads");
    Ok(match v {
        Value::Null => JsonValue::Null,
        Value::Bool(b) => JsonValue::Bool(b),
        Value::Number(n) => JsonValue::Number(n.to_string()),
        Value::String(s) => JsonValue::Str(s),
        Value::Array(a) => JsonValue::Array(a.iter().map(again).collect()),
        Value::Object(m) => JsonValue::Object(m.iter().map(|(k, x)| (k.clone(), again(x))).collect()),
    })
}

/// The download address that the query asks for, read from the text of the
/// releases endpoint's answer: an error when the text is not JSON, else as
/// `releases_download_url` reads the document.
pub fn releases_download_url_from_text(text: &str, query: &ReleaseQuery) -> (r: Result<
    Option<String>,
    GhError,
>)
    ensures
        json_document(text@) is None ==> r matches Err(GhError::NotJson(_)),
        json_document(text@) matches Some(doc) ==> outcome(r) == spec_lookup(
            json_releases_view(doc),
            query.spec_version(),
            query.spec_search(),
        ),
        r matches Err(GhError::NoReleases(repo)) ==> repo@ == query.repo@,
{
    match parse_json(text) {
        Err(m) => Err(GhError::NotJson(m)),
        Ok(doc) => releases_download_url(&doc, query),
    }
}

/// The releases read from a JSON array keep the array's order: release `i`
/// is read from element `i`; anything but an array is not a list of releases.
pub proof fn lemma_json_releases_in_order(v: JsonValue)
    ensures
        v matches JsonValue::Array(xs) ==> (json_releases_view(v) matches Some(rs) && rs.len()
            == xs@.len() && forall|i: int|
            0 <= i < xs@.len() ==> #[trigger] rs[i] == json_release_view(xs@[i])),
        !(v is Array) ==> json_releases_view(v) is None,
{
}

/// The assets read from a release's JSON `assets` array keep the array's
/// order: asset `i` is read from element `i`.
pub proof fn lemma_json_assets_in_order(v: JsonValue)
    ensures
        spec_json_get(v, "assets"@) matches Some(JsonValue::Array(xs)) ==> (json_assets_view(v) matches Some(
            Some(as_),
        ) && as_.len() == xs@.len() && forall|i: int|
            0 <= i < xs@.len() ==> #[trigger] as_[i] == json_asset_view(xs@[i])),
        spec_json_get(v, "assets"@) is None ==> json_assets_view(v) is None,
{
}

/// The release chosen for a version is the first one in the list whose tag
/// contains the version: its tag contains it and no earlier tag does; none
/// is chosen only when no tag contains it.
pub proof fn lemma_first_release_with(rs: Seq<ReleaseView>, version: Seq<char>)
    ensures
        first_release_with(rs, version) matches Some(r) ==> exists|i: int|
            0 <= i < rs.len() && #[trigger] rs[i] == r && (rs[i].0 matches Some(t) && seq_contains(
                t,
                version,
            )) && forall|j: int|
                0 <= j < i ==> !(#[trigger] rs[j].0 matches Some(t) && seq_contains(t, version)),
        first_release_with(rs, version) is None ==> forall|i: int|
            0 <= i < rs.len() ==> !(#[trigger] rs[i].0 matches Some(t) && seq_contains(t, version)),
    decreases rs.len(),
{
    if rs.len() > 0 {
        let rest = rs.drop_first();
        lemma_first_release_with(rest, version);
        if !tag_fits(rs[0], version) {
            if first_release_with(rs, version) is Some {
                let i = choose|i: int|
                    0 <= i < rest.len() && #[trigger] rest[i] == first_release_with(rs, version)->0
                        && (rest[i].0 matches Some(t) && seq_contains(t, version)) && forall|j: int|
                        0 <= j < i ==> !(#[trigger] rest[j].0 matches Some(t) && seq_contains(
                            t,
                            version,
                        ));
                assert(rs[i + 1] == rest[i]);
                assert forall|j: int| 0 <= j < i + 1 implies !(#[trigger] rs[j].0 matches Some(t)
                    && seq_contains(t, version)) by {
                    if j > 0 {
                        assert(rs[j] == rest[j - 1]);
                    }
                }
            } else {
                assert forall|i: int| 0 <= i < rs.len() implies !(#[trigger] rs[i].0 matches Some(t)
                    && seq_contains(t, version)) by {
                    if i > 0 {
                        assert(rs[i] == rest[i - 1]);
                    }
                }
            }
        } else {
            assert(rs[0] == first_release_with(rs, version)->0);
        }
    }
}

/// A download found is that of an asset whose name contains every search
/// piece, and no asset before it has both such a name and an address.
pub proof fn lemma_found_asset_fits(assets: Seq<AssetView>, search: Seq<Seq<char>>, u: Seq<char>)
    requires
        first_fitting_url(assets, search) == Some(u),
    ensures
        exists|i: int|
            0 <= i < assets.len() && asset_fits(#[trigger] assets[i], search) && assets[i].1 == Some(
                u,
            ) && forall|j: int| 0 <= j < i ==> !asset_fits(#[trigger] assets[j], search),
    decreases assets.len(),
{
    if asset_fits(assets[0], search) {
        assert(asset_fits(assets[0], search) && assets[0].1 == Some(u));
    } else {
        let rest = assets.drop_first();
        lemma_found_asset_fits(rest, search, u);
        let i = choose|i: int|
            0 <= i < rest.len() && asset_fits(#[trigger] rest[i], search) && rest[i].1 == Some(u)
                && forall|j: int| 0 <= j < i ==> !asset_fits(#[trigger] rest[j], search);
        assert(assets[i + 1] == rest[i]);
        assert forall|j: int| 0 <= j < i + 1 implies !asset_fits(#[trigger] assets[j], search) by {
            if j > 0 {
                assert(assets[j] == rest[j - 1]);
            }
        }
    }
}

/// The download found is the address of the first asset that has an
/// address and a name containing every search piece; nothing is found only
/// when no asset has both.
pub proof fn lemma_first_fitting_asset(assets: Seq<AssetView>, search: Seq<Seq<char>>)
    ensures
        first_fitting_url(assets, search) matches Some(u) ==> exists|i: int|
            0 <= i < assets.len() && assets[i].1 == Some(u) && (#[trigger] assets[i].0 matches Some(n)
                && forall|k: int| 0 <= k < search.len() ==> seq_contains(n, #[trigger] search[k]))
                && forall|j: int|
                0 <= j < i ==> !(#[trigger] assets[j].1 is Some && (assets[j].0 matches Some(n)
                    && forall|k: int| 0 <= k < search.len() ==> seq_contains(n, #[trigger] search[k]))),
        first_fitting_url(assets, search) is None ==> forall|i: int|
            0 <= i < assets.len() ==> !(#[trigger] assets[i].1 is Some && (assets[i].0 matches Some(n)
                && forall|k: int| 0 <= k < search.len() ==> seq_contains(n, #[trigger] search[k]))),
{
    match first_fitting_url(assets, search) {
        Some(u) => {
            lemma_found_asset_fits(assets, search, u);
            let i = choose|i: int|
                0 <= i < assets.len() && asset_fits(#[trigger] assets[i], search) && assets[i].1
                    == Some(u) && forall|j: int| 0 <= j < i ==> !asset_fits(#[trigger] assets[j], search);
            assert forall|j: int| 0 <= j < i implies !(#[trigger] assets[j].1 is Some && (assets[j].0 matches Some(n)
                && forall|k: int| 0 <= k < search.len() ==> seq_contains(n, #[trigger] search[k]))) by {
                assert(!asset_fits(assets[j], search));
            }
            assert(asset_fits(assets[i], search));
        },
        None => {
            lemma_not_found_none_fits(assets, search);
            assert forall|i: int| 0 <= i < assets.len() implies !(#[trigger] assets[i].1 is Some && (assets[i].0 matches Some(n)
                && forall|k: int| 0 <= k < search.len() ==> seq_contains(n, #[trigger] search[k]))) by {
                assert(!asset_fits(assets[i], search));
            }
        },
    }
}

/// No download is found only when no asset has both a name containing
/// every search piece and an address.
pub proof fn lemma_not_found_none_fits(assets: Seq<AssetView>, search: Seq<Seq<char>>)
    requires
        first_fitting_url(assets, search) is None,
    ensures
        forall|i: int| 0 <= i < assets.len() ==> !asset_fits(#[trigger] assets[i], search),
    decreases assets.len(),
{
    if assets.len() > 0 {
        lemma_not_found_none_fits(assets.drop_first(), search);
        assert forall|i: int| 0 <= i < assets.len() implies !asset_fits(#[trigger] assets[i], search) by {
            if i > 0 {
                assert(assets[i] == assets.drop_first()[i - 1]);
            }
        }
    }
}

} // verus!
