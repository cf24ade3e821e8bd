//! The bundled web assets (page template, stylesheet, icon, window
//! layout) as an in-memory store. Whoever starts the process loads the
//! asset bytes—from disk or from an embedded bundle—and hands them over
//! once; every lookup afterwards is by name, first match wins.

use vstd::prelude::*;
use vstd::utf8::decode_utf8;
use vstd::utf8::valid_utf8;

verus! {

/// One named asset.
pub struct AssetEntry {
    pub name: String,
    pub data: Vec<u8>,
}

/// The asset set served under `/static/` and used for the page template
/// and the window layout.
pub struct AssetStore {
    pub entries: Vec<AssetEntry>,
}

/// The bytes stored under `path`: the first entry of that name, if any.
pub open spec fn asset_lookup(entries: Seq<AssetEntry>, path: Seq<char>) -> Option<Seq<u8>>
    decreases entries.len(),
{
    if entries.len() == 0 {
        None
    } else if entries[0].name@ == path {
        Some(entries[0].data@)
    } else {
        asset_lookup(entries.drop_first(), path)
    }
}

fn copy_bytes(v: &Vec<u8>) -> (r: Vec<u8>)
    ensures
        r@ == v@,
{
    let n = v.len();
    let mut r: Vec<u8> = Vec::new();
    let mut i: usize = 0;
    while i < n
        invariant
            i <= n,
            n == v@.len(),
            r@ == v@.take(i as int),
        decreases n - i,
    {
        r.push(v[i]);
        proof {
            assert(r@ =~= v@.take(i + 1));
        }
        i = i + 1;
    }
    proof {
        assert(v@.take(n as int) =~= v@);
    }
    r
}

/// Relies on `String::from_utf8`: it succeeds exactly on valid UTF-8 and
/// yields the decoded characters.
#[verifier::external_body]
fn bytes_to_string(bytes: Vec<u8>) -> (r: Option<String>)
    ensures
        r is Some <==> valid_utf8(bytes@),
        r matches Some(t) ==> t@ == decode_utf8(bytes@),
{
    String::from_utf8(bytes).ok()
}

impl AssetStore {
    /// An empty store.
    pub fn new() -> (store: AssetStore)
        ensures
            store.entries@ == Seq::<AssetEntry>::empty(),
    {
        AssetStore { entries: Vec::new() }
    }

    /// Registers one asset behind the already registered ones.
    pub fn add(&mut self, name: String, data: Vec<u8>)
        ensures
            final(self).entries@ == old(self).entries@.push((AssetEntry { name, data })),
    {
        self.entries.push(AssetEntry { name, data });
    }
}

/// The raw bytes of the asset stored under `path`, if any.
pub fn get_file(store: &AssetStore, path: &str) -> (r: Option<Vec<u8>>)
    ensures
        r is Some <==> asset_lookup(store.entries@, path@) is Some,
        r matches Some(v) ==> asset_lookup(store.entries@, path@) == Some(v@),
{
    let n = store.entries.len();
    let mut i: usize = 0;
    proof {
        assert(store.entries@.skip(0) =~= store.entries@);
    }
    while i < n
        invariant
            i <= n,
            n == store.entries@.len(),
            asset_lookup(store.entries@.skip(i as int), path@) == asset_lookup(
                store.entries@,
                path@,
            ),
        decreases n - i,
    {
        proof {
            assert(store.entries@.skip(i as int)[0] == store.entries@[i as int]);
            assert(store.entries@.skip(i as int).drop_first() =~= store.entries@.skip(i + 1));
        }
        if crate::text::str_eq(store.entries[i].name.as_str(), path) {
            return Some(copy_bytes(&store.entries[i].data));
        }
        i = i + 1;
    }
    None
}

/// Looks `path` up under the `Web/` prefix, as the routes do.
pub fn get_web_file(store: &AssetStore, path: &str) -> (r: Option<Vec<u8>>)
    ensures
        r is Some <==> asset_lookup(store.entries@, "Web/"@ + path@) is Some,
        r matches Some(v) ==> asset_lookup(store.entries@, "Web/"@ + path@) == Some(v@),
{
    let mut full = String::from_str("Web/");
    full.append(path);
    get_file(store, full.as_str())
}

/// The asset under `path` decoded as text: present exactly when the
/// asset exists and is valid UTF-8.
pub fn get_string(store: &AssetStore, path: &str) -> (r: Option<String>)
    ensures
        r is Some <==> (asset_lookup(store.entries@, path@) matches Some(b) && valid_utf8(b)),
        r matches Some(t) ==> t@ == decode_utf8(asset_lookup(store.entries@, path@).unwrap()),
{
    match get_file(store, path) {
        Some(bytes) => bytes_to_string(bytes),
        None => None,
    }
}

/// The asset under `Web/path` decoded as text.
pub fn get_web_string(store: &AssetStore, path: &str) -> (r: Option<String>)
    ensures
        r is Some <==> (asset_lookup(store.entries@, "Web/"@ + path@) matches Some(b) && valid_utf8(
            b,
        )),
        r matches Some(t) ==> t@ == decode_utf8(
            asset_lookup(store.entries@, "Web/"@ + path@).unwrap(),
        ),
{
    let mut full = String::from_str("Web/");
    full.append(path);
    get_string(store, full.as_str())
}

/// A static asset ready to serve: the path a peer asked for and the
/// bytes found for it.
pub struct WebFile {
    pub path: String,
    pub content: Vec<u8>,
}

impl WebFile {
    /// Builds the response value for `path`, when the asset exists.
    pub fn new(path: String, store: &AssetStore) -> (r: Option<WebFile>)
        ensures
            r is Some <==> asset_lookup(store.entries@, "Web/"@ + path@) is Some,
            r matches Some(w) ==> w.path == path && asset_lookup(store.entries@, "Web/"@ + path@)
                == Some(w.content@),
    {
        match get_web_file(store, path.as_str()) {
            Some(content) => Some(WebFile { path, content }),
            None => None,
        }
    }
}

/// The static-asset route: resolves the requested path against the
/// store; an absent asset is `None`, to become a not-found response.
pub fn handle_static(file: &str, store: &AssetStore) -> (r: Option<WebFile>)
    ensures
        r is Some <==> asset_lookup(store.entries@, "Web/"@ + file@) is Some,
        r matches Some(w) ==> w.path@ == file@ && asset_lookup(store.entries@, "Web/"@ + file@)
            == Some(w.content@),
{
    WebFile::new(file.to_owned(), store)
}

} // verus!
