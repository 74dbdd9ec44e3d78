//! Keys of the asset table and the metadata of a game data object.

use vstd::prelude::*;

use crate::hashing::{metro_hash64, metro_hash64_of};
use vstd::string::StringSliceAdditionalSpecFns;

verus! {

/// `namespace` corresponds to one of the namespaces of the data core;
/// `element` to an element in the relevant sub-vector of the namespace. For
/// "singleton" assets like palettes, `element` is always 0.
#[derive(Copy, Clone, Debug, PartialEq, Eq, PartialOrd, Ord)]
pub struct AssetIndex {
    pub namespace: usize,
    pub element: usize,
}

/// Wraps a hash, generated from an asset ID string, used as a key in the
/// asset map. Scripts pass strings like `"namespace:sound_id"`; mixing in the
/// asset domain's string (e.g. "snd") keeps keys of different domains apart.
#[derive(Copy, Clone, Debug, Hash, PartialEq, Eq, PartialOrd, Ord)]
pub struct AssetHash(pub u64);

#[derive(Debug, Clone, Copy, PartialEq, Eq)]
pub enum AssetError {
    HashEmptyString,
    IdMissingPostfix,
    IdNotFound,
    IdClobber,
    NamespaceNotFound,
}

/// The bytes of `b` before the first `c` (all of `b` if there is none).
pub open spec fn before_byte(b: Seq<u8>, c: u8) -> Seq<u8>
    decreases b.len(),
{
    if b.len() == 0 || b[0] == c {
        Seq::empty()
    } else {
        seq![b[0]] + before_byte(b.drop_first(), c)
    }
}

/// Whether `b` holds the byte `c`.
pub open spec fn has_byte(b: Seq<u8>, c: u8) -> bool {
    exists|i: int| 0 <= i < b.len() && b[i] == c
}

/// The hash of an ID pair in a domain: the three hashes combined by XOR.
pub open spec fn pair_hash(namespace: Seq<u8>, domain: Seq<u8>, asset: Seq<u8>) -> u64 {
    metro_hash64_of(namespace) ^ metro_hash64_of(domain) ^ metro_hash64_of(asset)
}

/// The hash of an ID `namespace:asset` (as bytes) in a domain: the pair
/// hash of what stands before the first `:` and what stands between it and
/// the next `:`.
pub open spec fn id_hash(b: Seq<u8>, domain: Seq<u8>) -> u64 {
    let ns = before_byte(b, 0x3Au8);
    let rest = b.subrange(ns.len() as int + 1, b.len() as int);
    pair_hash(ns, domain, before_byte(rest, 0x3Au8))
}

proof fn lemma_before_absent(x: Seq<u8>, c: u8)
    requires
        !has_byte(x, c),
    ensures
        before_byte(x, c) == x,
    decreases x.len(),
{
    if x.len() > 0 {
        assert(!has_byte(x.drop_first(), c)) by {
            if has_byte(x.drop_first(), c) {
                let i = choose|i: int| 0 <= i < x.drop_first().len() && x.drop_first()[i] == c;
                assert(x[i + 1] == c);
            }
        }
        lemma_before_absent(x.drop_first(), c);
        assert(x[0] != c);
        assert(seq![x[0]] + x.drop_first() =~= x);
    }
}

proof fn lemma_before_joined(x: Seq<u8>, c: u8, y: Seq<u8>)
    requires
        !has_byte(x, c),
    ensures
        before_byte(x + seq![c] + y, c) == x,
    decreases x.len(),
{
    let j = x + seq![c] + y;
    if x.len() == 0 {
        assert(j[0] == c);
    } else {
        assert(!has_byte(x.drop_first(), c)) by {
            if has_byte(x.drop_first(), c) {
                let i = choose|i: int| 0 <= i < x.drop_first().len() && x.drop_first()[i] == c;
                assert(x[i + 1] == c);
            }
        }
        lemma_before_joined(x.drop_first(), c, y);
        assert(j.drop_first() =~= x.drop_first() + seq![c] + y);
        assert(x[0] != c);
        assert(j[0] == x[0]);
        assert(seq![x[0]] + x.drop_first() =~= x);
    }
}

/// An ID written `namespace:asset`, with no `:` in either part, hashes to
/// the pair hash of its two parts: what `from_id` gives is what
/// `from_id_pair` gives for the parts.
pub proof fn law_id_hash_is_pair_hash(ns: Seq<u8>, asset: Seq<u8>, domain: Seq<u8>)
    requires
        !has_byte(ns, 0x3Au8),
        !has_byte(asset, 0x3Au8),
    ensures
        has_byte(ns + seq![0x3Au8] + asset, 0x3Au8),
        id_hash(ns + seq![0x3Au8] + asset, domain) == pair_hash(ns, domain, asset),
{
    let b = ns + seq![0x3Au8] + asset;
    assert(b[ns.len() as int] == 0x3Au8);
    lemma_before_joined(ns, 0x3Au8, asset);
    assert(b.subrange(ns.len() as int + 1, b.len() as int) =~= asset);
    lemma_before_absent(asset, 0x3Au8);
}

/// Finds the first `c` in `b` from `lo`; the length of `b` if there is none.
fn find_byte(b: &[u8], lo: usize, c: u8) -> (r: usize)
    requires
        lo <= b@.len(),
    ensures
        lo <= r <= b@.len(),
        b@.subrange(lo as int, r as int) == before_byte(b@.subrange(lo as int, b@.len() as int), c),
        r < b@.len() <==> has_byte(b@.subrange(lo as int, b@.len() as int), c),
        r < b@.len() ==> b@[r as int] == c,
{
    let mut k = lo;
    while k < b.len() && b[k] != c
        invariant
            lo <= k <= b@.len(),
            before_byte(b@.subrange(lo as int, b@.len() as int), c) == b@.subrange(lo as int, k as int)
                + before_byte(b@.subrange(k as int, b@.len() as int), c),
            forall|i: int| lo <= i < k ==> b@[i] != c,
        decreases b@.len() - k,
    {
        let ghost rest = b@.subrange(k as int, b@.len() as int);
        assert(rest.drop_first() =~= b@.subrange(k + 1, b@.len() as int));
        assert(b@.subrange(lo as int, k + 1) =~= b@.subrange(lo as int, k as int) + seq![b@[k as int]]);
        k = k + 1;
    }
    let ghost whole = b@.subrange(lo as int, b@.len() as int);
    if k < b.len() {
        assert(whole[k - lo] == c);
    } else {
        assert(b@.subrange(k as int, b@.len() as int).len() == 0);
        assert forall|i: int| 0 <= i < whole.len() implies whole[i] != c by {
            assert(whole[i] == b@[lo + i]);
        }
    }
    assert(b@.subrange(lo as int, k as int) + Seq::<u8>::empty() =~= b@.subrange(lo as int, k as int));
    k
}

fn copy_range(b: &[u8], lo: usize, hi: usize) -> (r: Vec<u8>)
    requires
        lo <= hi <= b@.len(),
    ensures
        r@ == b@.subrange(lo as int, hi as int),
{
    let mut v: Vec<u8> = Vec::new();
    let mut k = lo;
    while k < hi
        invariant
            lo <= k <= hi <= b@.len(),
            v@ == b@.subrange(lo as int, k as int),
        decreases hi - k,
    {
        v.push(b[k]);
        assert(b@.subrange(lo as int, k + 1) =~= b@.subrange(lo as int, k as int).push(b@[k as int]));
        k = k + 1;
    }
    v
}

impl AssetHash {
    /// The hash of a namespace ID and an asset ID in the domain `domain`.
    pub fn from_id_pair(namespace_id: &str, domain: &str, asset_id: &str) -> (r: AssetHash)
        ensures
            r.0 == pair_hash(namespace_id.spec_bytes(), domain.spec_bytes(), asset_id.spec_bytes()),
    {
        let mut ret = metro_hash64(namespace_id.as_bytes());
        ret = ret ^ metro_hash64(domain.as_bytes());
        ret = ret ^ metro_hash64(asset_id.as_bytes());
        AssetHash(ret)
    }

    /// The hash of an ID of the form `namespace:asset` in the domain
    /// `domain`. Whatever follows a second `:` is ignored.
    pub fn from_id(string: &str, domain: &str) -> (r: Result<AssetHash, AssetError>)
        ensures
            !has_byte(string.spec_bytes(), 0x3Au8) <==> r == Err::<AssetHash, AssetError>(AssetError::IdMissingPostfix),
            r is Ok ==> r->Ok_0.0 == id_hash(string.spec_bytes(), domain.spec_bytes()),
    {
        let b = string.as_bytes();
        let colon = find_byte(b, 0, 0x3A);
        assert(b@.subrange(0, b@.len() as int) =~= b@);
        if colon == b.len() {
            return Err(AssetError::IdMissingPostfix);
        }
        let second = find_byte(b, colon + 1, 0x3A);
        let ns = copy_range(b, 0, colon);
        let aid = copy_range(b, colon + 1, second);
        let mut ret = metro_hash64(ns.as_slice());
        ret = ret ^ metro_hash64(domain.as_bytes());
        ret = ret ^ metro_hash64(aid.as_slice());
        Ok(AssetHash(ret))
    }
}

/// Determines the system used for loading assets from a mounted game data object.
#[derive(Debug, Clone, PartialEq, Eq)]
pub enum GameDataKind {
    /// The file is read to determine what kind of assets are in it, and
    /// loading is handled accordingly.
    File,
    /// Every file in this WAD is loaded into an asset based on the kind of file it is.
    Wad,
    /// Assets are loaded from this archive or directory based on the manifest
    /// specified by the meta.toml file.
    Impure { manifest: String },
    /// Assets are loaded based on the ZDoom sub-directory namespacing system.
    ZDoom,
    /// Assets are loaded based on the Eternity Engine sub-directory namespacing system.
    Eternity,
}

impl Default for GameDataKind {
    /// A manifest-driven kind with an empty manifest path.
    fn default() -> (r: Self)
        ensures
            r matches GameDataKind::Impure { manifest } && manifest@.len() == 0,
    {
        GameDataKind::Impure { manifest: String::new() }
    }
}

/// Note that all user-facing string fields within may be IDs or expanded.
#[derive(Debug, Clone)]
pub struct Metadata {
    pub uuid: String,
    pub kind: GameDataKind,
    pub version: String,
    /// Display name presented to users.
    pub name: String,
    pub description: String,
    pub authors: Vec<String>,
    pub copyright: String,
    /// Allows a package to link to its forum post, homepage, and so on.
    pub links: Vec<String>,
}

impl Metadata {
    /// Metadata with the given ID, version and kind, and nothing else.
    pub fn new(uuid: String, version: String, kind: GameDataKind) -> (r: Metadata)
        ensures
            r.uuid == uuid,
            r.version == version,
            r.kind == kind,
            r.name@.len() == 0,
            r.description@.len() == 0,
            r.authors@.len() == 0,
            r.copyright@.len() == 0,
            r.links@.len() == 0,
    {
        Metadata {
            uuid,
            version,
            kind,
            name: String::new(),
            description: String::new(),
            authors: Vec::new(),
            copyright: String::new(),
            links: Vec::new(),
        }
    }
}

/// Allows game data objects to define high-level, all-encompassing
/// information relevant to making games as opposed to mods.
#[derive(Debug, Clone)]
pub struct GameInfo {
    pub steam_app_id: Option<u32>,
    pub discord_app_id: Option<String>,
}

} // verus!
