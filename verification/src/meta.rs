//! What a game data object says about itself, as read from its `meta.toml`.

use vstd::prelude::*;

verus! {

/// Determines the system used for loading assets from a mounted game data object.
#[derive(Debug, Clone, PartialEq, Eq)]
pub enum GameDataKind {
    /// The file is read to determine what kind of assets are in it, and
    /// loading is handled accordingly.
    File,
    /// Every file in this WAD is loaded into an asset based on the kind of file it is.
    Wad { internal: bool },
    /// Assets are loaded from this archive or directory based on the manifest
    /// specified by the meta.toml file.
    Impure { manifest: String },
    /// Assets are loaded based on the ZDoom sub-directory namespacing system.
    ZDoom,
    /// Assets are loaded based on the Eternity Engine sub-directory namespacing system.
    Eternity,
}

/// The fields of a `meta.toml` file; all but `id` may be left out.
#[derive(Debug, Clone)]
pub struct MetaToml {
    pub id: String,
    pub version: String,
    pub name: String,
    pub description: String,
    pub authors: Vec<String>,
    pub copyright: String,
    pub links: Vec<String>,
    pub manifest: Option<String>,
}

/// Note that all user-facing string fields within may be IDs or expanded.
#[derive(Debug, Clone)]
pub struct GameDataMeta {
    pub id: String,
    pub kind: GameDataKind,
    pub version: String,
    /// Display name presented to users.
    pub name: String,
    pub description: String,
    pub authors: Vec<String>,
    pub copyright: String,
    /// Allows a package to link to its forum post, homepage, and so on.
    pub links: Vec<String>,
}

impl GameDataMeta {
    /// Metadata with the given ID, version and kind, and nothing else.
    pub fn new(id: String, version: String, kind: GameDataKind) -> (r: GameDataMeta)
        ensures
            r.id == id,
            r.version == version,
            r.kind == kind,
            r.name@.len() == 0,
            r.description@.len() == 0,
            r.authors@.len() == 0,
            r.copyright@.len() == 0,
            r.links@.len() == 0,
    {
        GameDataMeta {
            id,
            version,
            kind,
            name: String::new(),
            description: String::new(),
            authors: Vec::new(),
            copyright: String::new(),
            links: Vec::new(),
        }
    }

    /// The metadata a `meta.toml` gives, for a package loaded by the
    /// manifest at `manifest`.
    pub fn from_toml(toml: MetaToml, manifest: String) -> (r: GameDataMeta)
        ensures
            r.id == toml.id,
            r.kind == (GameDataKind::Impure { manifest }),
            r.version == toml.version,
            r.name == toml.name,
            r.description == toml.description,
            r.authors == toml.authors,
            r.copyright == toml.copyright,
            r.links == toml.links,
    {
        GameDataMeta {
            id: toml.id,
            kind: GameDataKind::Impure { manifest },
            version: toml.version,
            name: toml.name,
            description: toml.description,
            authors: toml.authors,
            copyright: toml.copyright,
            links: toml.links,
        }
    }
}

/// Allows game data objects to define high-level, all-encompassing
/// information relevant to making games as opposed to mods.
#[derive(Debug, Clone)]
pub struct GameInfo {
    pub steam_app_id: Option<u32>,
    pub discord_app_id: Option<String>,
}

/// The grammatical gender a user chooses for themselves.
#[derive(Debug, Clone, Copy, PartialEq, Eq)]
pub enum UserGender {
    Female,
    Male,
    Neutral,
    Object,
}

} // verus!
