use viletech::asset::AssetHeader;
use viletech::config::{Config, DEFAULT_BIN_FILE_SIZE, DEFAULT_TEXT_FILE_SIZE, MAX_BIN_FILE_SIZE, MAX_TEXT_FILE_SIZE};
use viletech::game::{AssetError, AssetHash, GameDataKind, Metadata};
use viletech::meta::{GameDataKind as MetaKind, GameDataMeta, MetaToml};

#[test]
fn asset_hashes_xor_three_metro_hashes() {
    let expected = fasthash::metro::hash64("doom2") ^ fasthash::metro::hash64("snd") ^ fasthash::metro::hash64("dspistol");
    assert_eq!(AssetHash::from_id_pair("doom2", "snd", "dspistol").0, expected);
    assert_eq!(AssetHash::from_id("doom2:dspistol", "snd").unwrap().0, expected);
    // Whatever follows a second colon is ignored.
    assert_eq!(AssetHash::from_id("doom2:dspistol:extra", "snd").unwrap().0, expected);
    assert_eq!(AssetHash::from_id("nocolon", "snd"), Err(AssetError::IdMissingPostfix));
    assert_ne!(AssetHash::from_id("a:b", "snd").unwrap(), AssetHash::from_id("a:b", "mus").unwrap());
}

#[test]
fn metadata_starts_empty() {
    let m = Metadata::new("uuid".to_string(), "1.0".to_string(), GameDataKind::Wad);
    assert_eq!(m.uuid, "uuid");
    assert_eq!(m.version, "1.0");
    assert_eq!(m.kind, GameDataKind::Wad);
    assert!(m.name.is_empty() && m.authors.is_empty() && m.links.is_empty());
    assert_eq!(GameDataKind::default(), GameDataKind::Impure { manifest: String::new() });
}

#[test]
fn game_data_meta_from_toml_takes_every_field() {
    let toml = MetaToml {
        id: "pkg".to_string(),
        version: "2".to_string(),
        name: "Pkg".to_string(),
        description: "desc".to_string(),
        authors: vec!["me".to_string()],
        copyright: "(c)".to_string(),
        links: vec![],
        manifest: None,
    };
    let m = GameDataMeta::from_toml(toml, "scripts/main.lua".to_string());
    assert_eq!(m.id, "pkg");
    assert_eq!(m.kind, MetaKind::Impure { manifest: "scripts/main.lua".to_string() });
    assert_eq!(m.authors, vec!["me".to_string()]);
    let n = GameDataMeta::new("x".to_string(), "0".to_string(), MetaKind::Wad { internal: true });
    assert!(n.name.is_empty());
}

#[test]
fn nicknames_are_the_last_path_component() {
    assert_eq!(AssetHeader { id: "DOOM2/MAP01".to_string() }.nickname(), "MAP01");
    assert_eq!(AssetHeader { id: "a/b/c".to_string() }.nickname(), "c");
    assert_eq!(AssetHeader { id: "solo".to_string() }.nickname(), "solo");
    assert_eq!(AssetHeader { id: "ends/".to_string() }.nickname(), "");
}

#[test]
fn size_limits_are_clamped() {
    let c = Config::default();
    assert_eq!(c.bin_size_limit(), DEFAULT_BIN_FILE_SIZE);
    assert_eq!(c.text_size_limit(), DEFAULT_TEXT_FILE_SIZE);
    let c = c.set_bin_size_limit(usize::MAX).set_text_size_limit(10);
    assert_eq!(c.bin_size_limit(), MAX_BIN_FILE_SIZE);
    assert_eq!(c.text_size_limit(), 10);
    let c = c.set_text_size_limit(MAX_TEXT_FILE_SIZE + 1).reserve_mount_point("vt".to_string());
    assert_eq!(c.text_size_limit(), MAX_TEXT_FILE_SIZE);
    assert_eq!(c.reserved_mount_points(), &["vt".to_string()]);
}
