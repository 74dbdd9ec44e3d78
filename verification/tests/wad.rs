use indexmap::IndexSet;
use viletech::palette::{Palette, PaletteSet, Rgba};
use viletech::prep::PrepErrorKind;
use viletech::vfs::{File, VirtualFs};
use viletech::data::MountKind;
use viletech::prep::PrepError;
use viletech::wad::{
    last_paletteset, post_pass2, prep_pass2_entry, prep_pass3_entry, rollup_errors, Artifacts, Markers, Pass2Work,
    Pass3Outcome, WorkingArtifacts,
};

#[test]
fn pass2_hands_audio_back() {
    let mut arts = WorkingArtifacts::new();
    assert_eq!(prep_pass2_entry(&mut arts, "/w/DSPISTOL", "DSPISTOL", b"OggS"), Pass2Work::DecodeWaveform);
    assert!(arts.errors.is_empty());
}

#[test]
fn pass2_reads_palettes_or_reports_a_short_lump() {
    let mut arts = WorkingArtifacts::new();
    assert_eq!(prep_pass2_entry(&mut arts, "/w/PLAYPAL", "PLAYPAL", &[0u8; 768]), Pass2Work::Done);
    assert!(arts.palset.is_none());
    assert_eq!(arts.errors.len(), 1);
    assert!(matches!(arts.errors[0].kind, PrepErrorKind::Io(_)));
    assert_eq!(arts.errors[0].path, "/w/PLAYPAL");
    let bytes: Vec<u8> = (0..10752u32).map(|i| (i % 251) as u8).collect();
    assert_eq!(prep_pass2_entry(&mut arts, "/w/PLAYPAL", "PLAYPAL", &bytes), Pass2Work::Done);
    let ps = arts.palset.unwrap();
    assert_eq!(ps.0[0].0[1].0, [3, 4, 5, 255]);
    assert_eq!(arts.errors.len(), 1);
}

#[test]
fn pass2_gathers_colormap_endoom_pnames_and_textures() {
    let mut arts = WorkingArtifacts::new();
    assert_eq!(prep_pass2_entry(&mut arts, "/w/COLORMAP", "COLORMAP", &vec![1u8; 8704]), Pass2Work::Done);
    assert!(arts.colormap.is_some());
    assert_eq!(prep_pass2_entry(&mut arts, "/w/ENDOOM", "ENDOOM", &[0u8; 10]), Pass2Work::Done);
    assert!(arts.endoom.is_none());
    assert_eq!(arts.errors.len(), 1);
    assert_eq!(arts.errors[0].kind, PrepErrorKind::EnDoom(10));
    assert_eq!(arts.errors[0].path, "/w/ENDOOM");

    let mut pn = 1u32.to_le_bytes().to_vec();
    pn.extend_from_slice(b"PATCH1\0\0");
    prep_pass2_entry(&mut arts, "/w/PNAMES", "PNAMES", &pn);
    prep_pass2_entry(&mut arts, "/w/PNAMES", "PNAMES", &pn);
    assert_eq!(arts.pnames, vec!["PATCH1".to_string(), "PATCH1".to_string()]);

    let mut tx = 1u32.to_le_bytes().to_vec();
    tx.extend_from_slice(&8i32.to_le_bytes());
    tx.extend_from_slice(b"TEX1\0\0\0\0");
    tx.extend_from_slice(&[0u8; 12]);
    tx.extend_from_slice(&0i16.to_le_bytes());
    prep_pass2_entry(&mut arts, "/w/TEXTURE2", "TEXTURE2", &tx);
    assert_eq!(arts.texturex.len(), 1);
    assert_eq!(arts.texturex[0].name, "TEX1");

    let before = arts.errors.len();
    prep_pass2_entry(&mut arts, "/w/MAP01", "MAP01", &[1, 2, 3]);
    assert_eq!(arts.errors.len(), before);
}

fn wad_dir(vfs: &mut VirtualFs, names: &[&str]) {
    let mut set = IndexSet::new();
    for n in names {
        set.insert(format!("/w/{n}"));
    }
    vfs.insert("/w".to_string(), File::Directory(set));
}

#[test]
fn markers_span_the_entries_between_them() {
    let mut vfs = VirtualFs::default();
    wad_dir(&mut vfs, &["PLAYPAL", "F_START", "FLOOR1", "FLOOR2", "F_END", "S_START", "TROOA1", "S_END"]);
    let m = Markers::new(vfs.get("/w").unwrap());
    assert_eq!(m.flats, Some((2, 4)));
    assert_eq!(m.sprites, Some((6, 7)));
    assert!(m.is_flat(3) && !m.is_flat(4) && !m.is_flat(1));
    assert!(m.is_sprite(6) && !m.is_sprite(7));
    let mut vfs = VirtualFs::default();
    wad_dir(&mut vfs, &["F_START", "MAP01"]);
    let none = Markers::new(vfs.get("/w").unwrap());
    assert_eq!(none.flats, None);
    assert_eq!(none.sprites, None);
    assert!(!none.is_flat(1));
}

#[test]
fn pass3_classifies_entries() {
    let m = Markers { flats: Some((1, 2)), sprites: Some((3, 4)) };
    let mut pal = Palette::black();
    pal.0[9] = Rgba([9, 8, 7, 255]);
    pal.0[42] = Rgba([42, 0, 0, 255]);
    match prep_pass3_entry(&m, 1, "/w/FLOOR1", "FLOOR1", &vec![9u8; 4096], &pal) {
        Pass3Outcome::Flat(img) => {
            assert_eq!(img.pixels.len(), 4096);
            assert_eq!(img.pixels[100].0, [9, 8, 7, 255]);
        }
        other => panic!("unexpected: {other:?}"),
    }
    match prep_pass3_entry(&m, 1, "/w/FLOOR1", "FLOOR1", &[9u8; 10], &pal) {
        Pass3Outcome::Failed(e) => assert_eq!(e.kind, PrepErrorKind::Flat),
        other => panic!("unexpected: {other:?}"),
    }
    match prep_pass3_entry(&m, 3, "/w/TROOA1", "TROOA1", &[1u8; 3], &pal) {
        Pass3Outcome::Failed(e) => assert_eq!(e.kind, PrepErrorKind::Sprite),
        other => panic!("unexpected: {other:?}"),
    }
    assert!(matches!(prep_pass3_entry(&m, 9, "/w/DEMO1", "DEMO1", &[0u8; 3], &pal), Pass3Outcome::Nothing));
    assert!(matches!(prep_pass3_entry(&m, 9, "/w/GENMIDI", "GENMIDI", &[0u8; 3], &pal), Pass3Outcome::Nothing));
    assert!(matches!(prep_pass3_entry(&m, 9, "/w/D_E1M1", "D_E1M1", b"MUS\x1a", &pal), Pass3Outcome::Nothing));

    let mut pic = Vec::new();
    pic.extend_from_slice(&1u16.to_le_bytes());
    pic.extend_from_slice(&1u16.to_le_bytes());
    pic.extend_from_slice(&0i16.to_le_bytes());
    pic.extend_from_slice(&0i16.to_le_bytes());
    pic.extend_from_slice(&12u32.to_le_bytes());
    pic.extend_from_slice(&[0, 1, 0, 42, 0, 255]);
    match prep_pass3_entry(&m, 9, "/w/TITLEPIC", "TITLEPIC", &pic, &pal) {
        Pass3Outcome::Picture(img) => assert_eq!(img.pixels.iter().map(|c| c.0).collect::<Vec<_>>(), vec![[42, 0, 0, 255]]),
        other => panic!("unexpected: {other:?}"),
    }
}

#[test]
fn post_pass2_moves_what_was_gathered() {
    let mut w1 = WorkingArtifacts::new();
    w1.pnames.push("PATCH1".to_string());
    w1.palset = Some(PaletteSet([Palette::black(); 14]));
    w1.errors.push(PrepError { path: "/a".to_string(), kind: PrepErrorKind::PNames });
    let w2 = WorkingArtifacts::new();
    let mut working = vec![w1, w2];
    let mut arts = vec![Artifacts::new(MountKind::Wad), Artifacts::new(MountKind::Misc)];
    post_pass2(&mut working, &mut arts);
    assert_eq!(arts[0].pnames, vec!["PATCH1".to_string()]);
    assert!(arts[0].palset.is_some());
    assert_eq!(arts[0].kind, MountKind::Wad);
    assert!(working[0].pnames.is_empty() && working[0].palset.is_none());
    assert_eq!(working[0].errors.len(), 1);
    assert!(last_paletteset(&arts).is_some());
    assert!(last_paletteset(&arts[1..]).is_none());
    let errs = rollup_errors(working);
    assert_eq!(errs.len(), 2);
    assert_eq!(errs[0][0].path, "/a");
    assert!(errs[1].is_empty());
}
