use viletech::prep::{Outcome, PrepErrorKind};
use viletech::vanilla::{prep_colormap, prep_endoom, prep_pnames, prep_texturex, texturex_is_safe, EnDoom};

#[test]
fn colormap_needs_exactly_8704_bytes() {
    let bytes: Vec<u8> = (0..8704u32).map(|i| (i % 251) as u8).collect();
    let map = prep_colormap("/doom/COLORMAP", &bytes).unwrap();
    assert_eq!(map.0[0][0], 0);
    assert_eq!(map.0[1][0], bytes[256]);
    assert_eq!(map.0[33][255], bytes[8703]);

    let err = prep_colormap("/doom/COLORMAP", &bytes[..100]).err().unwrap();
    assert_eq!(err.path, "/doom/COLORMAP");
    assert_eq!(err.kind, PrepErrorKind::ColorMap(100));
}

#[test]
fn endoom_splits_character_and_color_bytes() {
    let mut bytes = vec![0u8; 4000];
    bytes[0] = b'A';
    bytes[1] = 0x8F;
    bytes[3998] = b'Z';
    bytes[3999] = 0x07;
    let e: EnDoom = prep_endoom("/doom/ENDOOM", &bytes).unwrap();
    assert_eq!(e.colors[0], b'A');
    assert_eq!(e.text[0], 0x8F);
    assert_eq!(e.colors[1999], b'Z');
    assert_eq!(e.text[1999], 0x07);
    assert!(!e.is_blinking(0));

    let mut blink = e.clone();
    blink.colors[5] = 0x81;
    assert!(blink.is_blinking(5));
    assert!(!blink.is_blinking(1999));

    let err = prep_endoom("/doom/ENDOOM", &bytes[..3999]).err().unwrap();
    assert_eq!(err.kind, PrepErrorKind::EnDoom(3999));
}

fn pnames(names: &[&[u8; 8]]) -> Vec<u8> {
    let mut b = (names.len() as u32).to_le_bytes().to_vec();
    for n in names {
        b.extend_from_slice(&n[..]);
    }
    b
}

#[test]
fn pnames_skips_blank_names() {
    let b = pnames(&[b"WALL00_1", b"\0\0\0\0\0\0\0\0", b"DOOR2_4\0"]);
    match prep_pnames("/doom/PNAMES", &b) {
        Outcome::Done(t) => assert_eq!(t.0, vec!["WALL00_1".to_string(), "DOOR2_4".to_string()]),
        other => panic!("unexpected: {other:?}"),
    }
}

#[test]
fn pnames_with_no_records_or_a_bad_size() {
    assert!(matches!(prep_pnames("/p", &[0, 0, 0, 0]), Outcome::Skipped));
    assert!(matches!(prep_pnames("/p", &[0u8; 12]), Outcome::Failed(_)));
    assert!(matches!(prep_pnames("/p", &[0, 0, 0, 0, 1, 2]), Outcome::Failed(_)));
    assert!(matches!(prep_pnames("/p", &[1, 0]), Outcome::Failed(_)));
    let mut b = pnames(&[b"WALL00_1"]);
    b.push(0);
    match prep_pnames("/p", &b) {
        Outcome::Failed(e) => assert_eq!(e.kind, PrepErrorKind::PNames),
        other => panic!("unexpected: {other:?}"),
    }
}

fn texturex_one(patch_count: i16) -> Vec<u8> {
    let mut b = Vec::new();
    b.extend_from_slice(&1u32.to_le_bytes());
    b.extend_from_slice(&8i32.to_le_bytes());
    b.extend_from_slice(b"STARTAN3");
    b.extend_from_slice(&0i32.to_le_bytes());
    b.extend_from_slice(&128i16.to_le_bytes());
    b.extend_from_slice(&64i16.to_le_bytes());
    b.extend_from_slice(&0i32.to_le_bytes());
    b.extend_from_slice(&patch_count.to_le_bytes());
    for p in 0..patch_count.max(0) {
        for v in [p * 16, -4, 7 + p, 1, 0] {
            b.extend_from_slice(&v.to_le_bytes());
        }
    }
    b
}

#[test]
fn texturex_reads_textures_and_patches() {
    let b = texturex_one(2);
    assert!(texturex_is_safe(&b));
    match prep_texturex("/doom/TEXTURE1", &b) {
        Outcome::Done(t) => {
            assert_eq!(t.0.len(), 1);
            let tex = &t.0[0];
            assert_eq!(tex.name, "STARTAN3");
            assert_eq!((tex.width, tex.height), (128, 64));
            assert_eq!(tex.patches.len(), 2);
            assert_eq!((tex.patches[1].origin_x, tex.patches[1].origin_y, tex.patches[1].index), (16, -4, 8));
        }
        other => panic!("unexpected: {other:?}"),
    }
}

#[test]
fn texturex_errors_and_skips() {
    assert!(matches!(prep_texturex("/t", &[1, 0]), Outcome::Failed(_)));
    assert!(matches!(prep_texturex("/t", &[0, 0, 0, 0]), Outcome::Skipped));
    let mut b = texturex_one(2);
    b.truncate(b.len() - 3);
    match prep_texturex("/t", &b) {
        Outcome::Failed(e) => assert_eq!(e.kind, PrepErrorKind::TextureX),
        other => panic!("unexpected: {other:?}"),
    }
}

#[test]
fn texturex_safety_flags_negative_patch_counts_and_short_tables() {
    assert!(!texturex_is_safe(&texturex_one(-1)));
    let mut short = 2u32.to_le_bytes().to_vec();
    short.extend_from_slice(&100i32.to_le_bytes());
    // The first texture lies outside the lump, so reading stops there.
    assert!(texturex_is_safe(&short));
    let mut b = texturex_one(0);
    b[0] = 2;
    // The second offset entry would lie inside the first texture's record;
    // it reads as an offset, which is fine.
    assert!(texturex_is_safe(&b));
}
