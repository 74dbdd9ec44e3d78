use viletech::palette::{prep_flat, prep_picture, prep_playpal, Palette, Rgba};
use viletech::prep::PrepErrorKind;

fn gray_palette() -> Palette {
    let mut p = Palette::black();
    for i in 0..256 {
        p.0[i] = Rgba([i as u8, i as u8, i as u8, 255]);
    }
    p
}

#[test]
fn black_palette_is_opaque_black() {
    let p = Palette::black();
    assert!(p.0.iter().all(|c| c.0 == [0, 0, 0, 255]));
}

#[test]
fn playpal_reads_fourteen_palettes_of_rgb_triples() {
    let bytes: Vec<u8> = (0..10752u32).map(|i| (i % 256) as u8).collect();
    let ps = prep_playpal("/w/PLAYPAL", &bytes).unwrap();
    assert_eq!(ps.0[0].0[0].0, [0, 1, 2, 255]);
    assert_eq!(ps.0[0].0[255].0, [253, 254, 255, 255]);
    // Palette 1 starts at byte 768.
    assert_eq!(ps.0[1].0[0].0, [0, 1, 2, 255]);
    assert_eq!(ps.0[13].0[2].0, [6, 7, 8, 255]);
}

#[test]
fn short_playpal_is_an_io_error() {
    let err = prep_playpal("/w/PLAYPAL", &[0u8; 10751]).unwrap_err();
    assert_eq!(err.path, "/w/PLAYPAL");
    assert!(matches!(err.kind, PrepErrorKind::Io(_)));
}

#[test]
fn flat_is_colored_row_by_row() {
    let bytes: Vec<u8> = (0..4096u32).map(|i| (i % 64) as u8).collect();
    let img = prep_flat("/w/FLOOR0_1", &bytes, &gray_palette()).unwrap();
    assert_eq!((img.width, img.height), (64, 64));
    assert_eq!(img.pixels.len(), 4096);
    assert_eq!(img.pixels[65].0, [1, 1, 1, 255]);
    let err = prep_flat("/w/FLOOR0_1", &bytes[..100], &gray_palette()).unwrap_err();
    assert_eq!(err.kind, PrepErrorKind::Flat);
    assert_eq!(err.path, "/w/FLOOR0_1");
}

#[test]
fn picture_is_colored_with_transparent_gaps() {
    // A 2 by 3 picture: column 0 paints rows 1..3 with 7 and 9;
    // column 1 paints row 0 with 200.
    let mut b: Vec<u8> = Vec::new();
    b.extend_from_slice(&2u16.to_le_bytes());
    b.extend_from_slice(&3u16.to_le_bytes());
    b.extend_from_slice(&5i16.to_le_bytes());
    b.extend_from_slice(&(-4i16).to_le_bytes());
    b.extend_from_slice(&16u32.to_le_bytes());
    b.extend_from_slice(&23u32.to_le_bytes());
    b.extend_from_slice(&[1, 2, 0, 7, 9, 0, 255]);
    b.extend_from_slice(&[0, 1, 0, 200, 0, 255]);
    let img = prep_picture(&b, &gray_palette()).unwrap();
    assert_eq!((img.width, img.height, img.left, img.top), (2, 3, 5, -4));
    let px: Vec<[u8; 4]> = img.pixels.iter().map(|c| c.0).collect();
    assert_eq!(
        px,
        vec![[0, 0, 0, 0], [200, 200, 200, 255], [7, 7, 7, 255], [0, 0, 0, 0], [9, 9, 9, 255], [0, 0, 0, 0]]
    );
    assert!(prep_picture(&[1, 2, 3], &gray_palette()).is_none());
}
