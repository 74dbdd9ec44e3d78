use viletech::picture::{check_picture, decode_picture, picture_is_safe};

fn picture(width: u16, height: u16, columns: &[Vec<u8>]) -> Vec<u8> {
    let mut b = Vec::new();
    b.extend_from_slice(&width.to_le_bytes());
    b.extend_from_slice(&height.to_le_bytes());
    b.extend_from_slice(&3i16.to_le_bytes());
    b.extend_from_slice(&(-5i16).to_le_bytes());
    let mut offs = 8 + 4 * columns.len();
    let mut table = Vec::new();
    for c in columns {
        table.extend_from_slice(&(offs as u32).to_le_bytes());
        offs += c.len();
    }
    b.extend(table);
    for c in columns {
        b.extend_from_slice(c);
    }
    b
}

#[test]
fn a_picture_decodes_its_posts() {
    // Column 0: rows 1..3 painted 10, 11; column 1: row 0 painted 7, row 2 painted 8.
    let cols = vec![vec![1, 2, 0, 10, 11, 0, 255], vec![0, 1, 0, 7, 0, 2, 1, 0, 8, 0, 255]];
    let b = picture(2, 3, &cols);
    assert!(check_picture(&b));
    assert!(picture_is_safe(&b));
    let p = decode_picture(&b).unwrap();
    assert_eq!((p.width, p.height, p.left, p.top), (2, 3, 3, -5));
    assert_eq!(p.columns[0], vec![None, Some(10), Some(11)]);
    assert_eq!(p.columns[1], vec![Some(7), None, Some(8)]);
}

#[test]
fn bad_headers_are_not_pictures() {
    assert!(!check_picture(&[1, 2, 3]));
    let mut b = picture(1, 1, &[vec![255]]);
    b[4..6].copy_from_slice(&2000i16.to_le_bytes());
    assert!(!check_picture(&b));
    assert!(decode_picture(&b).is_none());
    let mut wide = picture(1, 1, &[vec![255]]);
    wide[0..2].copy_from_slice(&4096u16.to_le_bytes());
    assert!(!check_picture(&wide));
}

#[test]
fn posts_running_off_the_picture_are_unsafe() {
    let b = picture(1, 2, &[vec![1, 2, 0, 5, 6, 0, 255]]);
    assert!(check_picture(&b));
    assert!(!picture_is_safe(&b));
    let unterminated = picture(1, 2, &[vec![0, 1, 0, 5, 0]]);
    assert!(!picture_is_safe(&unterminated));
}
