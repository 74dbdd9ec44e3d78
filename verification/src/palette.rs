//! Palettes, and the coloring of flats and pictures with them.
//! See <https://doomwiki.org/wiki/PLAYPAL> and <https://doomwiki.org/wiki/Flat>.

use vstd::prelude::*;

use crate::lump::{le_i16, le_u16};
use crate::picture::{column, column_after, decode_picture, is_picture, paint, pic_height, pic_width, picture_safe};
use crate::prep::{PrepError, PrepErrorKind};

verus! {

/// A color: red, green, blue and alpha.
#[derive(Debug, Clone, Copy, PartialEq, Eq)]
pub struct Rgba(pub [u8; 4]);

/// The color of entry `j` of palette `i` in the bytes of a PLAYPAL lump.
pub open spec fn playpal_color(b: Seq<u8>, i: int, j: int) -> Seq<u8> {
    seq![b[768 * i + 3 * j], b[768 * i + 3 * j + 1], b[768 * i + 3 * j + 2], 255u8]
}

/// 256 colors, indexed by the bytes of flats and pictures.
#[derive(Debug, Clone, Copy)]
pub struct Palette(pub [Rgba; 256]);

impl Palette {
    /// A sensible default for internal use. All colors are `0 0 0 255`.
    pub fn black() -> (r: Palette)
        ensures
            forall|j: int| 0 <= j < 256 ==> (#[trigger] r.0@[j]).0@ == seq![0u8, 0u8, 0u8, 255u8],
    {
        let r = Palette([Rgba([0, 0, 0, 255]); 256]);
        assert forall|j: int| 0 <= j < 256 implies (#[trigger] r.0@[j]).0@ == seq![0u8, 0u8, 0u8, 255u8] by {
            assert(r.0@[j] == Rgba([0, 0, 0, 255]));
            assert(r.0@[j].0@ =~= seq![0u8, 0u8, 0u8, 255u8]);
        }
        r
    }
}

/// The 14 palettes of a PLAYPAL lump.
#[derive(Debug, Clone, Copy)]
pub struct PaletteSet(pub [Palette; 14]);

/// The size of a full PLAYPAL lump: 14 palettes of 256 colors of 3 bytes.
pub const PLAYPAL_LEN: usize = 10752;

/// Reads the 14 palettes of a PLAYPAL lump at `path`. A lump too short for
/// them is an I/O error: the reads run off its end.
pub fn prep_playpal(path: &str, bytes: &[u8]) -> (r: Result<PaletteSet, PrepError>)
    ensures
        r is Ok <==> bytes@.len() >= PLAYPAL_LEN,
        r matches Ok(ps) ==> forall|i: int, j: int|
            0 <= i < 14 && 0 <= j < 256 ==> (#[trigger] ps.0@[i].0@[j]).0@ == playpal_color(bytes@, i, j),
        r matches Err(e) ==> e.path@ == path@ && e.kind is Io,
{
    if bytes.len() < PLAYPAL_LEN {
        return Err(
            PrepError { path: path.to_owned(), kind: PrepErrorKind::Io("failed to fill whole buffer".to_owned()) },
        );
    }
    let mut palettes = [Palette::black();14];
    let mut i: usize = 0;
    while i < 14
        invariant
            i <= 14,
            bytes@.len() >= PLAYPAL_LEN,
            forall|a: int, c: int|
                0 <= a < i && 0 <= c < 256 ==> (#[trigger] palettes@[a].0@[c]).0@ == playpal_color(bytes@, a, c),
        decreases 14 - i,
    {
        let mut pal = Palette::black();
        let mut j: usize = 0;
        while j < 256
            invariant
                i < 14,
                j <= 256,
                bytes@.len() >= PLAYPAL_LEN,
                forall|c: int| 0 <= c < j ==> (#[trigger] pal.0@[c]).0@ == playpal_color(bytes@, i as int, c),
            decreases 256 - j,
        {
            let o = 768 * i + 3 * j;
            let color = Rgba([bytes[o], bytes[o + 1], bytes[o + 2], 255]);
            assert(color.0@ =~= playpal_color(bytes@, i as int, j as int));
            pal.0[j] = color;
            j = j + 1;
        }
        palettes[i] = pal;
        i = i + 1;
    }
    Ok(PaletteSet(palettes))
}

/// An image in RGBA8, row by row, with the offsets a picture declares.
#[derive(Debug, Clone)]
pub struct Image {
    pub width: u32,
    pub height: u32,
    pub pixels: Vec<Rgba>,
    pub left: i16,
    pub top: i16,
}

/// The color a palette gives a byte.
pub open spec fn color_of(p: Palette, b: u8) -> Rgba {
    p.0@[b as int]
}

/// Whether `img` is the flat `b` colored with `p`: 64 by 64, each pixel the
/// color of its byte.
pub open spec fn flat_image(img: Image, b: Seq<u8>, p: Palette) -> bool {
    &&& img.width == 64 && img.height == 64
    &&& img.left == 0 && img.top == 0
    &&& img.pixels@.len() == 4096
    &&& forall|i: int| 0 <= i < 4096 ==> #[trigger] img.pixels@[i] == color_of(p, b[i])
}

/// Colors the 64 by 64 palette indices of a flat at `path`. Anything but
/// 4096 bytes is not a flat.
pub fn prep_flat(path: &str, bytes: &[u8], palette: &Palette) -> (r: Result<Image, PrepError>)
    ensures
        r is Ok <==> bytes@.len() == 4096,
        r matches Ok(img) ==> flat_image(img, bytes@, *palette),
        r matches Err(e) ==> e.path@ == path@ && e.kind == PrepErrorKind::Flat,
{
    if bytes.len() != 64 * 64 {
        return Err(PrepError { path: path.to_owned(), kind: PrepErrorKind::Flat });
    }
    let mut pixels: Vec<Rgba> = Vec::new();
    for i in 0..4096
        invariant
            bytes@.len() == 4096,
            pixels@.len() == i,
            forall|k: int| 0 <= k < i ==> #[trigger] pixels@[k] == color_of(*palette, bytes@[k]),
    {
        pixels.push(palette.0[bytes[i] as usize]);
    }
    Ok(Image { width: 64, height: 64, pixels, left: 0, top: 0 })
}

/// The color of a picture's pixel: its palette color where a post paints
/// it, transparent black elsewhere.
pub open spec fn pixel_of(p: Palette, px: Option<u8>) -> Rgba {
    match px {
        Some(b) => color_of(p, b),
        None => Rgba([0, 0, 0, 0]),
    }
}

/// Whether `img` is the picture `b` decoded and colored with `p`, row by
/// row.
pub open spec fn picture_image(img: Image, b: Seq<u8>, p: Palette) -> bool {
    &&& img.width == pic_width(b)
    &&& img.height == pic_height(b)
    &&& img.left == le_i16(b, 4)
    &&& img.top == le_i16(b, 6)
    &&& img.pixels@.len() == img.width * img.height
    &&& forall|x: int, y: int|
        0 <= x < img.width && 0 <= y < img.height ==> #[trigger] img.pixels@[y * img.width + x] == pixel_of(
            p,
            column(b, x)[y],
        )
}

proof fn lemma_row_index(w: int, h: int, y: int, x: int)
    requires
        0 <= y < h,
        0 <= x < w,
    ensures
        0 <= y * w + x < h * w,
        (y + 1) * w == y * w + w,
{
    assert(y * w + x < h * w) by (nonlinear_arith)
        requires
            0 <= y < h,
            0 <= x < w,
    ;
    assert(0 <= y * w) by (nonlinear_arith)
        requires
            0 <= y,
            0 <= w,
    ;
    assert((y + 1) * w == y * w + w) by (nonlinear_arith);
}

proof fn lemma_column_len(b: Seq<u8>, pos: int, col: Seq<Option<u8>>)
    ensures
        column_after(b, pos, col).len() == col.len(),
    decreases b.len() - pos,
{
    if !(pos < 0 || pos + 1 >= b.len() || b[pos] == 255 || pos + 3 + b[pos + 1] >= b.len()) {
        let n = b[pos + 1] as int;
        lemma_column_len(b, pos + 4 + n, paint(col, b[pos] as int, b, pos + 3, n));
    }
}

proof fn lemma_next_row(w: int, y: int)
    ensures
        (y + 1) * w == y * w + w,
{
    assert((y + 1) * w == y * w + w) by (nonlinear_arith);
}

/// Decodes a picture and colors it, or gives `None` if `bytes` does not pass
/// for one. Pixels go row by row.
pub fn prep_picture(bytes: &[u8], palette: &Palette) -> (r: Option<Image>)
    requires
        picture_safe(bytes@),
    ensures
        r is Some <==> is_picture(bytes@),
        r matches Some(img) ==> picture_image(img, bytes@, *palette),
{
    let pic = match decode_picture(bytes) {
        Some(p) => p,
        None => return None,
    };
    let w = pic.width as usize;
    let h = pic.height as usize;
    assert forall|k: int| 0 <= k < w implies (#[trigger] column(bytes@, k)).len() == h by {
        lemma_column_len(bytes@, crate::picture::col_offset(bytes@, k), Seq::new(pic_height(bytes@) as nat, |y: int| None));
    }
    let mut pixels: Vec<Rgba> = Vec::new();
    let mut y: usize = 0;
    while y < h
        invariant
            w == pic_width(bytes@),
            h == pic_height(bytes@),
            w < 4096,
            h < 4096,
            pic.columns@.len() == w,
            forall|k: int| 0 <= k < w ==> (#[trigger] pic.columns@[k])@ == column(bytes@, k),
            forall|k: int| 0 <= k < w ==> (#[trigger] column(bytes@, k)).len() == h,
            y <= h,
            pixels@.len() == y * w,
            forall|a: int, c: int|
                0 <= c < y && 0 <= a < w ==> #[trigger] pixels@[c * w + a] == pixel_of(*palette, column(bytes@, a)[c]),
        decreases h - y,
    {
        let mut x: usize = 0;
        while x < w
            invariant
                w == pic_width(bytes@),
                h == pic_height(bytes@),
                w < 4096,
                h < 4096,
                pic.columns@.len() == w,
                forall|k: int| 0 <= k < w ==> (#[trigger] pic.columns@[k])@ == column(bytes@, k),
                forall|k: int| 0 <= k < w ==> (#[trigger] column(bytes@, k)).len() == h,
                y < h,
                x <= w,
                pixels@.len() == y * w + x,
                forall|a: int, c: int|
                    0 <= c < y && 0 <= a < w ==> #[trigger] pixels@[c * w + a] == pixel_of(*palette, column(bytes@, a)[c]),
                forall|a: int| 0 <= a < x ==> #[trigger] pixels@[y * w + a] == pixel_of(*palette, column(bytes@, a)[y as int]),
            decreases w - x,
        {
            proof {
                lemma_row_index(w as int, h as int, y as int, x as int);
            }
            let px = match pic.columns[x][y] {
                Some(b) => palette.0[b as usize],
                None => Rgba([0, 0, 0, 0]),
            };
            let ghost before = pixels@;
            pixels.push(px);
            assert forall|a: int, c: int|
                0 <= c < y && 0 <= a < w implies #[trigger] pixels@[c * w + a] == pixel_of(*palette, column(bytes@, a)[c]) by {
                lemma_row_index(w as int, y as int, c, a);
                assert(pixels@[c * w + a] == before[c * w + a]);
            }
            x = x + 1;
        }
        proof {
            lemma_next_row(w as int, y as int);
        }
        y = y + 1;
    }
    assert(h * w == w * h) by (nonlinear_arith);
    Some(Image { width: pic.width as u32, height: pic.height as u32, pixels, left: pic.left, top: pic.top })
}

} // verus!
