//! The Doom picture format: a header, a table of column offsets, and for
//! each column a run of posts, each painting a vertical span of palette
//! indices. See <https://doomwiki.org/wiki/Picture_format>.
//!
//! Decoding gives, for each column, the palette index of each pixel, or
//! nothing where no post paints it; mapping indices to colors is left to the
//! caller, who has the palette.

use vstd::prelude::*;

use crate::lump::{le_i16, le_u16, le_u32};
use crate::vanilla::byteorder_u32;

verus! {

pub open spec fn pic_width(b: Seq<u8>) -> int {
    le_u16(b, 0) as int
}

pub open spec fn pic_height(b: Seq<u8>) -> int {
    le_u16(b, 2) as int
}

/// Where column `k`'s posts start, as the column table says.
pub open spec fn col_offset(b: Seq<u8>, k: int) -> int {
    le_u32(b, 8 + 4 * k) as int
}

/// The size of a column that uses space as badly as the format allows
/// (stripes of one pixel, one pixel apart).
pub open spec fn max_col_size(h: int) -> int {
    4 + 5 * ((h + 2 + h % 2) / 2) + 1
}

/// Whether the header is sane: dimensions below 4096, offsets strictly
/// between -2000 and 2000, and room for the column table.
pub open spec fn header_ok(b: Seq<u8>) -> bool {
    &&& b.len() >= 8
    &&& pic_width(b) < 4096
    &&& pic_height(b) < 4096
    &&& -2000 < le_i16(b, 4) < 2000
    &&& -2000 < le_i16(b, 6) < 2000
    &&& b.len() >= 8 + 4 * pic_width(b)
}

/// Whether `bytes` passes for a picture: a sane header, column offsets
/// within the data, and a size no picture of its dimensions could exceed.
pub open spec fn is_picture(b: Seq<u8>) -> bool {
    &&& header_ok(b)
    &&& forall|k: int| 0 <= k < pic_width(b) ==> 8 <= #[trigger] col_offset(b, k) <= b.len()
    &&& (pic_width(b) == 0 || b.len() <= 8 + pic_width(b) * max_col_size(pic_height(b)))
}

/// Whether the posts from `pos` can be read: each lies wholly in the data
/// and paints only rows below `h`, and a terminating 255 is reached.
pub open spec fn posts_ok(b: Seq<u8>, pos: int, h: int) -> bool
    decreases b.len() - pos,
{
    if pos < 0 || pos >= b.len() {
        false
    } else if b[pos] == 255 {
        true
    } else if pos + 1 >= b.len() {
        false
    } else {
        let n = b[pos + 1] as int;
        &&& pos + 3 + n < b.len()
        &&& (n == 0 || b[pos] + n <= h)
        &&& posts_ok(b, pos + 4 + n, h)
    }
}

/// Whether decoding `b` never runs off the data or off the picture.
pub open spec fn picture_safe(b: Seq<u8>) -> bool {
    is_picture(b) ==> forall|k: int| 0 <= k < pic_width(b) ==> #[trigger] posts_ok(b, col_offset(b, k), pic_height(b))
}

/// `col` with rows `y0 .. y0 + n` painted with the bytes from `s`.
pub open spec fn paint(col: Seq<Option<u8>>, y0: int, b: Seq<u8>, s: int, n: int) -> Seq<Option<u8>> {
    Seq::new(col.len(), |y: int| if y0 <= y < y0 + n { Some(b[s + (y - y0)]) } else { col[y] })
}

/// `col` after the posts from `pos` have painted it.
pub open spec fn column_after(b: Seq<u8>, pos: int, col: Seq<Option<u8>>) -> Seq<Option<u8>>
    decreases b.len() - pos,
{
    if pos < 0 || pos + 1 >= b.len() || b[pos] == 255 || pos + 3 + b[pos + 1] >= b.len() {
        col
    } else {
        let n = b[pos + 1] as int;
        column_after(b, pos + 4 + n, paint(col, b[pos] as int, b, pos + 3, n))
    }
}

/// Column `k` of the picture: the pixels its posts paint, over unpainted ones.
pub open spec fn column(b: Seq<u8>, k: int) -> Seq<Option<u8>> {
    column_after(b, col_offset(b, k), Seq::new(pic_height(b) as nat, |y: int| None))
}

/// A decoded picture: per column, the palette index of each pixel, if painted.
#[derive(Debug, Clone)]
pub struct Picture {
    pub width: u16,
    pub height: u16,
    pub left: i16,
    pub top: i16,
    pub columns: Vec<Vec<Option<u8>>>,
}

fn read_u16_at(b: &[u8], o: usize) -> (r: u16)
    requires
        o + 2 <= b.len(),
    ensures
        r == le_u16(b@, o as int),
{
    crate::lump::read_u16(b, o)
}

/// Whether `bytes` passes for a picture (see [`is_picture`]).
pub fn check_picture(bytes: &[u8]) -> (r: bool)
    ensures
        r == is_picture(bytes@),
{
    let len = bytes.len();
    if len < 8 {
        return false;
    }
    let w = read_u16_at(bytes, 0);
    let h = read_u16_at(bytes, 2);
    let left = crate::lump::read_i16(bytes, 4);
    let top = crate::lump::read_i16(bytes, 6);
    if w >= 4096 || h >= 4096 {
        return false;
    }
    if left <= -2000 || left >= 2000 {
        return false;
    }
    if top <= -2000 || top >= 2000 {
        return false;
    }
    if len < 8 + (w as usize) * 4 {
        return false;
    }
    let num_pixels: usize = ((h + 2 + h % 2) / 2) as usize;
    let max_col: usize = 4 + num_pixels * 5 + 1;
    assert(max_col == max_col_size(h as int));
    assert((w as usize) * max_col <= 4096 * 10250) by (nonlinear_arith)
        requires
            w < 4096,
            max_col <= 10250,
    ;
    let mut k: usize = 0;
    while k < w as usize
        invariant
            len == bytes@.len(),
            header_ok(bytes@),
            w == pic_width(bytes@),
            h == pic_height(bytes@),
            max_col == max_col_size(h as int),
            (w as usize) * max_col <= 4096 * 10250,
            k <= w,
            forall|j: int| 0 <= j < k ==> 8 <= #[trigger] col_offset(bytes@, j) <= len,
            k > 0 ==> len <= 8 + (w as usize) * max_col,
        decreases w - k,
    {
        let off = byteorder_u32(bytes, 8 + 4 * k);
        if off as usize > len || (off as usize) < 8 {
            assert(!(8 <= col_offset(bytes@, k as int) <= len));
            return false;
        }
        if len > 8 + (w as usize) * max_col {
            return false;
        }
        k = k + 1;
    }
    true
}

/// Whether the posts from `pos` can be read without running off the data
/// or painting at or below row `h`.
fn check_posts(bytes: &[u8], pos: usize, h: u16) -> (r: bool)
    ensures
        r == posts_ok(bytes@, pos as int, h as int),
{
    let len = bytes.len();
    let mut p = pos;
    while true
        invariant
            len == bytes@.len(),
            posts_ok(bytes@, pos as int, h as int) == posts_ok(bytes@, p as int, h as int),
        decreases len - p,
    {
        if p >= len {
            return false;
        }
        if bytes[p] == 255 {
            return true;
        }
        if len - p <= 1 {
            return false;
        }
        let n = bytes[p + 1] as usize;
        if len - p <= 3 + n {
            return false;
        }
        if n != 0 && bytes[p] as usize + n > h as usize {
            return false;
        }
        p = p + 4 + n;
    }
    false
}

/// Whether [`decode_picture`] can decode `bytes` without breaking down.
pub fn picture_is_safe(bytes: &[u8]) -> (r: bool)
    ensures
        r == picture_safe(bytes@),
{
    if !check_picture(bytes) {
        return true;
    }
    let w = read_u16_at(bytes, 0);
    let h = read_u16_at(bytes, 2);
    let mut k: usize = 0;
    while k < w as usize
        invariant
            is_picture(bytes@),
            w == pic_width(bytes@),
            h == pic_height(bytes@),
            k <= w,
            forall|j: int| 0 <= j < k ==> #[trigger] posts_ok(bytes@, col_offset(bytes@, j), h as int),
        decreases w - k,
    {
        let off = byteorder_u32(bytes, 8 + 4 * k);
        if !check_posts(bytes, off as usize, h) {
            assert(!posts_ok(bytes@, col_offset(bytes@, k as int), pic_height(bytes@)));
            return false;
        }
        k = k + 1;
    }
    true
}

/// Paints the posts of one column, starting at `pos`.
fn decode_column(bytes: &[u8], pos: usize, h: u16) -> (r: Vec<Option<u8>>)
    requires
        posts_ok(bytes@, pos as int, h as int),
    ensures
        r@ == column_after(bytes@, pos as int, Seq::new(h as nat, |y: int| None)),
{
    let mut col: Vec<Option<u8>> = Vec::new();
    let mut y: usize = 0;
    while y < h as usize
        invariant
            y <= h,
            col@.len() == y,
            forall|i: int| 0 <= i < y ==> col@[i] is None,
        decreases h - y,
    {
        col.push(None);
        y = y + 1;
    }
    assert(col@ =~= Seq::new(h as nat, |y: int| None::<u8>));
    let ghost start = col@;
    let len = bytes.len();
    let mut p = pos;
    while p < len && bytes[p] != 255
        invariant
            len == bytes@.len(),
            col@.len() == h,
            posts_ok(bytes@, p as int, h as int),
            column_after(bytes@, pos as int, start) == column_after(bytes@, p as int, col@),
        decreases len - p,
    {
        let y0 = bytes[p] as usize;
        let n = bytes[p + 1] as usize;
        let ghost before = col@;
        let mut i: usize = 0;
        while i < n
            invariant
                len == bytes@.len(),
                p + 3 + n < len,
                n == bytes@[p + 1],
                y0 == bytes@[p as int],
                n == 0 || y0 + n <= h,
                i <= n,
                col@ == paint(before, y0 as int, bytes@, p + 3, i as int),
                before.len() == h,
            decreases n - i,
        {
            col.set(y0 + i, Some(bytes[p + 3 + i]));
            assert(col@ =~= paint(before, y0 as int, bytes@, p + 3, i + 1));
            i = i + 1;
        }
        p = p + 4 + n;
    }
    col
}

/// Decodes a picture, or gives `None` if `bytes` does not pass for one.
pub fn decode_picture(bytes: &[u8]) -> (r: Option<Picture>)
    requires
        picture_safe(bytes@),
    ensures
        r is Some <==> is_picture(bytes@),
        r matches Some(p) ==> {
            &&& p.width == pic_width(bytes@)
            &&& p.height == pic_height(bytes@)
            &&& p.left == le_i16(bytes@, 4)
            &&& p.top == le_i16(bytes@, 6)
            &&& p.columns@.len() == p.width
            &&& forall|k: int| 0 <= k < p.width ==> (#[trigger] p.columns@[k])@ == column(bytes@, k)
        },
{
    if !check_picture(bytes) {
        return None;
    }
    let w = read_u16_at(bytes, 0);
    let h = read_u16_at(bytes, 2);
    let left = crate::lump::read_i16(bytes, 4);
    let top = crate::lump::read_i16(bytes, 6);
    let mut columns: Vec<Vec<Option<u8>>> = Vec::new();
    let mut k: usize = 0;
    while k < w as usize
        invariant
            is_picture(bytes@),
            picture_safe(bytes@),
            w == pic_width(bytes@),
            h == pic_height(bytes@),
            k <= w,
            columns@.len() == k,
            forall|j: int| 0 <= j < k ==> (#[trigger] columns@[j])@ == column(bytes@, j),
        decreases w - k,
    {
        let off = byteorder_u32(bytes, 8 + 4 * k);
        assert(posts_ok(bytes@, col_offset(bytes@, k as int), h as int));
        columns.push(decode_column(bytes, off as usize, h));
        k = k + 1;
    }
    Some(Picture { width: w, height: h, left, top, columns })
}

} // verus!
