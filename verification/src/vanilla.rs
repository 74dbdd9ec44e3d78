//! Formats shipped with the commercial id Software IWADs: COLORMAP, ENDOOM,
//! PNAMES and TEXTURE1/TEXTURE2.

use vstd::prelude::*;

use crate::lump::{le_i16, le_i32, le_u32, read_id8, spec_id8};
use crate::prep::{Outcome, PrepError, PrepErrorKind};

verus! {

/// `byteorder::LittleEndian::read_u32` on the bytes from `o`: the
/// little-endian value of the four bytes there.
#[verifier::external_body]
pub(crate) fn byteorder_u32(b: &[u8], o: usize) -> (r: u32)
    requires
        o + 4 <= b.len(),
    ensures
        r == le_u32(b@, o as int),
{
    <byteorder::LittleEndian as byteorder::ByteOrder>::read_u32(&b[o..])
}

/// See <https://doomwiki.org/wiki/COLORMAP>: 34 maps of 256 palette indices.
#[derive(Debug, Clone)]
pub struct ColorMap(pub [[u8; 256]; 34]);

impl ColorMap {
    /// A sensible default for internal use. All bytes are zero.
    pub fn black() -> (r: ColorMap)
        ensures
            forall|i: int, j: int| 0 <= i < 34 && 0 <= j < 256 ==> r.0@[i]@[j] == 0,
    {
        ColorMap([[0u8; 256]; 34])
    }
}

/// See <https://doomwiki.org/wiki/ENDOOM>: 2000 characters, each with its color byte.
#[derive(Debug, Clone)]
pub struct EnDoom {
    pub colors: [u8; 2000],
    pub text: [u8; 2000],
}

impl EnDoom {
    /// Whether the character at `index` blinks (the top bit of its color byte).
    pub fn is_blinking(&self, index: usize) -> (r: bool)
        requires
            index < 2000,
        ensures
            r == (self.colors@[index as int] >= 0x80),
    {
        let c = self.colors[index];
        let r = c & 0x80 == 0x80;
        assert(r == (c >= 0x80)) by (bit_vector)
            requires
                r == (c & 0x80 == 0x80),
        ;
        r
    }
}

/// Makes the color map of a COLORMAP lump, which must be exactly 8704 bytes:
/// map `i` is the bytes from `256 * i`.
pub fn prep_colormap(path: &str, bytes: &[u8]) -> (r: Result<ColorMap, PrepError>)
    ensures
        r is Ok <==> bytes@.len() == 8704,
        r matches Ok(m) ==> forall|i: int, j: int|
            0 <= i < 34 && 0 <= j < 256 ==> #[trigger] m.0@[i]@[j] == bytes@[256 * i + j],
        r matches Err(e) ==> e.path@ == path@ && e.kind == PrepErrorKind::ColorMap(bytes@.len() as usize),
{
    if bytes.len() != 34 * 256 {
        return Err(PrepError { path: path.to_owned(), kind: PrepErrorKind::ColorMap(bytes.len()) });
    }
    let mut ret = ColorMap::black();
    let mut i: usize = 0;
    while i < 34
        invariant
            i <= 34,
            bytes@.len() == 8704,
            forall|a: int, b: int| 0 <= a < i && 0 <= b < 256 ==> #[trigger] ret.0@[a]@[b] == bytes@[256 * a + b],
        decreases 34 - i,
    {
        let mut row = [0u8; 256];
        let mut j: usize = 0;
        while j < 256
            invariant
                i < 34,
                j <= 256,
                bytes@.len() == 8704,
                forall|b: int| 0 <= b < j ==> #[trigger] row@[b] == bytes@[256 * i + b],
            decreases 256 - j,
        {
            row[j] = bytes[256 * i + j];
            j = j + 1;
        }
        ret.0[i] = row;
        i = i + 1;
    }
    Ok(ret)
}

/// Makes the end screen of an ENDOOM lump, which must be exactly 4000 bytes
/// of character and color pairs.
pub fn prep_endoom(path: &str, bytes: &[u8]) -> (r: Result<EnDoom, PrepError>)
    ensures
        r is Ok <==> bytes@.len() == 4000,
        r matches Ok(e) ==> forall|i: int|
            0 <= i < 2000 ==> #[trigger] e.colors@[i] == bytes@[2 * i] && e.text@[i] == bytes@[2 * i + 1],
        r matches Err(e) ==> e.path@ == path@ && e.kind == PrepErrorKind::EnDoom(bytes@.len() as usize),
{
    if bytes.len() != 4000 {
        return Err(PrepError { path: path.to_owned(), kind: PrepErrorKind::EnDoom(bytes.len()) });
    }
    let mut ret = EnDoom { colors: [0u8; 2000], text: [0u8; 2000] };
    let mut i: usize = 0;
    while i < 2000
        invariant
            i <= 2000,
            bytes@.len() == 4000,
            forall|j: int| 0 <= j < i ==> ret.colors@[j] == bytes@[2 * j] && ret.text@[j] == bytes@[2 * j + 1],
        decreases 2000 - i,
    {
        ret.colors[i] = bytes[2 * i];
        ret.text[i] = bytes[2 * i + 1];
        i = i + 1;
    }
    Ok(ret)
}

/// See <https://doomwiki.org/wiki/PNAMES>: the names of the patches that
/// textures are made of.
#[derive(Debug, Clone)]
pub struct PatchTable(pub Vec<String>);

/// The names of the first `k` records of a PNAMES lump, leaving out blank ones.
pub open spec fn pnames(b: Seq<u8>, k: int) -> Seq<Seq<char>>
    decreases k,
{
    if k <= 0 {
        Seq::empty()
    } else {
        pnames(b, k - 1) + match spec_id8(b.subrange(4 + 8 * (k - 1), 4 + 8 * k)) {
            Some(s) => seq![s],
            None => Seq::empty(),
        }
    }
}

/// Reads a PNAMES lump: a count, then eight-byte names. A lump that holds
/// exactly its count of names is valid; a valid lump with no names gives
/// `Skipped`, and any other lump an error.
pub fn prep_pnames(path: &str, bytes: &[u8]) -> (r: Outcome<PatchTable, PrepError>)
    ensures
        r is Skipped <==> bytes@.len() == 4 && le_u32(bytes@, 0) == 0,
        r is Failed <==> bytes@.len() < 4 || bytes@.len() != 8 * le_u32(bytes@, 0) + 4,
        r matches Outcome::Failed(e) ==> e.path@ == path@ && e.kind == PrepErrorKind::PNames,
        r matches Outcome::Done(t) ==> t.0@.map_values(|s: String| s@) == pnames(bytes@, le_u32(bytes@, 0) as int),
        !(r is Cancelled),
{
    if bytes.len() < 4 {
        return Outcome::Failed(PrepError { path: path.to_owned(), kind: PrepErrorKind::PNames });
    }
    let n = byteorder_u32(bytes, 0);
    if bytes.len() as u64 != (n as u64) * 8 + 4 {
        return Outcome::Failed(PrepError { path: path.to_owned(), kind: PrepErrorKind::PNames });
    }
    if n == 0 {
        return Outcome::Skipped;
    }
    let mut ret: Vec<String> = Vec::new();
    let mut k: usize = 0;
    while k < n as usize
        invariant
            bytes.len() == 8 * n + 4,
            k <= n,
            ret@.map_values(|s: String| s@) == pnames(bytes@, k as int),
        decreases n - k,
    {
        let o = 4 + 8 * k;
        let raw: [u8; 8] = [
            bytes[o],
            bytes[o + 1],
            bytes[o + 2],
            bytes[o + 3],
            bytes[o + 4],
            bytes[o + 5],
            bytes[o + 6],
            bytes[o + 7],
        ];
        assert(raw@ =~= bytes@.subrange(o as int, o + 8));
        let ghost before = ret@.map_values(|s: String| s@);
        match read_id8(raw) {
            Some(name) => {
                ret.push(name);
                assert(ret@.map_values(|s: String| s@) =~= before.push(spec_id8(raw@)->0));
            },
            None => {},
        }
        assert(ret@.map_values(|s: String| s@) =~= pnames(bytes@, k + 1));
        k = k + 1;
    }
    Outcome::Done(PatchTable(ret))
}

/// `byteorder::LittleEndian::read_i32` on the bytes from `o`: the
/// little-endian two's-complement value of the four bytes there.
#[verifier::external_body]
pub(crate) fn byteorder_i32(b: &[u8], o: usize) -> (r: i32)
    requires
        o + 4 <= b.len(),
    ensures
        r == le_i32(b@, o as int),
{
    <byteorder::LittleEndian as byteorder::ByteOrder>::read_i32(&b[o..])
}

/// `byteorder::LittleEndian::read_i16` on the bytes from `o`: the
/// little-endian two's-complement value of the two bytes there.
#[verifier::external_body]
pub(crate) fn byteorder_i16(b: &[u8], o: usize) -> (r: i16)
    requires
        o + 2 <= b.len(),
    ensures
        r == le_i16(b@, o as int),
{
    <byteorder::LittleEndian as byteorder::ByteOrder>::read_i16(&b[o..])
}

/// One patch of a texture: where it goes, and which patch it is.
#[derive(Debug, Clone, PartialEq, Eq)]
pub struct TexPatch {
    /// Offset of this patch relative to the upper-left of the whole texture.
    pub origin_x: i32,
    pub origin_y: i32,
    /// Index into the [`PatchTable`].
    pub index: usize,
}

/// A texture composed of patches.
#[derive(Debug, Clone, PartialEq, Eq)]
pub struct PatchedTex {
    pub name: String,
    pub width: u32,
    pub height: u32,
    pub patches: Vec<TexPatch>,
}

/// See <https://doomwiki.org/wiki/TEXTURE1_and_TEXTURE2>.
#[derive(Debug, Clone)]
pub struct TextureX(pub Vec<PatchedTex>);

/// Where texture `k`'s record starts, as its offset table says.
pub open spec fn tex_start(b: Seq<u8>, k: int) -> int {
    le_i32(b, 4 + 4 * k) as int
}

/// How many patches the texture record at `s` has.
pub open spec fn tex_patch_count(b: Seq<u8>, s: int) -> int {
    le_i16(b, s + 20) as int
}

/// Whether reading texture `k` breaks down: its offset entry lies past the
/// lump, its offset is just below zero (the end of its record overflows), or
/// its record is in the lump but claims fewer than zero patches.
pub open spec fn tex_panics(b: Seq<u8>, k: int) -> bool {
    let s = tex_start(b, k);
    ||| 8 + 4 * k > b.len()
    ||| -22 <= s < 0
    ||| (0 <= s && s + 22 <= b.len() && tex_patch_count(b, s) < 0)
}

/// Whether texture `k` reads well: its record and all its patches lie in the lump.
pub open spec fn tex_good(b: Seq<u8>, k: int) -> bool {
    let s = tex_start(b, k);
    &&& 8 + 4 * k <= b.len()
    &&& 0 <= s
    &&& s + 22 <= b.len()
    &&& 0 <= tex_patch_count(b, s)
    &&& s + 22 + 10 * tex_patch_count(b, s) <= b.len()
}

/// Whether reading a TEXTURE1/2 lump never breaks down: no texture whose
/// predecessors all read well breaks down.
pub open spec fn texturex_safe(b: Seq<u8>) -> bool {
    b.len() < 4 || forall|k: int|
        0 <= k < le_u32(b, 0) && (forall|j: int| 0 <= j < k ==> #[trigger] tex_good(b, j)) ==> !#[trigger] tex_panics(b, k)
}

/// Whether every one of the `n` textures reads well.
pub open spec fn all_good(b: Seq<u8>, n: int) -> bool {
    forall|k: int| 0 <= k < n ==> #[trigger] tex_good(b, k)
}

/// Whether `p` is the patch record at `o`.
pub open spec fn patch_matches(p: TexPatch, b: Seq<u8>, o: int) -> bool {
    p == TexPatch {
        origin_x: le_i16(b, o) as i32,
        origin_y: le_i16(b, o + 2) as i32,
        index: le_i16(b, o + 4) as usize,
    }
}

/// Whether `t` is the texture whose record is at `s`: a blank name reads as empty.
pub open spec fn tex_matches(t: PatchedTex, b: Seq<u8>, s: int) -> bool {
    let pc = tex_patch_count(b, s);
    &&& t.name@ == (match spec_id8(b.subrange(s, s + 8)) {
        Some(n) => n,
        None => Seq::empty(),
    })
    &&& t.width == le_i16(b, s + 12) as u32
    &&& t.height == le_i16(b, s + 14) as u32
    &&& t.patches@.len() == pc
    &&& forall|j: int| 0 <= j < pc ==> patch_matches(#[trigger] t.patches@[j], b, s + 22 + 10 * j)
}

fn texture_at(path: &str, bytes: &[u8], k: usize, n: u32) -> (r: Result<PatchedTex, PrepError>)
    requires
        k < n,
        n == le_u32(bytes@, 0),
        bytes@.len() >= 4,
        !tex_panics(bytes@, k as int),
    ensures
        r is Ok <==> tex_good(bytes@, k as int),
        r matches Ok(t) ==> tex_matches(t, bytes@, tex_start(bytes@, k as int)),
        r matches Err(e) ==> e.path@ == path@ && e.kind == PrepErrorKind::TextureX,
{
    let len = bytes.len();
    let s = byteorder_i32(bytes, 4 + 4 * k);
    if s < 0 {
        return Err(PrepError { path: path.to_owned(), kind: PrepErrorKind::TextureX });
    }
    let su = s as usize;
    if su > len || len - su < 22 {
        return Err(PrepError { path: path.to_owned(), kind: PrepErrorKind::TextureX });
    }
    let raw: [u8; 8] = [
        bytes[su],
        bytes[su + 1],
        bytes[su + 2],
        bytes[su + 3],
        bytes[su + 4],
        bytes[su + 5],
        bytes[su + 6],
        bytes[su + 7],
    ];
    assert(raw@ =~= bytes@.subrange(su as int, su + 8));
    let name = match read_id8(raw) {
        Some(n) => n,
        None => String::new(),
    };
    let width = #[verifier::truncate] (byteorder_i16(bytes, su + 12) as u32);
    let height = #[verifier::truncate] (byteorder_i16(bytes, su + 14) as u32);
    let pc = byteorder_i16(bytes, su + 20);
    let pcu = pc as usize;
    let mut patches: Vec<TexPatch> = Vec::new();
    let mut j: usize = 0;
    while j < pcu
        invariant
            len == bytes@.len(),
            su as int == tex_start(bytes@, k as int),
            8 + 4 * k <= len,
            su + 22 <= len,
            0 <= pc,
            pcu == pc,
            pc == tex_patch_count(bytes@, su as int),
            j <= pcu,
            patches@.len() == j,
            su + 22 + 10 * j <= len,
            forall|i: int| 0 <= i < j ==> patch_matches(#[trigger] patches@[i], bytes@, su + 22 + 10 * i),
        decreases pcu - j,
    {
        let pos = su + 22 + 10 * j;
        if len - pos < 10 {
            return Err(PrepError { path: path.to_owned(), kind: PrepErrorKind::TextureX });
        }
        let p = TexPatch {
            origin_x: byteorder_i16(bytes, pos) as i32,
            origin_y: byteorder_i16(bytes, pos + 2) as i32,
            index: #[verifier::truncate] (byteorder_i16(bytes, pos + 4) as usize),
        };
        patches.push(p);
        j = j + 1;
    }
    Ok(PatchedTex { name, width, height, patches })
}

/// Reads a TEXTURE1 or TEXTURE2 lump: a count, a table of offsets, and at
/// each offset a texture record followed by its patch records. Gives an
/// error for a lump shorter than the count or a texture that does not lie
/// wholly in the lump, and `None` for a count of zero.
pub fn prep_texturex(path: &str, bytes: &[u8]) -> (r: Outcome<TextureX, PrepError>)
    requires
        texturex_safe(bytes@),
    ensures
        bytes@.len() >= 4 && le_u32(bytes@, 0) == 0 <==> r is Skipped,
        bytes@.len() < 4 || (le_u32(bytes@, 0) != 0 && !all_good(bytes@, le_u32(bytes@, 0) as int)) <==> r is Failed,
        r matches Outcome::Failed(e) ==> e.path@ == path@ && e.kind == PrepErrorKind::TextureX,
        r matches Outcome::Done(t) ==> t.0@.len() == le_u32(bytes@, 0) && forall|k: int|
            0 <= k < t.0@.len() ==> tex_matches(#[trigger] t.0@[k], bytes@, tex_start(bytes@, k)),
        !(r is Cancelled),
{
    if bytes.len() < 4 {
        return Outcome::Failed(PrepError { path: path.to_owned(), kind: PrepErrorKind::TextureX });
    }
    let n = byteorder_u32(bytes, 0);
    if n == 0 {
        return Outcome::Skipped;
    }
    let mut ret: Vec<PatchedTex> = Vec::new();
    let mut k: usize = 0;
    while k < n as usize
        invariant
            bytes@.len() >= 4,
            n == le_u32(bytes@, 0),
            n != 0,
            texturex_safe(bytes@),
            k <= n,
            ret@.len() == k,
            all_good(bytes@, k as int),
            forall|i: int| 0 <= i < k ==> tex_matches(#[trigger] ret@[i], bytes@, tex_start(bytes@, i)),
        decreases n - k,
    {
        assert(forall|j: int| 0 <= j < k ==> #[trigger] tex_good(bytes@, j));
        match texture_at(path, bytes, k, n) {
            Ok(t) => {
                ret.push(t);
            },
            Err(e) => {
                return Outcome::Failed(e);
            },
        }
        k = k + 1;
    }
    Outcome::Done(TextureX(ret))
}

proof fn lemma_safe_from_bad(b: Seq<u8>, k: int)
    requires
        b.len() >= 4,
        0 <= k < le_u32(b, 0),
        !tex_good(b, k),
        !tex_panics(b, k),
        forall|i: int| 0 <= i < k ==> !#[trigger] tex_panics(b, i),
    ensures
        texturex_safe(b),
{
    assert forall|k2: int|
        0 <= k2 < le_u32(b, 0) && (forall|j: int| 0 <= j < k2 ==> #[trigger] tex_good(b, j)) implies !#[trigger] tex_panics(
        b,
        k2,
    ) by {
        if k2 > k {
            assert(tex_good(b, k));
        }
    }
}

/// Whether [`prep_texturex`] can read `bytes` without breaking down.
pub fn texturex_is_safe(bytes: &[u8]) -> (r: bool)
    ensures
        r == texturex_safe(bytes@),
{
    let len = bytes.len();
    if len < 4 {
        return true;
    }
    let n = byteorder_u32(bytes, 0);
    let mut k: usize = 0;
    while k < n as usize
        invariant
            len == bytes@.len(),
            len >= 4,
            n == le_u32(bytes@, 0),
            k <= n,
            all_good(bytes@, k as int),
            forall|i: int| 0 <= i < k ==> !#[trigger] tex_panics(bytes@, i),
        decreases n - k,
    {
        assert(forall|j: int| 0 <= j < k ==> #[trigger] tex_good(bytes@, j));
        if (len as u64) < 8 + 4 * (k as u64) {
            assert(tex_panics(bytes@, k as int));
            return false;
        }
        let s = byteorder_i32(bytes, 4 + 4 * k);
        if s < 0 {
            if s >= -22 {
                assert(tex_panics(bytes@, k as int));
                return false;
            }
            proof {
                lemma_safe_from_bad(bytes@, k as int);
            }
            return true;
        }
        let su = s as usize;
        if su > len || len - su < 22 {
            proof {
                lemma_safe_from_bad(bytes@, k as int);
            }
            return true;
        }
        let pc = byteorder_i16(bytes, su + 20);
        if pc < 0 {
            assert(tex_panics(bytes@, k as int));
            return false;
        }
        if ((len - su - 22) as u64) < 10 * (pc as u64) {
            proof {
                lemma_safe_from_bad(bytes@, k as int);
            }
            return true;
        }
        k = k + 1;
    }
    true
}

} // verus!
