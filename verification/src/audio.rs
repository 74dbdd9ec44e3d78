//! Sound- and music-related logic: recognising sound font, music and sound
//! file formats from their leading bytes.

use vstd::prelude::*;

use crate::support::{path_file_name, path_file_name_of, path_file_stem, path_file_stem_of};

pub mod midi;

verus! {

/// Whether `bytes` holds `tag` at `start`.
pub open spec fn has_tag(bytes: Seq<u8>, start: int, tag: Seq<u8>) -> bool {
    &&& 0 <= start
    &&& start + tag.len() <= bytes.len()
    &&& bytes.subrange(start, start + tag.len()) == tag
}

/// Checks whether `bytes` holds `tag` at `start`.
pub fn tag_at(bytes: &[u8], start: usize, tag: &[u8]) -> (r: bool)
    ensures
        r == has_tag(bytes@, start as int, tag@),
{
    if start > bytes.len() || tag.len() > bytes.len() - start {
        return false;
    }
    let mut k: usize = 0;
    while k < tag.len()
        invariant
            start + tag.len() <= bytes.len(),
            0 <= k <= tag.len(),
            forall|j: int| 0 <= j < k ==> bytes@[start + j] == tag@[j],
        decreases tag@.len() - k,
    {
        if bytes[start + k] != tag[k] {
            assert(bytes@.subrange(start as int, start + tag@.len())[k as int] != tag@[k as int]);
            return false;
        }
        k = k + 1;
    }
    assert(bytes@.subrange(start as int, start + tag@.len()) =~= tag@);
    true
}

/// The kinds of sound fonts the MIDI renderer can use.
#[derive(Debug, Clone, Copy, PartialEq, Eq)]
pub enum SoundFontKind {
    Sf2,
    Gus,
    Wopl,
    Wopn,
}

/// The four-byte signature that opens a ZIP archive: `PK\x03\x04`.
pub open spec fn zip_magic() -> Seq<u8> {
    seq![0x50u8, 0x4Bu8, 0x03u8, 0x04u8]
}

/// Whether `bytes` opens with the signature of a ZIP archive.
pub fn is_zip(bytes: &[u8]) -> (r: bool)
    ensures
        r == has_tag(bytes@, 0, zip_magic()),
{
    let magic: [u8; 4] = [0x50, 0x4B, 0x03, 0x04];
    assert(magic@ == zip_magic());
    tag_at(bytes, 0, &magic)
}

/// The kind of sound font a file's first 16 bytes announce, if any:
/// a RIFF `sfbk` list is SF2, the WOPL and WOPN bank signatures are OPL and
/// OPN banks, and a ZIP archive is a packed GUS patch set.
pub open spec fn spec_soundfont_kind(header: Seq<u8>) -> Option<SoundFontKind> {
    if has_tag(header, 0, seq![0x52u8, 0x49u8, 0x46u8, 0x46u8]) && has_tag(
        header,
        8,
        seq![0x73u8, 0x66u8, 0x62u8, 0x6Bu8, 0x4Cu8, 0x49u8, 0x53u8, 0x54u8],
    ) {
        Some(SoundFontKind::Sf2)
    } else if has_tag(header, 0, seq![0x57u8, 0x4Fu8, 0x50u8, 0x4Cu8, 0x33u8, 0x2Du8, 0x42u8, 0x41u8, 0x4Eu8, 0x4Bu8, 0u8]) {
        Some(SoundFontKind::Wopl)
    } else if has_tag(header, 0, seq![0x57u8, 0x4Fu8, 0x50u8, 0x4Eu8, 0x32u8, 0x2Du8, 0x42u8, 0x41u8, 0x4Eu8, 0x4Bu8, 0u8]) {
        Some(SoundFontKind::Wopn)
    } else if has_tag(header, 0, zip_magic()) {
        Some(SoundFontKind::Gus)
    } else {
        None
    }
}

/// A header that opens with `RIFF` and holds `sfbkLIST` at byte 8 is an SF2
/// sound font.
pub proof fn law_riff_sfbk_header_is_sf2(header: Seq<u8>)
    requires
        header.len() == 16,
        header.subrange(0, 4) == seq![0x52u8, 0x49u8, 0x46u8, 0x46u8],
        header.subrange(8, 16) == seq![0x73u8, 0x66u8, 0x62u8, 0x6Bu8, 0x4Cu8, 0x49u8, 0x53u8, 0x54u8],
    ensures
        spec_soundfont_kind(header) == Some(SoundFontKind::Sf2),
{
}

/// A header that opens with `WOPL3-BANK` and a zero byte is an OPL bank.
pub proof fn law_wopl_header_is_wopl(header: Seq<u8>)
    requires
        header.len() == 16,
        header.subrange(0, 11) == seq![0x57u8, 0x4Fu8, 0x50u8, 0x4Cu8, 0x33u8, 0x2Du8, 0x42u8, 0x41u8, 0x4Eu8, 0x4Bu8, 0u8],
    ensures
        spec_soundfont_kind(header) == Some(SoundFontKind::Wopl),
{
    assert(header.subrange(0, 11)[0] == header[0]);
    assert(header.subrange(0, 4)[0] == header[0]);
}

/// A header that opens with `WOPN2-BANK` and a zero byte is an OPN bank.
pub proof fn law_wopn_header_is_wopn(header: Seq<u8>)
    requires
        header.len() == 16,
        header.subrange(0, 11) == seq![0x57u8, 0x4Fu8, 0x50u8, 0x4Eu8, 0x32u8, 0x2Du8, 0x42u8, 0x41u8, 0x4Eu8, 0x4Bu8, 0u8],
    ensures
        spec_soundfont_kind(header) == Some(SoundFontKind::Wopn),
{
    assert(header.subrange(0, 11)[0] == header[0]);
    assert(header.subrange(0, 11)[3] == header[3]);
    assert(header.subrange(0, 4)[0] == header[0]);
}

/// A header that opens with the ZIP signature `PK\x03\x04` is a packed GUS
/// patch set.
pub proof fn law_zip_header_is_gus(header: Seq<u8>)
    requires
        header.len() == 16,
        header.subrange(0, 4) == seq![0x50u8, 0x4Bu8, 0x03u8, 0x04u8],
    ensures
        spec_soundfont_kind(header) == Some(SoundFontKind::Gus),
{
    assert(header.subrange(0, 4)[0] == header[0]);
    assert(header.subrange(0, 11)[0] == header[0]);
}

/// A header with none of the four openings is no sound font.
pub proof fn law_unknown_header_is_no_soundfont(header: Seq<u8>)
    requires
        header.len() == 16,
        !(header.subrange(0, 4) == seq![0x52u8, 0x49u8, 0x46u8, 0x46u8] && header.subrange(8, 16) == seq![
            0x73u8,
            0x66u8,
            0x62u8,
            0x6Bu8,
            0x4Cu8,
            0x49u8,
            0x53u8,
            0x54u8,
        ]),
        header.subrange(0, 11) != seq![0x57u8, 0x4Fu8, 0x50u8, 0x4Cu8, 0x33u8, 0x2Du8, 0x42u8, 0x41u8, 0x4Eu8, 0x4Bu8, 0u8],
        header.subrange(0, 11) != seq![0x57u8, 0x4Fu8, 0x50u8, 0x4Eu8, 0x32u8, 0x2Du8, 0x42u8, 0x41u8, 0x4Eu8, 0x4Bu8, 0u8],
        header.subrange(0, 4) != seq![0x50u8, 0x4Bu8, 0x03u8, 0x04u8],
    ensures
        spec_soundfont_kind(header) is None,
{
}

/// Determines the kind of sound font from the first 16 bytes of its file.
pub fn soundfont_kind(header: &[u8; 16]) -> (r: Option<SoundFontKind>)
    ensures
        r == spec_soundfont_kind(header@),
{
    let riff: [u8; 4] = [0x52u8, 0x49u8, 0x46u8, 0x46u8];
    let sfbk: [u8; 8] = [0x73u8, 0x66u8, 0x62u8, 0x6Bu8, 0x4Cu8, 0x49u8, 0x53u8, 0x54u8];
    let wopl: [u8; 11] = [0x57u8, 0x4Fu8, 0x50u8, 0x4Cu8, 0x33u8, 0x2Du8, 0x42u8, 0x41u8, 0x4Eu8, 0x4Bu8, 0];
    let wopn: [u8; 11] = [0x57u8, 0x4Fu8, 0x50u8, 0x4Eu8, 0x32u8, 0x2Du8, 0x42u8, 0x41u8, 0x4Eu8, 0x4Bu8, 0];
    assert(riff@ == seq![0x52u8, 0x49u8, 0x46u8, 0x46u8]);
    assert(sfbk@ == seq![0x73u8, 0x66u8, 0x62u8, 0x6Bu8, 0x4Cu8, 0x49u8, 0x53u8, 0x54u8]);
    assert(wopl@ == seq![0x57u8, 0x4Fu8, 0x50u8, 0x4Cu8, 0x33u8, 0x2Du8, 0x42u8, 0x41u8, 0x4Eu8, 0x4Bu8, 0u8]);
    assert(wopn@ == seq![0x57u8, 0x4Fu8, 0x50u8, 0x4Eu8, 0x32u8, 0x2Du8, 0x42u8, 0x41u8, 0x4Eu8, 0x4Bu8, 0u8]);
    let bytes: &[u8] = header.as_slice();
    if tag_at(bytes, 0, &riff) && tag_at(bytes, 8, &sfbk) {
        Some(SoundFontKind::Sf2)
    } else if tag_at(bytes, 0, &wopl) {
        Some(SoundFontKind::Wopl)
    } else if tag_at(bytes, 0, &wopn) {
        Some(SoundFontKind::Wopn)
    } else if is_zip(bytes) {
        Some(SoundFontKind::Gus)
    } else {
        None
    }
}

/// Whether a ZIP sound font is a usable GUS patch set: an archive with only
/// one file cannot be one, and it needs a non-empty `timidity.cfg` file.
/// `timidity` describes that entry, if found: whether it is a file, and its size.
pub fn is_gus_patch_set(archive_len: usize, timidity: Option<(bool, u64)>) -> (r: bool)
    ensures
        r == (archive_len > 1 && match timidity {
            Some((is_file, size)) => is_file && size >= 1,
            None => false,
        }),
{
    if archive_len <= 1 {
        return false;
    }
    match timidity {
        Some((is_file, size)) => is_file && size >= 1,
        None => false,
    }
}

/// A sound font file found on disk.
#[derive(Debug, Clone, PartialEq)]
pub struct SoundFont {
    /// The canonicalized path to this sound font's file.
    path: String,
    kind: SoundFontKind,
}

impl SoundFont {
    pub closed spec fn spec_path(&self) -> Seq<char> {
        self.path@
    }

    pub closed spec fn spec_kind(&self) -> SoundFontKind {
        self.kind
    }

    pub fn new(path: String, kind: SoundFontKind) -> (r: SoundFont)
        ensures
            r.spec_path() == path@,
            r.spec_kind() == kind,
    {
        SoundFont { path, kind }
    }

    /// The name of the sound font file, without the extension (the file stem);
    /// empty if the path has none.
    pub fn name(&self) -> (r: String)
        ensures
            r@ == path_file_stem_of(self.spec_path()),
            is_substring(r@, self.spec_path()),
    {
        path_file_stem(self.path.as_str())
    }

    /// The name of the sound font file, with the extension; empty if the path has none.
    pub fn name_ext(&self) -> (r: String)
        ensures
            r@ == path_file_name_of(self.spec_path()),
            is_substring(r@, self.spec_path()),
    {
        path_file_name(self.path.as_str())
    }

    /// The canonicalized path to this sound font's file.
    pub fn full_path(&self) -> (r: &str)
        ensures
            r@ == self.spec_path(),
    {
        self.path.as_str()
    }

    pub fn kind(&self) -> (r: SoundFontKind)
        ensures
            r == self.spec_kind(),
    {
        self.kind
    }
}

/// Whether `part` occurs in `whole` as a contiguous run.
pub open spec fn is_substring(part: Seq<char>, whole: Seq<char>) -> bool {
    exists|i: int| 0 <= i && i + part.len() <= whole.len() && #[trigger] whole.subrange(i, i + part.len()) == part
}

} // verus!
