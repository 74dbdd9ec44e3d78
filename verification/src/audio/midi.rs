//! Recognising the music formats that the MIDI renderer handles.

use vstd::prelude::*;

use super::{has_tag, tag_at};

pub use super::{SoundFont, SoundFontKind};

verus! {

/// Music file formats, told apart by their leading bytes.
#[derive(Debug, Clone, Copy, PartialEq, Eq, Hash)]
pub enum FileFormat {
    Midi,
    Hmi,
    Xmi,
    DmxMus,
    Mids,
}

pub open spec fn tag4(a: u8, b: u8, c: u8, d: u8) -> Seq<u8> {
    seq![a, b, c, d]
}

/// The format that the first 12 bytes of a music file announce, if any.
pub open spec fn spec_deduce(bytes: Seq<u8>) -> Option<FileFormat> {
    if bytes.len() < 12 {
        None
    } else if has_tag(bytes, 0, tag4(0x4Du8, 0x55u8, 0x53u8, 0x1A)) {
        Some(FileFormat::DmxMus)
    } else if has_tag(bytes, 0, tag4(0x48u8, 0x4Du8, 0x49u8, 0x2Du8)) && has_tag(bytes, 4, tag4(0x4Du8, 0x49u8, 0x44u8, 0x49u8))
        && has_tag(bytes, 8, tag4(0x53u8, 0x4Fu8, 0x4Eu8, 0x47u8)) {
        Some(FileFormat::Hmi)
    } else if has_tag(bytes, 0, tag4(0x48u8, 0x4Du8, 0x49u8, 0x4Du8)) && has_tag(bytes, 4, tag4(0x49u8, 0x44u8, 0x49u8, 0x50u8)) {
        Some(FileFormat::Hmi)
    } else if has_tag(bytes, 0, tag4(0x46u8, 0x4Fu8, 0x52u8, 0x4Du8)) && has_tag(bytes, 8, tag4(0x58u8, 0x44u8, 0x49u8, 0x52u8)) {
        Some(FileFormat::Xmi)
    } else if (has_tag(bytes, 0, tag4(0x43u8, 0x41u8, 0x54u8, 0x20u8)) || has_tag(bytes, 0, tag4(0x46u8, 0x4Fu8, 0x52u8, 0x4Du8)))
        && has_tag(bytes, 8, tag4(0x58u8, 0x4Du8, 0x49u8, 0x44u8)) {
        Some(FileFormat::Xmi)
    } else if has_tag(bytes, 0, tag4(0x52u8, 0x49u8, 0x46u8, 0x46u8)) && has_tag(bytes, 8, tag4(0x4Du8, 0x49u8, 0x44u8, 0x53u8)) {
        Some(FileFormat::Mids)
    } else if has_tag(bytes, 0, tag4(0x4Du8, 0x54u8, 0x68u8, 0x64u8)) {
        Some(FileFormat::Midi)
    } else {
        None
    }
}

/// Whether `bytes` spells the four bytes `a b c d` from index `i` on.
pub open spec fn spells(bytes: Seq<u8>, i: int, a: u8, b: u8, c: u8, d: u8) -> bool {
    &&& bytes[i] == a
    &&& bytes[i + 1] == b
    &&& bytes[i + 2] == c
    &&& bytes[i + 3] == d
}

proof fn lemma_spells_tag(bytes: Seq<u8>, i: int, a: u8, b: u8, c: u8, d: u8)
    requires
        0 <= i,
        i + 4 <= bytes.len(),
    ensures
        has_tag(bytes, i, tag4(a, b, c, d)) <==> spells(bytes, i, a, b, c, d),
{
    let sub = bytes.subrange(i, i + 4);
    assert(sub[0] == bytes[i] && sub[1] == bytes[i + 1] && sub[2] == bytes[i + 2] && sub[3] == bytes[i + 3]);
    if spells(bytes, i, a, b, c, d) {
        assert(sub =~= tag4(a, b, c, d));
    }
    if has_tag(bytes, i, tag4(a, b, c, d)) {
        assert(tag4(a, b, c, d)[0] == a && tag4(a, b, c, d)[1] == b);
        assert(tag4(a, b, c, d)[2] == c && tag4(a, b, c, d)[3] == d);
    }
}

/// Every tag that the recognition looks at, read as plain byte comparisons.
proof fn lemma_header_tags(bytes: Seq<u8>)
    requires
        bytes.len() >= 12,
    ensures
        has_tag(bytes, 0, tag4(0x4Du8, 0x55u8, 0x53u8, 0x1A)) <==> spells(bytes, 0, 0x4Du8, 0x55u8, 0x53u8, 0x1A),
        has_tag(bytes, 0, tag4(0x48u8, 0x4Du8, 0x49u8, 0x2Du8)) <==> spells(bytes, 0, 0x48u8, 0x4Du8, 0x49u8, 0x2Du8),
        has_tag(bytes, 4, tag4(0x4Du8, 0x49u8, 0x44u8, 0x49u8)) <==> spells(bytes, 4, 0x4Du8, 0x49u8, 0x44u8, 0x49u8),
        has_tag(bytes, 8, tag4(0x53u8, 0x4Fu8, 0x4Eu8, 0x47u8)) <==> spells(bytes, 8, 0x53u8, 0x4Fu8, 0x4Eu8, 0x47u8),
        has_tag(bytes, 0, tag4(0x48u8, 0x4Du8, 0x49u8, 0x4Du8)) <==> spells(bytes, 0, 0x48u8, 0x4Du8, 0x49u8, 0x4Du8),
        has_tag(bytes, 4, tag4(0x49u8, 0x44u8, 0x49u8, 0x50u8)) <==> spells(bytes, 4, 0x49u8, 0x44u8, 0x49u8, 0x50u8),
        has_tag(bytes, 0, tag4(0x46u8, 0x4Fu8, 0x52u8, 0x4Du8)) <==> spells(bytes, 0, 0x46u8, 0x4Fu8, 0x52u8, 0x4Du8),
        has_tag(bytes, 8, tag4(0x58u8, 0x44u8, 0x49u8, 0x52u8)) <==> spells(bytes, 8, 0x58u8, 0x44u8, 0x49u8, 0x52u8),
        has_tag(bytes, 0, tag4(0x43u8, 0x41u8, 0x54u8, 0x20u8)) <==> spells(bytes, 0, 0x43u8, 0x41u8, 0x54u8, 0x20u8),
        has_tag(bytes, 8, tag4(0x58u8, 0x4Du8, 0x49u8, 0x44u8)) <==> spells(bytes, 8, 0x58u8, 0x4Du8, 0x49u8, 0x44u8),
        has_tag(bytes, 0, tag4(0x52u8, 0x49u8, 0x46u8, 0x46u8)) <==> spells(bytes, 0, 0x52u8, 0x49u8, 0x46u8, 0x46u8),
        has_tag(bytes, 8, tag4(0x4Du8, 0x49u8, 0x44u8, 0x53u8)) <==> spells(bytes, 8, 0x4Du8, 0x49u8, 0x44u8, 0x53u8),
        has_tag(bytes, 0, tag4(0x4Du8, 0x54u8, 0x68u8, 0x64u8)) <==> spells(bytes, 0, 0x4Du8, 0x54u8, 0x68u8, 0x64u8),
{
    lemma_spells_tag(bytes, 0, 0x4Du8, 0x55u8, 0x53u8, 0x1A);
    lemma_spells_tag(bytes, 0, 0x48u8, 0x4Du8, 0x49u8, 0x2Du8);
    lemma_spells_tag(bytes, 4, 0x4Du8, 0x49u8, 0x44u8, 0x49u8);
    lemma_spells_tag(bytes, 8, 0x53u8, 0x4Fu8, 0x4Eu8, 0x47u8);
    lemma_spells_tag(bytes, 0, 0x48u8, 0x4Du8, 0x49u8, 0x4Du8);
    lemma_spells_tag(bytes, 4, 0x49u8, 0x44u8, 0x49u8, 0x50u8);
    lemma_spells_tag(bytes, 0, 0x46u8, 0x4Fu8, 0x52u8, 0x4Du8);
    lemma_spells_tag(bytes, 8, 0x58u8, 0x44u8, 0x49u8, 0x52u8);
    lemma_spells_tag(bytes, 0, 0x43u8, 0x41u8, 0x54u8, 0x20u8);
    lemma_spells_tag(bytes, 8, 0x58u8, 0x4Du8, 0x49u8, 0x44u8);
    lemma_spells_tag(bytes, 0, 0x52u8, 0x49u8, 0x46u8, 0x46u8);
    lemma_spells_tag(bytes, 8, 0x4Du8, 0x49u8, 0x44u8, 0x53u8);
    lemma_spells_tag(bytes, 0, 0x4Du8, 0x54u8, 0x68u8, 0x64u8);
}

/// Fewer than 12 bytes announce no format.
pub proof fn law_short_header_has_no_format(bytes: Seq<u8>)
    requires
        bytes.len() < 12,
    ensures
        spec_deduce(bytes) is None,
{
}

/// A DMX MUS file opens with `MUS` and the byte 0x1A.
pub proof fn law_mus_header_is_dmx_mus(bytes: Seq<u8>)
    requires
        bytes.len() >= 12,
        spells(bytes, 0, 0x4Du8, 0x55u8, 0x53u8, 0x1A),
    ensures
        spec_deduce(bytes) == Some(FileFormat::DmxMus),
{
    lemma_header_tags(bytes);
}

/// An HMI file opens with `HMI-MIDISONG`, or with `HMIMIDIP`.
pub proof fn law_hmi_header_is_hmi(bytes: Seq<u8>)
    requires
        bytes.len() >= 12,
        (spells(bytes, 0, 0x48u8, 0x4Du8, 0x49u8, 0x2Du8) && spells(bytes, 4, 0x4Du8, 0x49u8, 0x44u8, 0x49u8)
            && spells(bytes, 8, 0x53u8, 0x4Fu8, 0x4Eu8, 0x47u8)) || (spells(bytes, 0, 0x48u8, 0x4Du8, 0x49u8, 0x4Du8)
            && spells(bytes, 4, 0x49u8, 0x44u8, 0x49u8, 0x50u8)),
    ensures
        spec_deduce(bytes) == Some(FileFormat::Hmi),
{
    lemma_header_tags(bytes);
}

/// An XMI file opens with `FORM` or `CAT ` and holds `XMID` at byte 8, or
/// opens with `FORM` and holds `XDIR` at byte 8.
pub proof fn law_xmi_header_is_xmi(bytes: Seq<u8>)
    requires
        bytes.len() >= 12,
        ((spells(bytes, 0, 0x46u8, 0x4Fu8, 0x52u8, 0x4Du8) || spells(bytes, 0, 0x43u8, 0x41u8, 0x54u8, 0x20u8))
            && spells(bytes, 8, 0x58u8, 0x4Du8, 0x49u8, 0x44u8)) || (spells(bytes, 0, 0x46u8, 0x4Fu8, 0x52u8, 0x4Du8)
            && spells(bytes, 8, 0x58u8, 0x44u8, 0x49u8, 0x52u8)),
    ensures
        spec_deduce(bytes) == Some(FileFormat::Xmi),
{
    lemma_header_tags(bytes);
}

/// A MIDS file opens with `RIFF` and holds `MIDS` at byte 8.
pub proof fn law_riff_mids_header_is_mids(bytes: Seq<u8>)
    requires
        bytes.len() >= 12,
        spells(bytes, 0, 0x52u8, 0x49u8, 0x46u8, 0x46u8),
        spells(bytes, 8, 0x4Du8, 0x49u8, 0x44u8, 0x53u8),
    ensures
        spec_deduce(bytes) == Some(FileFormat::Mids),
{
    lemma_header_tags(bytes);
}

/// A standard MIDI file opens with `MThd`.
pub proof fn law_mthd_header_is_midi(bytes: Seq<u8>)
    requires
        bytes.len() >= 12,
        spells(bytes, 0, 0x4Du8, 0x54u8, 0x68u8, 0x64u8),
    ensures
        spec_deduce(bytes) == Some(FileFormat::Midi),
{
    lemma_header_tags(bytes);
}

/// A header that matches none of the known openings announces no format.
pub proof fn law_unknown_header_has_no_format(bytes: Seq<u8>)
    requires
        bytes.len() >= 12,
        !spells(bytes, 0, 0x4Du8, 0x55u8, 0x53u8, 0x1A),
        !(spells(bytes, 0, 0x48u8, 0x4Du8, 0x49u8, 0x2Du8) && spells(bytes, 4, 0x4Du8, 0x49u8, 0x44u8, 0x49u8)
            && spells(bytes, 8, 0x53u8, 0x4Fu8, 0x4Eu8, 0x47u8)),
        !(spells(bytes, 0, 0x48u8, 0x4Du8, 0x49u8, 0x4Du8) && spells(bytes, 4, 0x49u8, 0x44u8, 0x49u8, 0x50u8)),
        !((spells(bytes, 0, 0x46u8, 0x4Fu8, 0x52u8, 0x4Du8) || spells(bytes, 0, 0x43u8, 0x41u8, 0x54u8, 0x20u8))
            && spells(bytes, 8, 0x58u8, 0x4Du8, 0x49u8, 0x44u8)),
        !(spells(bytes, 0, 0x46u8, 0x4Fu8, 0x52u8, 0x4Du8) && spells(bytes, 8, 0x58u8, 0x44u8, 0x49u8, 0x52u8)),
        !(spells(bytes, 0, 0x52u8, 0x49u8, 0x46u8, 0x46u8) && spells(bytes, 8, 0x4Du8, 0x49u8, 0x44u8, 0x53u8)),
        !spells(bytes, 0, 0x4Du8, 0x54u8, 0x68u8, 0x64u8),
    ensures
        spec_deduce(bytes) is None,
{
    lemma_header_tags(bytes);
}

fn at(bytes: &[u8], start: usize, a: u8, b: u8, c: u8, d: u8) -> (r: bool)
    ensures
        r == has_tag(bytes@, start as int, tag4(a, b, c, d)),
{
    let t: [u8; 4] = [a, b, c, d];
    assert(t@ == tag4(a, b, c, d));
    tag_at(bytes, start, &t)
}

impl FileFormat {
    /// Recognises a music format from its leading bytes (as ZMusic does).
    pub fn deduce(bytes: &[u8]) -> (r: Option<FileFormat>)
        ensures
            r == spec_deduce(bytes@),
    {
        if bytes.len() < 12 {
            return None;
        }
        if at(bytes, 0, 0x4Du8, 0x55u8, 0x53u8, 0x1A) {
            return Some(FileFormat::DmxMus);
        }
        if at(bytes, 0, 0x48u8, 0x4Du8, 0x49u8, 0x2Du8) && at(bytes, 4, 0x4Du8, 0x49u8, 0x44u8, 0x49u8) && at(
            bytes,
            8,
            0x53u8,
            0x4Fu8,
            0x4Eu8,
            0x47u8,
        ) {
            return Some(FileFormat::Hmi);
        }
        if at(bytes, 0, 0x48u8, 0x4Du8, 0x49u8, 0x4Du8) && at(bytes, 4, 0x49u8, 0x44u8, 0x49u8, 0x50u8) {
            return Some(FileFormat::Hmi);
        }
        if at(bytes, 0, 0x46u8, 0x4Fu8, 0x52u8, 0x4Du8) && at(bytes, 8, 0x58u8, 0x44u8, 0x49u8, 0x52u8) {
            return Some(FileFormat::Xmi);
        }
        if (at(bytes, 0, 0x43u8, 0x41u8, 0x54u8, 0x20u8) || at(bytes, 0, 0x46u8, 0x4Fu8, 0x52u8, 0x4Du8)) && at(
            bytes,
            8,
            0x58u8,
            0x4Du8,
            0x49u8,
            0x44u8,
        ) {
            return Some(FileFormat::Xmi);
        }
        if at(bytes, 0, 0x52u8, 0x49u8, 0x46u8, 0x46u8) && at(bytes, 8, 0x4Du8, 0x49u8, 0x44u8, 0x53u8) {
            return Some(FileFormat::Mids);
        }
        if at(bytes, 0, 0x4Du8, 0x54u8, 0x68u8, 0x64u8) {
            return Some(FileFormat::Midi);
        }
        None
    }
}

} // verus!
