//! "Data objects": things like levels, actor blueprints and sounds, and the
//! store that pairs each with its ID.

use vstd::prelude::*;

use crate::audio::{has_tag, tag_at};
use crate::lump::le_u16;

verus! {

/// A kind of data object the catalog can hold.
pub trait Datum {}

/// A data object with its ID.
#[derive(Debug)]
pub struct Store<D: Datum> {
    id: String,
    inner: D,
}

impl<D: Datum> Store<D> {
    pub closed spec fn spec_id(&self) -> Seq<char> {
        self.id@
    }

    pub closed spec fn spec_inner(&self) -> D {
        self.inner
    }

    pub fn new(id: String, datum: D) -> (r: Self)
        ensures
            r.spec_id() == id@,
            r.spec_inner() == datum,
    {
        Self { id, inner: datum }
    }

    pub fn id(&self) -> (r: &str)
        ensures
            r@ == self.spec_id(),
    {
        self.id.as_str()
    }

    pub fn inner(&self) -> (r: &D)
        ensures
            *r == self.spec_inner(),
    {
        &self.inner
    }

    pub fn inner_mut(&mut self) -> (r: &mut D)
        ensures
            *r == old(self).spec_inner(),
            final(self).spec_id() == old(self).spec_id(),
            final(self).spec_inner() == *final(r),
    {
        &mut self.inner
    }

    pub fn into_inner(self) -> (r: D)
        ensures
            r == self.spec_inner(),
    {
        self.inner
    }
}

/// A placeholder type.
#[derive(Debug, Clone, Copy, PartialEq, Eq)]
pub struct PolyModel;

/// A placeholder type.
#[derive(Debug, Clone, Copy, PartialEq, Eq)]
pub struct VoxelModel;

impl Datum for PolyModel {}

impl Datum for VoxelModel {}

/// Sound and music data, kept encoded.
#[derive(Debug, Clone)]
pub enum Audio {
    Midi(Vec<u8>),
    Waveform(Vec<u8>),
}

impl Datum for Audio {}

/// `byteorder::LittleEndian::read_u16` on the bytes from `o`: the
/// little-endian value of the two bytes there.
#[verifier::external_body]
fn byteorder_u16(b: &[u8], o: usize) -> (r: u16)
    requires
        o + 2 <= b.len(),
    ensures
        r == le_u16(b@, o as int),
{
    <byteorder::LittleEndian as byteorder::ByteOrder>::read_u16(&b[o..])
}

impl Audio {
    /// Whether `bytes` opens like a DMX MUS file (`MUS` and 0x1A).
    /// See <https://doomwiki.org/wiki/MUS>.
    pub fn is_dmxmus(bytes: &[u8]) -> (r: bool)
        ensures
            r == has_tag(bytes@, 0, seq![0x4Du8, 0x55u8, 0x53u8, 0x1Au8]),
    {
        let tag: [u8; 4] = [0x4D, 0x55, 0x53, 0x1A];
        assert(tag@ == seq![0x4Du8, 0x55u8, 0x53u8, 0x1Au8]);
        tag_at(bytes, 0, &tag)
    }

    /// Whether `bytes` opens with the FLAC signature `fLaC`.
    pub fn is_flac(bytes: &[u8]) -> (r: bool)
        ensures
            r == has_tag(bytes@, 0, seq![0x66u8, 0x4cu8, 0x61u8, 0x43u8]),
    {
        let tag: [u8; 4] = [0x66, 0x4c, 0x61, 0x43];
        assert(tag@ == seq![0x66u8, 0x4cu8, 0x61u8, 0x43u8]);
        tag_at(bytes, 0, &tag)
    }

    /// Whether `bytes` opens like an MP3 file: an ID3v2 header (`ID3`), or a
    /// frame sync of `0xFF 0xFB`.
    pub fn is_mp3(bytes: &[u8]) -> (r: bool)
        ensures
            r == (bytes@.len() > 2 && ((bytes@[0] == 0x49 && bytes@[1] == 0x44 && bytes@[2] == 0x33) || (bytes@[0]
                == 0xFF && bytes@[1] == 0xFB))),
    {
        bytes.len() > 2 && ((bytes[0] == 0x49 && bytes[1] == 0x44 && bytes[2] == 0x33) || (bytes[0] == 0xFF
            && bytes[1] == 0xFB))
    }

    /// Whether `bytes` opens with the Ogg signature `OggS`.
    pub fn is_ogg(bytes: &[u8]) -> (r: bool)
        ensures
            r == has_tag(bytes@, 0, seq![0x4fu8, 0x67u8, 0x67u8, 0x53u8]),
    {
        let tag: [u8; 4] = [0x4f, 0x67, 0x67, 0x53];
        assert(tag@ == seq![0x4fu8, 0x67u8, 0x67u8, 0x53u8]);
        tag_at(bytes, 0, &tag)
    }

    /// Whether `bytes` is a Doom PC speaker sound: two NUL bytes, then a
    /// little-endian sample count, then exactly that many one-byte samples.
    pub fn is_pc_speaker_sound(bytes: &[u8]) -> (r: bool)
        ensures
            r == (bytes@.len() >= 4 && bytes@[0] == 0 && bytes@[1] == 0 && bytes@.len() == 4 + le_u16(bytes@, 2)),
    {
        if bytes.len() < 4 {
            return false;
        }
        if bytes[0] > 0 || bytes[1] > 0 {
            return false;
        }
        let size: usize = 4 + byteorder_u16(bytes, 2) as usize;
        bytes.len() == size
    }

    /// Whether `bytes` opens like a RIFF WAVE file (`RIFF`, then `WAVE` at 8).
    pub fn is_wav(bytes: &[u8]) -> (r: bool)
        ensures
            r == (bytes@.len() > 11 && has_tag(bytes@, 0, seq![0x52u8, 0x49u8, 0x46u8, 0x46u8]) && has_tag(
                bytes@,
                8,
                seq![0x57u8, 0x41u8, 0x56u8, 0x45u8],
            )),
    {
        let riff: [u8; 4] = [0x52, 0x49, 0x46, 0x46];
        let wave: [u8; 4] = [0x57, 0x41, 0x56, 0x45];
        assert(riff@ == seq![0x52u8, 0x49u8, 0x46u8, 0x46u8]);
        assert(wave@ == seq![0x57u8, 0x41u8, 0x56u8, 0x45u8]);
        bytes.len() > 11 && tag_at(bytes, 0, &riff) && tag_at(bytes, 8, &wave)
    }
}

} // verus!
