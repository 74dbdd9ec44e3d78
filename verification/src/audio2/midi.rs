//! Recognising music formats for the MIDI renderer.

use vstd::prelude::*;

use crate::audio::midi::{spec_deduce, FileFormat};

pub use crate::audio::{SoundFont, SoundFontKind};

verus! {

#[derive(Debug, Clone, Copy, PartialEq, Eq, Hash)]
pub enum Format {
    Midi,
    Hmi,
    Xmi,
    DmxMus,
    Mids,
}

pub open spec fn format_of(f: FileFormat) -> Format {
    match f {
        FileFormat::Midi => Format::Midi,
        FileFormat::Hmi => Format::Hmi,
        FileFormat::Xmi => Format::Xmi,
        FileFormat::DmxMus => Format::DmxMus,
        FileFormat::Mids => Format::Mids,
    }
}

impl Format {
    /// Recognises a music format from its first 12 bytes (as ZMusic does).
    pub fn deduce(bytes: &[u8]) -> (r: Option<Format>)
        ensures
            r == (match spec_deduce(bytes@) {
                Some(f) => Some(format_of(f)),
                None => None,
            }),
    {
        match FileFormat::deduce(bytes) {
            Some(FileFormat::Midi) => Some(Format::Midi),
            Some(FileFormat::Hmi) => Some(Format::Hmi),
            Some(FileFormat::Xmi) => Some(Format::Xmi),
            Some(FileFormat::DmxMus) => Some(Format::DmxMus),
            Some(FileFormat::Mids) => Some(Format::Mids),
            None => None,
        }
    }
}

} // verus!
