use viletech::audio::midi::FileFormat;
use viletech::audio::{is_gus_patch_set, is_zip, soundfont_kind, SoundFont, SoundFontKind};
use viletech::audio2::midi::Format;
use viletech::audio2::{sfx_channel, InvalidChannel};
use viletech::dobj::Audio;

fn header(bytes: &[u8]) -> [u8; 16] {
    let mut h = [0u8; 16];
    h[..bytes.len()].copy_from_slice(bytes);
    h
}

#[test]
fn soundfont_kinds_come_from_headers() {
    assert_eq!(soundfont_kind(&header(b"RIFF\0\0\0\0sfbkLIST")), Some(SoundFontKind::Sf2));
    assert_eq!(soundfont_kind(&header(b"WOPL3-BANK\0")), Some(SoundFontKind::Wopl));
    assert_eq!(soundfont_kind(&header(b"WOPN2-BANK\0")), Some(SoundFontKind::Wopn));
    assert_eq!(soundfont_kind(&header(b"PK\x03\x04")), Some(SoundFontKind::Gus));
    assert_eq!(soundfont_kind(&header(b"RIFF\0\0\0\0WAVEfmt ")), None);
    assert!(is_zip(b"PK\x03\x04rest"));
    assert!(!is_zip(b"PK\x03"));
}

#[test]
fn gus_patch_sets_need_a_timidity_config() {
    assert!(is_gus_patch_set(3, Some((true, 10))));
    assert!(!is_gus_patch_set(1, Some((true, 10))));
    assert!(!is_gus_patch_set(3, Some((false, 10))));
    assert!(!is_gus_patch_set(3, Some((true, 0))));
    assert!(!is_gus_patch_set(3, None));
}

#[test]
fn soundfont_names_come_from_the_path() {
    let sf = SoundFont::new("/data/soundfonts/viletech.sf2".to_string(), SoundFontKind::Sf2);
    assert_eq!(sf.name(), "viletech");
    assert_eq!(sf.name_ext(), "viletech.sf2");
    assert_eq!(sf.full_path(), "/data/soundfonts/viletech.sf2");
    assert_eq!(sf.kind(), SoundFontKind::Sf2);
}

fn twelve(b: &[u8]) -> Vec<u8> {
    let mut v = b.to_vec();
    v.resize(12, 0);
    v
}

#[test]
fn music_formats_are_deduced_from_twelve_bytes() {
    assert_eq!(FileFormat::deduce(&twelve(b"MUS\x1a")), Some(FileFormat::DmxMus));
    assert_eq!(FileFormat::deduce(&twelve(b"HMI-MIDISONG")), Some(FileFormat::Hmi));
    assert_eq!(FileFormat::deduce(&twelve(b"HMIMIDIP")), Some(FileFormat::Hmi));
    assert_eq!(FileFormat::deduce(&twelve(b"FORM\0\0\0\0XDIR")), Some(FileFormat::Xmi));
    assert_eq!(FileFormat::deduce(&twelve(b"CAT \0\0\0\0XMID")), Some(FileFormat::Xmi));
    assert_eq!(FileFormat::deduce(&twelve(b"RIFF\0\0\0\0MIDS")), Some(FileFormat::Mids));
    assert_eq!(FileFormat::deduce(&twelve(b"MThd")), Some(FileFormat::Midi));
    assert_eq!(FileFormat::deduce(b"MThd"), None);
    assert_eq!(FileFormat::deduce(&twelve(b"OggS")), None);
    assert_eq!(Format::deduce(&twelve(b"MThd")), Some(Format::Midi));
    assert_eq!(Format::deduce(&twelve(b"MUS\x1a")), Some(Format::DmxMus));
}

#[test]
fn audio_signatures() {
    assert!(Audio::is_dmxmus(b"MUS\x1a\0\0"));
    assert!(!Audio::is_dmxmus(b"MUS"));
    assert!(Audio::is_flac(b"fLaC"));
    assert!(Audio::is_flac(b"fLaC\x00\x00\x00\x22"));
    assert!(!Audio::is_flac(b"fLa"));
    assert!(Audio::is_ogg(b"OggS"));
    assert!(Audio::is_ogg(b"OggS\x00\x02"));
    assert!(!Audio::is_ogg(b"Ogg"));
    assert!(Audio::is_mp3(b"ID3\x04\x00\x00"));
    assert!(Audio::is_mp3(&[0xFF, 0xFB, 0x90, 0x00]));
    assert!(!Audio::is_mp3(&[0xFF, 0xFB]));
    assert!(!Audio::is_mp3(b"IDX\x03"));
    assert!(Audio::is_wav(b"RIFF\0\0\0\0WAVEfmt "));
    assert!(!Audio::is_wav(b"RIFF\0\0\0\0WAV"));
    assert!(Audio::is_pc_speaker_sound(&[0, 0, 2, 0, 9, 9]));
    assert!(!Audio::is_pc_speaker_sound(&[0, 0, 3, 0, 9, 9]));
    assert!(!Audio::is_pc_speaker_sound(&[1, 0, 2, 0, 9, 9]));
    assert!(!Audio::is_pc_speaker_sound(&[0, 0, 0xFF, 0xFF]));
    assert!(Audio::is_pc_speaker_sound(&[0, 0, 0, 0]));
}

#[test]
fn sfx_channel_is_the_one_asked_for_or_counted_from_the_back() {
    let occupied = [true, false, true, true];
    assert_eq!(sfx_channel(&occupied, Some(2)), Ok(2));
    assert_eq!(sfx_channel(&occupied, Some(4)), Err(InvalidChannel { channel: 4, chan_len: 4 }));
    // The last free channel is 1, two places from the end.
    assert_eq!(sfx_channel(&occupied, None), Ok(2));
    assert_eq!(sfx_channel(&[true, true], None), Ok(1));
    assert_eq!(sfx_channel(&[false, true], None), Ok(1));
    assert_eq!(sfx_channel(&[], None), Err(InvalidChannel { channel: usize::MAX, chan_len: 0 }));
}

#[test]
fn sound_font_names_are_the_file_stem_and_name() {
    let s = SoundFont::new("/usr/share/soundfonts/viletech.sf2".to_string(), SoundFontKind::Sf2);
    assert_eq!(s.name(), "viletech");
    assert_eq!(s.name_ext(), "viletech.sf2");
    let root = SoundFont::new("/".to_string(), SoundFontKind::Sf2);
    assert_eq!(root.name_ext(), "");
}
