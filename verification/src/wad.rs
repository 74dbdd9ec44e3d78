//! The second preparation pass over the entries of a WAD: assets that depend
//! on nothing else, such as color maps, the end screen, patch names and
//! composite textures.

use vstd::prelude::*;

use crate::dobj::Audio;
use crate::picture::{is_picture, picture_safe};
use crate::text::str_eq_ic;
use crate::lump::{le_u16, le_u32};
use crate::palette::{
    flat_image, picture_image, playpal_color, prep_flat, prep_picture, prep_playpal, Image, Palette, PaletteSet,
    PLAYPAL_LEN,
};
use crate::data::MountKind;
use crate::prep::{Outcome, PrepError, PrepErrorKind};
use crate::support::str_eq;
use crate::vfs::{has_item, item_index, parent_of, FileRef};
use crate::vanilla::{
    all_good, pnames, prep_colormap, prep_endoom, prep_pnames, prep_texturex, tex_matches, tex_start, texturex_safe,
    ColorMap, EnDoom, PatchedTex,
};

verus! {

/// What the second pass has gathered for one mount.
#[derive(Debug)]
pub struct WorkingArtifacts {
    /// Preserved between passes; only discharged when preparation finishes.
    pub errors: Vec<PrepError>,
    pub colormap: Option<ColorMap>,
    pub endoom: Option<EnDoom>,
    pub palset: Option<PaletteSet>,
    pub texturex: Vec<PatchedTex>,
    pub pnames: Vec<String>,
}

impl WorkingArtifacts {
    pub fn new() -> (r: Self)
        ensures
            r.errors@.len() == 0,
            r.colormap is None,
            r.endoom is None,
            r.palset is None,
            r.texturex@.len() == 0,
            r.pnames@.len() == 0,
    {
        WorkingArtifacts {
            errors: Vec::new(),
            colormap: None,
            endoom: None,
            palset: None,
            texturex: Vec::new(),
            pnames: Vec::new(),
        }
    }
}

/// What preparation keeps of one mount after the second pass, read-only
/// from then on.
#[derive(Debug)]
pub struct Artifacts {
    pub kind: MountKind,
    pub texturex: Vec<PatchedTex>,
    pub pnames: Vec<String>,
    pub colormap: Option<ColorMap>,
    pub palset: Option<PaletteSet>,
    pub endoom: Option<EnDoom>,
}

impl Artifacts {
    pub fn new(kind: MountKind) -> (r: Self)
        ensures
            r.kind == kind,
            r.texturex@.len() == 0,
            r.pnames@.len() == 0,
            r.colormap is None,
            r.palset is None,
            r.endoom is None,
    {
        Artifacts { kind, texturex: Vec::new(), pnames: Vec::new(), colormap: None, palset: None, endoom: None }
    }
}

/// Whether `a` holds what `w` gathered, keeping its own kind.
pub open spec fn moved_in(a: Artifacts, before: Artifacts, w: WorkingArtifacts) -> bool {
    &&& a.kind == before.kind
    &&& a.texturex == w.texturex
    &&& a.pnames == w.pnames
    &&& a.colormap == w.colormap
    &&& a.palset == w.palset
    &&& a.endoom == w.endoom
}

/// Whether `w` is `before` with all it gathered taken out, errors kept.
pub open spec fn emptied(w: WorkingArtifacts, before: WorkingArtifacts) -> bool {
    &&& w.errors == before.errors
    &&& w.texturex@.len() == 0
    &&& w.pnames@.len() == 0
    &&& w.colormap is None
    &&& w.palset is None
    &&& w.endoom is None
}

/// After the second pass: moves what each mount's working buffer gathered
/// into that mount's artifacts, pairing them in order.
pub fn post_pass2(working: &mut Vec<WorkingArtifacts>, arts: &mut Vec<Artifacts>)
    ensures
        final(working)@.len() == old(working)@.len(),
        final(arts)@.len() == old(arts)@.len(),
        forall|i: int|
            0 <= i < old(working)@.len() && i < old(arts)@.len() ==> moved_in(
                #[trigger] final(arts)@[i],
                old(arts)@[i],
                old(working)@[i],
            ) && emptied(final(working)@[i], old(working)@[i]),
        forall|i: int| old(arts)@.len() <= i < old(working)@.len() ==> #[trigger] final(working)@[i] == old(working)@[i],
        forall|i: int| old(working)@.len() <= i < old(arts)@.len() ==> #[trigger] final(arts)@[i] == old(arts)@[i],
{
    let n = if working.len() < arts.len() {
        working.len()
    } else {
        arts.len()
    };
    let ghost w0 = working@;
    let ghost a0 = arts@;
    for i in 0..n
        invariant
            n <= w0.len() && n <= a0.len(),
            working@.len() == w0.len(),
            arts@.len() == a0.len(),
            forall|j: int| 0 <= j < i ==> moved_in(#[trigger] arts@[j], a0[j], w0[j]) && emptied(working@[j], w0[j]),
            forall|j: int| i <= j < w0.len() ==> #[trigger] working@[j] == w0[j],
            forall|j: int| i <= j < a0.len() ==> #[trigger] arts@[j] == a0[j],
    {
        let mut texturex: Vec<PatchedTex> = Vec::new();
        let mut pnames: Vec<String> = Vec::new();
        std::mem::swap(&mut texturex, &mut working[i].texturex);
        std::mem::swap(&mut pnames, &mut working[i].pnames);
        let endoom = working[i].endoom.take();
        let palset = working[i].palset.take();
        let colormap = working[i].colormap.take();
        arts[i].texturex = texturex;
        arts[i].pnames = pnames;
        arts[i].endoom = endoom;
        arts[i].palset = palset;
        arts[i].colormap = colormap;
    }
}

/// The errors of each mount, in order, once preparation finishes.
pub fn rollup_errors(working: Vec<WorkingArtifacts>) -> (r: Vec<Vec<PrepError>>)
    ensures
        r@.len() == working@.len(),
        forall|i: int| 0 <= i < r@.len() ==> #[trigger] r@[i] == working@[i].errors,
{
    let mut out: Vec<Vec<PrepError>> = Vec::new();
    let ghost w0 = working@;
    let mut rest = working;
    let mut i: usize = 0;
    while i < rest.len()
        invariant
            w0.len() == rest@.len(),
            i <= rest@.len(),
            out@.len() == i,
            forall|j: int| 0 <= j < i ==> #[trigger] out@[j] == w0[j].errors,
            forall|j: int| i <= j < rest@.len() ==> #[trigger] rest@[j].errors == w0[j].errors,
        decreases rest@.len() - i,
    {
        let mut errs: Vec<PrepError> = Vec::new();
        std::mem::swap(&mut errs, &mut rest[i].errors);
        out.push(errs);
        i = i + 1;
    }
    out
}

/// The position of the last mount that has a palette set, if any.
pub open spec fn last_palset_index(arts: Seq<Artifacts>) -> Option<int>
    decreases arts.len(),
{
    if arts.len() == 0 {
        None
    } else if arts.last().palset is Some {
        Some(arts.len() - 1)
    } else {
        last_palset_index(arts.drop_last())
    }
}

/// The palette set of the last mount that has one.
pub fn last_paletteset(arts: &[Artifacts]) -> (r: Option<&PaletteSet>)
    ensures
        r is Some <==> last_palset_index(arts@) is Some,
        r is Some ==> Some(*r.unwrap()) == arts@[last_palset_index(arts@).unwrap()].palset,
{
    let mut k = arts.len();
    assert(arts@.take(k as int) =~= arts@);
    while k > 0 && arts[k - 1].palset.is_none()
        invariant
            k <= arts@.len(),
            last_palset_index(arts@) == last_palset_index(arts@.take(k as int)),
        decreases k,
    {
        assert(arts@.take(k as int).drop_last() =~= arts@.take(k - 1));
        k = k - 1;
    }
    if k == 0 {
        None
    } else {
        assert(arts@.take(k as int).last() == arts@[k - 1]);
        match &arts[k - 1].palset {
            Some(ps) => Some(ps),
            None => None,
        }
    }
}

/// What remains to be done with a WAD entry after [`prep_pass2_entry`].
#[derive(Debug, Clone, Copy, PartialEq, Eq)]
pub enum Pass2Work {
    /// Nothing: the entry was dealt with, or is not for this pass.
    Done,
    /// The entry is FLAC, MP3, Ogg or WAV audio, to be decoded.
    DecodeWaveform,
}

/// Whether `new` is `old` with one more error, about `path`, of `kind`.
pub open spec fn pushed_error(old: Seq<PrepError>, new: Seq<PrepError>, path: Seq<char>, kind: PrepErrorKind) -> bool {
    &&& new.len() == old.len() + 1
    &&& new.subrange(0, old.len() as int) == old
    &&& new.last().path@ == path
    &&& new.last().kind == kind
}

/// Whether a WAD entry holds composite texture definitions.
pub open spec fn is_texturex_name(name: Seq<char>) -> bool {
    name == "TEXTURE1"@ || name == "TEXTURE2"@ || name == "TEXTURE3"@ || name == "TEXTURES"@
}

/// Whether an entry's bytes announce waveform audio.
pub open spec fn is_waveform(b: Seq<u8>) -> bool {
    crate::audio::has_tag(b, 0, seq![0x66u8, 0x4cu8, 0x61u8, 0x43u8]) || (b.len() > 2 && ((b[0] == 0x49 && b[1]
        == 0x44 && b[2] == 0x33) || (b[0] == 0xFF && b[1] == 0xFB))) || crate::audio::has_tag(
        b,
        0,
        seq![0x4fu8, 0x67u8, 0x67u8, 0x53u8],
    ) || (b.len() > 11 && crate::audio::has_tag(b, 0, seq![0x52u8, 0x49u8, 0x46u8, 0x46u8])
        && crate::audio::has_tag(b, 8, seq![0x57u8, 0x41u8, 0x56u8, 0x45u8]))
}

proof fn lemma_names_differ()
    ensures
        "COLORMAP"@ != "ENDOOM"@,
        "COLORMAP"@ != "PLAYPAL"@,
        "COLORMAP"@ != "PNAMES"@,
        !is_texturex_name("COLORMAP"@),
        "ENDOOM"@ != "PLAYPAL"@,
        "ENDOOM"@ != "PNAMES"@,
        !is_texturex_name("ENDOOM"@),
        "PLAYPAL"@ != "PNAMES"@,
        !is_texturex_name("PLAYPAL"@),
        !is_texturex_name("PNAMES"@),
{
    reveal_strlit("COLORMAP");
    reveal_strlit("ENDOOM");
    reveal_strlit("PLAYPAL");
    reveal_strlit("PNAMES");
    reveal_strlit("TEXTURE1");
    reveal_strlit("TEXTURE2");
    reveal_strlit("TEXTURE3");
    reveal_strlit("TEXTURES");
    assert("COLORMAP"@[0] != "ENDOOM"@[0]);
    assert("COLORMAP"@[1] != "PLAYPAL"@[1]);
    assert("COLORMAP"@[0] != "PNAMES"@[0]);
    assert("COLORMAP"@[0] != "TEXTURE1"@[0]);
    assert("COLORMAP"@[0] != "TEXTURES"@[0]);
    assert("ENDOOM"@[0] != "PLAYPAL"@[0]);
    assert("ENDOOM"@[0] != "PNAMES"@[0]);
    assert("ENDOOM"@[0] != "TEXTURE1"@[0]);
    assert("ENDOOM"@[0] != "TEXTURE2"@[0]);
    assert("ENDOOM"@[0] != "TEXTURE3"@[0]);
    assert("ENDOOM"@[0] != "TEXTURES"@[0]);
    assert("PLAYPAL"@[1] != "PNAMES"@[1]);
    assert("PLAYPAL"@[0] != "TEXTURE1"@[0]);
    assert("PLAYPAL"@[0] != "TEXTURE2"@[0]);
    assert("PLAYPAL"@[0] != "TEXTURE3"@[0]);
    assert("PLAYPAL"@[0] != "TEXTURES"@[0]);
    assert("PNAMES"@[0] != "TEXTURE1"@[0]);
    assert("PNAMES"@[0] != "TEXTURE2"@[0]);
    assert("PNAMES"@[0] != "TEXTURE3"@[0]);
    assert("PNAMES"@[0] != "TEXTURES"@[0]);
    assert("COLORMAP"@[0] != "TEXTURE2"@[0]);
    assert("COLORMAP"@[0] != "TEXTURE3"@[0]);
}

/// The second pass over one readable WAD entry, named `name` (its file
/// prefix) at `path`. Waveform audio is left to the caller; a PLAYPAL,
/// COLORMAP or ENDOOM replaces the one gathered so far; the names of a PNAMES
/// lump and the textures of a TEXTUREx lump are added to those gathered so
/// far. Whatever goes wrong is added to the errors.
pub fn prep_pass2_entry(arts: &mut WorkingArtifacts, path: &str, name: &str, bytes: &[u8]) -> (r: Pass2Work)
    requires
        !is_waveform(bytes@) && is_texturex_name(name@) ==> texturex_safe(bytes@),
    ensures
        is_waveform(bytes@) ==> r == Pass2Work::DecodeWaveform && *final(arts) == *old(arts),
        !is_waveform(bytes@) ==> r == Pass2Work::Done,
        !is_waveform(bytes@) && name@ == "PLAYPAL"@ ==> {
            &&& (bytes@.len() >= PLAYPAL_LEN ==> final(arts).errors == old(arts).errors && (final(arts).palset matches Some(ps)
                && forall|i: int, j: int| 0 <= i < 14 && 0 <= j < 256 ==> (#[trigger] ps.0@[i].0@[j]).0@ == playpal_color(bytes@, i, j)))
            &&& (bytes@.len() < PLAYPAL_LEN ==> final(arts).palset == old(arts).palset
                && final(arts).errors@.len() == old(arts).errors@.len() + 1
                && final(arts).errors@.subrange(0, old(arts).errors@.len() as int) == old(arts).errors@
                && final(arts).errors@.last().path@ == path@ && final(arts).errors@.last().kind is Io)
            &&& final(arts).colormap == old(arts).colormap
            &&& final(arts).endoom == old(arts).endoom
            &&& final(arts).texturex == old(arts).texturex
            &&& final(arts).pnames == old(arts).pnames
        },
        !is_waveform(bytes@) && name@ == "COLORMAP"@ ==> {
            &&& (bytes@.len() == 8704 ==> final(arts).errors == old(arts).errors && (final(arts).colormap matches Some(m)
                && forall|i: int, j: int| 0 <= i < 34 && 0 <= j < 256 ==> #[trigger] m.0@[i]@[j] == bytes@[256 * i + j]))
            &&& (bytes@.len() != 8704 ==> final(arts).colormap == old(arts).colormap && pushed_error(
                old(arts).errors@,
                final(arts).errors@,
                path@,
                PrepErrorKind::ColorMap(bytes.len()),
            ))
            &&& final(arts).endoom == old(arts).endoom
            &&& final(arts).palset == old(arts).palset
            &&& final(arts).texturex == old(arts).texturex
            &&& final(arts).pnames == old(arts).pnames
        },
        !is_waveform(bytes@) && name@ == "ENDOOM"@ ==> {
            &&& (bytes@.len() == 4000 ==> final(arts).errors == old(arts).errors && (final(arts).endoom matches Some(e)
                && forall|i: int| 0 <= i < 2000 ==> #[trigger] e.colors@[i] == bytes@[2 * i] && e.text@[i] == bytes@[2 * i + 1]))
            &&& (bytes@.len() != 4000 ==> final(arts).endoom == old(arts).endoom && pushed_error(
                old(arts).errors@,
                final(arts).errors@,
                path@,
                PrepErrorKind::EnDoom(bytes.len()),
            ))
            &&& final(arts).colormap == old(arts).colormap
            &&& final(arts).palset == old(arts).palset
            &&& final(arts).texturex == old(arts).texturex
            &&& final(arts).pnames == old(arts).pnames
        },
        !is_waveform(bytes@) && name@ == "PNAMES"@ ==> {
            let n = le_u32(bytes@, 0);
            &&& (bytes@.len() == 4 && n == 0 ==> *final(arts) == *old(arts))
            &&& (bytes@.len() < 4 || bytes@.len() != 8 * n + 4 ==> final(arts).pnames == old(arts).pnames
                && pushed_error(old(arts).errors@, final(arts).errors@, path@, PrepErrorKind::PNames))
            &&& (bytes@.len() >= 4 && n != 0 && bytes@.len() == 8 * n + 4 ==> final(arts).errors == old(arts).errors
                && final(arts).pnames@.map_values(|s: String| s@) == old(arts).pnames@.map_values(|s: String| s@)
                + pnames(bytes@, n as int))
            &&& final(arts).colormap == old(arts).colormap
            &&& final(arts).endoom == old(arts).endoom
            &&& final(arts).palset == old(arts).palset
            &&& final(arts).texturex == old(arts).texturex
        },
        !is_waveform(bytes@) && is_texturex_name(name@) ==> {
            let n = le_u32(bytes@, 0);
            &&& (bytes@.len() >= 4 && n == 0 ==> *final(arts) == *old(arts))
            &&& (bytes@.len() < 4 || (n != 0 && !all_good(bytes@, n as int)) ==> final(arts).texturex
                == old(arts).texturex && pushed_error(
                old(arts).errors@,
                final(arts).errors@,
                path@,
                PrepErrorKind::TextureX,
            ))
            &&& (bytes@.len() >= 4 && n != 0 && all_good(bytes@, n as int) ==> final(arts).errors == old(arts).errors
                && final(arts).texturex@.len() == old(arts).texturex@.len() + n
                && final(arts).texturex@.subrange(0, old(arts).texturex@.len() as int) == old(arts).texturex@
                && forall|k: int|
                0 <= k < n ==> tex_matches(
                    #[trigger] final(arts).texturex@[old(arts).texturex@.len() + k],
                    bytes@,
                    tex_start(bytes@, k),
                ))
            &&& final(arts).colormap == old(arts).colormap
            &&& final(arts).endoom == old(arts).endoom
            &&& final(arts).palset == old(arts).palset
            &&& final(arts).pnames == old(arts).pnames
        },
        !is_waveform(bytes@) && name@ != "COLORMAP"@ && name@ != "ENDOOM"@ && name@ != "PNAMES"@ && name@ != "PLAYPAL"@
            && !is_texturex_name(name@) ==> *final(arts) == *old(arts),
{
    proof {
        lemma_names_differ();
    }
    if Audio::is_flac(bytes) || Audio::is_mp3(bytes) || Audio::is_ogg(bytes) || Audio::is_wav(bytes) {
        return Pass2Work::DecodeWaveform;
    }
    if str_eq(name, "COLORMAP") {
        match prep_colormap(path, bytes) {
            Ok(colormap) => {
                arts.colormap = Some(colormap);
            },
            Err(err) => {
                let ghost before = arts.errors@;
                arts.errors.push(err);
                assert(arts.errors@.subrange(0, before.len() as int) =~= before);
            },
        }
        return Pass2Work::Done;
    }
    if str_eq(name, "ENDOOM") {
        match prep_endoom(path, bytes) {
            Ok(endoom) => {
                arts.endoom = Some(endoom);
            },
            Err(err) => {
                let ghost before = arts.errors@;
                arts.errors.push(err);
                assert(arts.errors@.subrange(0, before.len() as int) =~= before);
            },
        }
        return Pass2Work::Done;
    }
    if str_eq(name, "PLAYPAL") {
        match prep_playpal(path, bytes) {
            Ok(palset) => {
                arts.palset = Some(palset);
            },
            Err(err) => {
                let ghost before = arts.errors@;
                arts.errors.push(err);
                assert(arts.errors@.subrange(0, before.len() as int) =~= before);
            },
        }
        return Pass2Work::Done;
    }
    if str_eq(name, "PNAMES") {
        match prep_pnames(path, bytes) {
            Outcome::Done(mut table) => {
                let ghost before = arts.pnames@;
                let ghost added = table.0@;
                arts.pnames.append(&mut table.0);
                assert(arts.pnames@ == before + added);
                assert(arts.pnames@.map_values(|s: String| s@) =~= before.map_values(|s: String| s@) + added.map_values(
                    |s: String| s@,
                ));
            },
            Outcome::Failed(err) => {
                let ghost before = arts.errors@;
                arts.errors.push(err);
                assert(arts.errors@.subrange(0, before.len() as int) =~= before);
            },
            _ => {},
        }
        return Pass2Work::Done;
    }
    if str_eq(name, "TEXTURE1") || str_eq(name, "TEXTURE2") || str_eq(name, "TEXTURE3") || str_eq(name, "TEXTURES") {
        match prep_texturex(path, bytes) {
            Outcome::Done(mut texx) => {
                let ghost before = arts.texturex@;
                let ghost added = texx.0@;
                arts.texturex.append(&mut texx.0);
                assert(arts.texturex@.subrange(0, before.len() as int) =~= before);
                assert(forall|k: int| 0 <= k < added.len() ==> arts.texturex@[before.len() + k] == added[k]);
            },
            Outcome::Failed(err) => {
                let ghost before = arts.errors@;
                arts.errors.push(err);
                assert(arts.errors@.subrange(0, before.len() as int) =~= before);
            },
            _ => {},
        }
    }
    Pass2Work::Done
}

/// The entries between a WAD's flat and sprite markers.
#[derive(Debug, Clone, Copy, PartialEq, Eq)]
pub struct Markers {
    /// From just after `F_START` up to `F_END`.
    pub flats: Option<(usize, usize)>,
    /// From just after `S_START` up to `S_END`.
    pub sprites: Option<(usize, usize)>,
}

/// `name` joined onto the directory path `dir`, with one `/` between.
pub open spec fn joined(dir: Seq<char>, name: Seq<char>) -> Seq<char> {
    if dir.len() == 0 {
        name
    } else if dir.last() == '/' {
        dir + name
    } else {
        dir + seq!['/'] + name
    }
}

/// The children after the `start` marker up to the `end` marker, if the
/// directory `dir`, whose children are `items`, has both.
pub open spec fn marked_range(items: Seq<Seq<char>>, dir: Seq<char>, start: Seq<char>, end: Seq<char>) -> Option<
    (usize, usize),
> {
    if has_item(items, joined(dir, start)) && has_item(items, joined(dir, end)) {
        Some(((item_index(items, joined(dir, start)) + 1) as usize, item_index(items, joined(dir, end)) as usize))
    } else {
        None
    }
}

/// Whether a marker's path joined onto `dir` has `dir` as its parent.
pub open spec fn marker_joins(dir: Seq<char>, name: Seq<char>) -> bool {
    parent_of(joined(dir, name)) == Some(dir)
}

fn join_path(dir: &str, name: &str) -> (r: String)
    ensures
        r@ == joined(dir@, name@),
{
    let n = dir.unicode_len();
    if n == 0 {
        return name.to_owned();
    }
    let mut s = dir.to_owned();
    if dir.get_char(n - 1) != '/' {
        proof {
            reveal_strlit("/");
        }
        s.append("/");
    }
    s.append(name);
    s
}

/// Whether `i` lies in the optional range `r`.
pub open spec fn in_range(r: Option<(usize, usize)>, i: usize) -> bool {
    match r {
        Some((a, b)) => a <= i < b,
        None => false,
    }
}

impl Markers {
    /// Finds the flat and sprite markers among the children of a WAD's
    /// directory.
    pub fn new(wad: FileRef<'_>) -> (r: Markers)
        requires
            wad.file_view() is Directory,
            marker_joins(wad.path_view(), "F_START"@),
            marker_joins(wad.path_view(), "F_END"@),
            marker_joins(wad.path_view(), "S_START"@),
            marker_joins(wad.path_view(), "S_END"@),
        ensures
            r.flats == marked_range(wad.file_view()->Directory_0, wad.path_view(), "F_START"@, "F_END"@),
            r.sprites == marked_range(wad.file_view()->Directory_0, wad.path_view(), "S_START"@, "S_END"@),
    {
        let dir = wad.path();
        let f_start = join_path(dir, "F_START");
        let flats = match wad.child_index(f_start.as_str()) {
            Some(f_start) => {
                let f_end = join_path(dir, "F_END");
                match wad.child_index(f_end.as_str()) {
                    Some(f_end) => Some((f_start + 1, f_end)),
                    None => None,
                }
            },
            None => None,
        };
        let s_start = join_path(dir, "S_START");
        let sprites = match wad.child_index(s_start.as_str()) {
            Some(s_start) => {
                let s_end = join_path(dir, "S_END");
                match wad.child_index(s_end.as_str()) {
                    Some(s_end) => Some((s_start + 1, s_end)),
                    None => None,
                }
            },
            None => None,
        };
        Markers { flats, sprites }
    }

    pub fn is_flat(&self, child_index: usize) -> (r: bool)
        ensures
            r == in_range(self.flats, child_index),
    {
        match self.flats {
            Some((a, b)) => a <= child_index && child_index < b,
            None => false,
        }
    }

    pub fn is_sprite(&self, child_index: usize) -> (r: bool)
        ensures
            r == in_range(self.sprites, child_index),
    {
        match self.sprites {
            Some((a, b)) => a <= child_index && child_index < b,
            None => false,
        }
    }
}

/// What the third pass makes of a WAD entry.
#[derive(Debug)]
pub enum Pass3Outcome {
    /// A flat, colored.
    Flat(Image),
    /// A picture, from between the sprite markers or recognised by its
    /// format, colored.
    Picture(Image),
    /// The entry should have been a flat or a sprite but is not.
    Failed(PrepError),
    /// The entry is a demo, belongs to another pass, or has no known purpose.
    Nothing,
}

/// Whether a name is that of a demo: `DEMO` followed, at the end, by a digit.
pub open spec fn is_demo_name(n: Seq<char>) -> bool {
    n.len() >= 4 && n.subrange(0, 4) == "DEMO"@ && '0' <= n.last() <= '9'
}

/// The names of entries other passes deal with.
pub open spec fn is_unhandled_name(n: Seq<char>) -> bool {
    n == "COLORMAP"@ || n == "DMXGUS"@ || n == "ENDOOM"@ || n == "GENMIDI"@ || n == "PLAYPAL"@ || n == "PNAMES"@
        || is_texturex_name(n)
}

fn demo_name(name: &str) -> (r: bool)
    ensures
        r == is_demo_name(name@),
{
    let v = crate::text::to_chars(name);
    let n = v.len();
    if n < 4 {
        return false;
    }
    proof {
        reveal_strlit("DEMO");
        assert("DEMO"@ =~= seq!['D', 'E', 'M', 'O']);
    }
    let head = v[0] == 'D' && v[1] == 'E' && v[2] == 'M' && v[3] == 'O';
    proof {
        let sub = v@.subrange(0, 4);
        if head {
            assert(sub =~= "DEMO"@);
        } else if sub == "DEMO"@ {
            assert(sub[0] == 'D' && sub[1] == 'E' && sub[2] == 'M' && sub[3] == 'O');
        }
    }
    head && '0' <= v[n - 1] && v[n - 1] <= '9'
}

fn unhandled_name(name: &str) -> (r: bool)
    ensures
        r == is_unhandled_name(name@),
{
    str_eq(name, "COLORMAP") || str_eq(name, "DMXGUS") || str_eq(name, "ENDOOM") || str_eq(name, "GENMIDI")
        || str_eq(name, "PLAYPAL") || str_eq(name, "PNAMES") || str_eq(name, "TEXTURE1") || str_eq(name, "TEXTURE2")
        || str_eq(name, "TEXTURE3") || str_eq(name, "TEXTURES")
}

/// The third pass over one WAD entry, at position `child_index` among the
/// WAD's children (the positions `markers` counts), named `name` (its file
/// prefix), at `path`:
/// between the flat markers it must be a 4096-byte flat; between the sprite
/// markers it must be a picture; a demo or an entry for another pass, a PC
/// speaker sound or a MUS song is left alone; anything else is kept if it
/// is a picture. Flats and pictures are colored with `palette`.
pub fn prep_pass3_entry(
    markers: &Markers,
    child_index: usize,
    path: &str,
    name: &str,
    bytes: &[u8],
    palette: &Palette,
) -> (r: Pass3Outcome)
    requires
        picture_safe(bytes@),
    ensures
        in_range(markers.flats, child_index) ==> (if bytes@.len() == 4096 {
            r matches Pass3Outcome::Flat(img) && flat_image(img, bytes@, *palette)
        } else {
            r matches Pass3Outcome::Failed(e) && e.path@ == path@ && e.kind == PrepErrorKind::Flat
        }),
        !in_range(markers.flats, child_index) && in_range(markers.sprites, child_index) ==> (if is_picture(bytes@) {
            r matches Pass3Outcome::Picture(img) && picture_image(img, bytes@, *palette)
        } else {
            r matches Pass3Outcome::Failed(e) && e.path@ == path@ && e.kind == PrepErrorKind::Sprite
        }),
        !in_range(markers.flats, child_index) && !in_range(markers.sprites, child_index) ==> (if is_demo_name(name@)
            || is_unhandled_name(name@) || (bytes@.len() >= 4 && bytes@[0] == 0 && bytes@[1] == 0 && bytes@.len() == 4
            + le_u16(bytes@, 2)) || crate::audio::has_tag(bytes@, 0, seq![0x4Du8, 0x55u8, 0x53u8, 0x1Au8])
            || !is_picture(bytes@) {
            r is Nothing
        } else {
            r matches Pass3Outcome::Picture(img) && picture_image(img, bytes@, *palette)
        }),
{
    if markers.is_flat(child_index) {
        return match prep_flat(path, bytes, palette) {
            Ok(img) => Pass3Outcome::Flat(img),
            Err(err) => Pass3Outcome::Failed(err),
        };
    }
    if markers.is_sprite(child_index) {
        return match prep_picture(bytes, palette) {
            Some(img) => Pass3Outcome::Picture(img),
            None => Pass3Outcome::Failed(PrepError { path: path.to_owned(), kind: PrepErrorKind::Sprite }),
        };
    }
    if demo_name(name) {
        return Pass3Outcome::Nothing;
    }
    if unhandled_name(name) || Audio::is_pc_speaker_sound(bytes) || Audio::is_dmxmus(bytes) {
        return Pass3Outcome::Nothing;
    }
    match prep_picture(bytes, palette) {
        Some(img) => Pass3Outcome::Picture(img),
        None => Pass3Outcome::Nothing,
    }
}

} // verus!
