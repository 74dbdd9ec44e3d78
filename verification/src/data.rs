//! Mounts and loading: how a mount is classified, what is known about it,
//! and how far a load has come.

use vstd::prelude::*;

use crate::prep::PrepError;
use crate::text::{eq_ignore_ascii_case, str_eq_ic};

verus! {

/// Informs the rules used for preparing data from a mount.
#[derive(Debug, Clone, Copy, PartialEq, Eq)]
pub enum MountKind {
    /// If the mount's own root has an immediate child text file named
    /// `meta.toml` (ASCII-case-ignored), that indicates that the mount is a
    /// VileTech package.
    VileTech,
    /// A directory with an immediate child whose file stem belongs to a
    /// ZDoom-exclusive lump.
    ZDoom,
    /// A directory with an immediate child with the file stem `edfroot` or
    /// `emapinfo` (ASCII-case-ignored).
    Eternity,
    /// Deduced from [`MountFormat`], which is itself deduced from the file header.
    Wad,
    /// Fallback if the mount resolved to none of the other kinds.
    /// Usually used if mounting a single non-archive file.
    Misc,
}

/// Primarily serves to specify the type of compression used, if any.
#[derive(Debug, Clone, Copy, PartialEq, Eq, Structural)]
pub enum MountFormat {
    PlainFile,
    Directory,
    Wad,
    Zip,
}

/// An immediate child of a mount's root: its name, its name up to the
/// first `.`, and whether it holds text.
#[derive(Debug, Clone)]
pub struct MountChild {
    pub file_name: String,
    pub file_prefix: String,
    pub is_text: bool,
}

/// The file stems of lumps that only ZDoom-family engines read.
pub open spec fn zdoom_prefixes() -> Seq<Seq<char>> {
    seq!["cvarinfo"@, "decorate"@, "gldefs"@, "menudef"@, "modeldef"@, "sndinfo"@, "zmapinfo"@, "zscript"@]
}

pub open spec fn is_meta_toml(c: MountChild) -> bool {
    eq_ignore_ascii_case(c.file_name@, "meta.toml"@) && c.is_text
}

pub open spec fn is_zdoom_child(c: MountChild) -> bool {
    exists|k: int| 0 <= k < 8 && eq_ignore_ascii_case(c.file_prefix@, #[trigger] zdoom_prefixes()[k])
}

pub open spec fn is_eternity_child(c: MountChild) -> bool {
    eq_ignore_ascii_case(c.file_prefix@, "edfroot"@) || eq_ignore_ascii_case(c.file_prefix@, "emapinfo"@)
}

pub open spec fn any_meta_toml(children: Seq<MountChild>) -> bool {
    exists|i: int| 0 <= i < children.len() && is_meta_toml(#[trigger] children[i])
}

pub open spec fn any_zdoom_child(children: Seq<MountChild>) -> bool {
    exists|i: int| 0 <= i < children.len() && is_zdoom_child(#[trigger] children[i])
}

pub open spec fn any_eternity_child(children: Seq<MountChild>) -> bool {
    exists|i: int| 0 <= i < children.len() && is_eternity_child(#[trigger] children[i])
}

/// The kind of a mount, by precedence: a WAD by its format; a single file;
/// a VileTech package; a ZDoom package; an Eternity package; and otherwise
/// the fallback, `Misc`.
pub open spec fn spec_mount_kind(format: MountFormat, is_leaf: bool, children: Seq<MountChild>) -> MountKind {
    if format == MountFormat::Wad {
        MountKind::Wad
    } else if is_leaf {
        MountKind::Misc
    } else if any_meta_toml(children) {
        MountKind::VileTech
    } else if any_zdoom_child(children) {
        MountKind::ZDoom
    } else if any_eternity_child(children) {
        MountKind::Eternity
    } else {
        MountKind::Misc
    }
}

/// Whether `p` is, ASCII case ignored, the stem of a ZDoom-exclusive lump.
pub open spec fn names_zdoom_lump(p: Seq<char>) -> bool {
    ||| eq_ignore_ascii_case(p, "cvarinfo"@)
    ||| eq_ignore_ascii_case(p, "decorate"@)
    ||| eq_ignore_ascii_case(p, "gldefs"@)
    ||| eq_ignore_ascii_case(p, "menudef"@)
    ||| eq_ignore_ascii_case(p, "modeldef"@)
    ||| eq_ignore_ascii_case(p, "sndinfo"@)
    ||| eq_ignore_ascii_case(p, "zmapinfo"@)
    ||| eq_ignore_ascii_case(p, "zscript"@)
}

proof fn lemma_zdoom_child(c: MountChild)
    ensures
        is_zdoom_child(c) <==> names_zdoom_lump(c.file_prefix@),
{
    let z = zdoom_prefixes();
    assert(z[0] == "cvarinfo"@ && z[1] == "decorate"@ && z[2] == "gldefs"@ && z[3] == "menudef"@);
    assert(z[4] == "modeldef"@ && z[5] == "sndinfo"@ && z[6] == "zmapinfo"@ && z[7] == "zscript"@);
    if is_zdoom_child(c) {
        let k = choose|k: int| 0 <= k < 8 && eq_ignore_ascii_case(c.file_prefix@, #[trigger] zdoom_prefixes()[k]);
        assert(k == 0 || k == 1 || k == 2 || k == 3 || k == 4 || k == 5 || k == 6 || k == 7);
    }
}

/// A mount in the WAD format is a WAD, whatever it holds.
pub proof fn law_wad_format_is_wad(is_leaf: bool, children: Seq<MountChild>)
    ensures
        spec_mount_kind(MountFormat::Wad, is_leaf, children) == MountKind::Wad,
{
}

/// A single file that is no WAD falls back to `Misc`.
pub proof fn law_single_file_is_misc(format: MountFormat, children: Seq<MountChild>)
    requires
        format != MountFormat::Wad,
    ensures
        spec_mount_kind(format, true, children) == MountKind::Misc,
{
}

/// A non-WAD directory with a text child named `meta.toml` (ASCII case
/// ignored) is a VileTech package.
pub proof fn law_meta_toml_makes_viletech(format: MountFormat, children: Seq<MountChild>, i: int)
    requires
        format != MountFormat::Wad,
        0 <= i < children.len(),
        eq_ignore_ascii_case(children[i].file_name@, "meta.toml"@),
        children[i].is_text,
    ensures
        spec_mount_kind(format, false, children) == MountKind::VileTech,
{
    assert(is_meta_toml(children[i]));
}

/// A non-WAD directory without a `meta.toml` that has a child whose stem is
/// that of a ZDoom-exclusive lump is a ZDoom package.
pub proof fn law_zdoom_lump_makes_zdoom(format: MountFormat, children: Seq<MountChild>, i: int)
    requires
        format != MountFormat::Wad,
        0 <= i < children.len(),
        names_zdoom_lump(children[i].file_prefix@),
        forall|j: int|
            0 <= j < children.len() ==> !(eq_ignore_ascii_case((#[trigger] children[j]).file_name@, "meta.toml"@)
                && children[j].is_text),
    ensures
        spec_mount_kind(format, false, children) == MountKind::ZDoom,
{
    lemma_zdoom_child(children[i]);
    assert(is_zdoom_child(children[i]));
}

/// A non-WAD directory without a `meta.toml` and without ZDoom-exclusive
/// lumps, that has a child whose stem is `edfroot` or `emapinfo` (ASCII case
/// ignored), is an Eternity package.
pub proof fn law_eternity_lump_makes_eternity(format: MountFormat, children: Seq<MountChild>, i: int)
    requires
        format != MountFormat::Wad,
        0 <= i < children.len(),
        eq_ignore_ascii_case(children[i].file_prefix@, "edfroot"@) || eq_ignore_ascii_case(
            children[i].file_prefix@,
            "emapinfo"@,
        ),
        forall|j: int|
            0 <= j < children.len() ==> !(eq_ignore_ascii_case((#[trigger] children[j]).file_name@, "meta.toml"@)
                && children[j].is_text),
        forall|j: int| 0 <= j < children.len() ==> !names_zdoom_lump((#[trigger] children[j]).file_prefix@),
    ensures
        spec_mount_kind(format, false, children) == MountKind::Eternity,
{
    assert forall|j: int| 0 <= j < children.len() implies !is_zdoom_child(#[trigger] children[j]) by {
        lemma_zdoom_child(children[j]);
    }
    assert(is_eternity_child(children[i]));
}

/// A non-WAD directory with none of the telling children falls back to
/// `Misc`.
pub proof fn law_plain_directory_is_misc(format: MountFormat, children: Seq<MountChild>)
    requires
        format != MountFormat::Wad,
        forall|j: int|
            0 <= j < children.len() ==> !(eq_ignore_ascii_case((#[trigger] children[j]).file_name@, "meta.toml"@)
                && children[j].is_text),
        forall|j: int| 0 <= j < children.len() ==> !names_zdoom_lump((#[trigger] children[j]).file_prefix@),
        forall|j: int|
            0 <= j < children.len() ==> !eq_ignore_ascii_case((#[trigger] children[j]).file_prefix@, "edfroot"@)
                && !eq_ignore_ascii_case(children[j].file_prefix@, "emapinfo"@),
    ensures
        spec_mount_kind(format, false, children) == MountKind::Misc,
{
    assert forall|j: int| 0 <= j < children.len() implies !is_zdoom_child(#[trigger] children[j]) by {
        lemma_zdoom_child(children[j]);
    }
}

fn zdoom_child(c: &MountChild) -> (r: bool)
    ensures
        r == is_zdoom_child(*c),
{
    let p = c.file_prefix.as_str();
    let ghost z = zdoom_prefixes();
    assert(z[0] == "cvarinfo"@ && z[1] == "decorate"@ && z[2] == "gldefs"@ && z[3] == "menudef"@);
    assert(z[4] == "modeldef"@ && z[5] == "sndinfo"@ && z[6] == "zmapinfo"@ && z[7] == "zscript"@);
    str_eq_ic(p, "cvarinfo") || str_eq_ic(p, "decorate") || str_eq_ic(p, "gldefs") || str_eq_ic(p, "menudef")
        || str_eq_ic(p, "modeldef") || str_eq_ic(p, "sndinfo") || str_eq_ic(p, "zmapinfo") || str_eq_ic(
        p,
        "zscript",
    )
}

/// Decides how a mount's data is to be prepared. A directory mount that
/// matches none of the heuristics is `Misc`.
pub fn resolve_mount_kind(format: MountFormat, is_leaf: bool, children: &[MountChild]) -> (r: MountKind)
    ensures
        r == spec_mount_kind(format, is_leaf, children@),
{
    if format == MountFormat::Wad {
        return MountKind::Wad;
    }
    if is_leaf {
        return MountKind::Misc;
    }
    let mut i: usize = 0;
    while i < children.len()
        invariant
            i <= children@.len(),
            format != MountFormat::Wad,
            !is_leaf,
            forall|j: int| 0 <= j < i ==> !is_meta_toml(#[trigger] children@[j]),
        decreases children@.len() - i,
    {
        if str_eq_ic(children[i].file_name.as_str(), "meta.toml") && children[i].is_text {
            assert(is_meta_toml(children@[i as int]));
            return MountKind::VileTech;
        }
        i = i + 1;
    }
    let mut i: usize = 0;
    while i < children.len()
        invariant
            i <= children@.len(),
            format != MountFormat::Wad,
            !is_leaf,
            !any_meta_toml(children@),
            forall|j: int| 0 <= j < i ==> !is_zdoom_child(#[trigger] children@[j]),
        decreases children@.len() - i,
    {
        if zdoom_child(&children[i]) {
            assert(is_zdoom_child(children@[i as int]));
            return MountKind::ZDoom;
        }
        i = i + 1;
    }
    let mut i: usize = 0;
    while i < children.len()
        invariant
            i <= children@.len(),
            format != MountFormat::Wad,
            !is_leaf,
            !any_meta_toml(children@),
            !any_zdoom_child(children@),
            forall|j: int| 0 <= j < i ==> !is_eternity_child(#[trigger] children@[j]),
        decreases children@.len() - i,
    {
        if str_eq_ic(children[i].file_prefix.as_str(), "edfroot") || str_eq_ic(children[i].file_prefix.as_str(), "emapinfo") {
            assert(is_eternity_child(children@[i as int]));
            return MountKind::Eternity;
        }
        i = i + 1;
    }
    MountKind::Misc
}

/// What a mount says about itself (from its `meta.toml`, if it has one).
#[derive(Debug, Clone)]
pub struct MountMeta {
    pub version: Option<String>,
    /// Human-readable, presented to users in the frontend.
    pub name: Option<String>,
    /// Human-readable, presented to users in the frontend.
    pub description: Option<String>,
    /// Human-readable, presented to users in the frontend.
    pub authors: Vec<String>,
    /// Human-readable, presented to users in the frontend.
    pub copyright: Option<String>,
    /// Allows a package to link to its forum post, homepage, and so on.
    pub links: Vec<String>,
}

/// The view of an optional string.
pub open spec fn opt_view(s: Option<String>) -> Option<Seq<char>> {
    match s {
        Some(x) => Some(x@),
        None => None,
    }
}

pub open spec fn opt_str_view(s: Option<&str>) -> Option<Seq<char>> {
    match s {
        Some(x) => Some(x@),
        None => None,
    }
}

fn opt_str(s: &Option<String>) -> (r: Option<&str>)
    ensures
        opt_str_view(r) == opt_view(*s),
{
    match s {
        Some(x) => Some(x.as_str()),
        None => None,
    }
}

impl MountMeta {
    pub fn name(&self) -> (r: Option<&str>)
        ensures
            opt_str_view(r) == opt_view(self.name),
    {
        opt_str(&self.name)
    }

    pub fn version(&self) -> (r: Option<&str>)
        ensures
            opt_str_view(r) == opt_view(self.version),
    {
        opt_str(&self.version)
    }

    pub fn description(&self) -> (r: Option<&str>)
        ensures
            opt_str_view(r) == opt_view(self.description),
    {
        opt_str(&self.description)
    }

    pub fn authors(&self) -> (r: &[String])
        ensures
            r@ == self.authors@,
    {
        self.authors.as_slice()
    }

    pub fn copyright_info(&self) -> (r: Option<&str>)
        ensures
            opt_str_view(r) == opt_view(self.copyright),
    {
        opt_str(&self.copyright)
    }

    /// User-specified URLs to a forum post, homepage, and so on.
    pub fn public_links(&self) -> (r: &[String])
        ensures
            r@ == self.links@,
    {
        self.links.as_slice()
    }
}

/// The total length of the vectors in `v`.
pub open spec fn total_len<T>(v: Seq<Vec<T>>) -> int
    decreases v.len(),
{
    if v.len() == 0 {
        0
    } else {
        total_len(v.drop_last()) + v.last()@.len()
    }
}

/// Adds up the lengths of the vectors in `v`.
pub fn count_all<T>(v: &Vec<Vec<T>>) -> (r: usize)
    requires
        total_len(v@) <= usize::MAX,
    ensures
        r == total_len(v@),
{
    let mut acc: usize = 0;
    let mut i: usize = 0;
    while i < v.len()
        invariant
            i <= v@.len(),
            total_len(v@) <= usize::MAX,
            acc == total_len(v@.take(i as int)),
        decreases v@.len() - i,
    {
        assert(v@.take(i + 1).drop_last() =~= v@.take(i as int));
        proof {
            lemma_total_len_prefix(v@, i + 1);
        }
        acc = acc + v[i].len();
        i = i + 1;
    }
    assert(v@.take(i as int) =~= v@);
    acc
}

pub proof fn lemma_total_len_nonneg<T>(v: Seq<Vec<T>>)
    ensures
        total_len(v) >= 0,
    decreases v.len(),
{
    if v.len() > 0 {
        lemma_total_len_nonneg(v.drop_last());
    }
}

/// A prefix's total length is no more than the whole's.
pub proof fn lemma_total_len_prefix<T>(v: Seq<Vec<T>>, k: int)
    requires
        0 <= k <= v.len(),
    ensures
        total_len(v.take(k)) <= total_len(v),
    decreases v.len() - k,
{
    if k < v.len() {
        lemma_total_len_prefix(v, k + 1);
        assert(v.take(k + 1).drop_last() =~= v.take(k));
    } else {
        assert(v.take(k) =~= v);
    }
}

/// How a load ended; `M` is the type of mount errors.
#[derive(Debug)]
#[allow(inconsistent_fields)]
pub enum LoadOutcome<M> {
    /// A load request was given with a zero-length load order.
    NoOp,
    /// A cancel was requested externally. The catalog's state was left unchanged.
    Cancelled,
    /// One or more fatal errors prevented a successful mount. Every new mount
    /// gets a sub-vec, but that sub-vec may be empty.
    MountFail { errors: Vec<Vec<M>> },
    /// Mounting succeeded, but one or more fatal errors prevented successful
    /// asset preparation.
    PrepFail { errors: Vec<Vec<PrepError>> },
    /// Loading was successful, but non-fatal errors or warnings may have arisen.
    Loaded { mount: Vec<Vec<M>>, prep: Vec<Vec<PrepError>> },
}

/// How many errors a load outcome carries.
pub open spec fn outcome_errs<M>(o: LoadOutcome<M>) -> int {
    match o {
        LoadOutcome::NoOp | LoadOutcome::Cancelled => 0,
        LoadOutcome::MountFail { errors } => total_len(errors@),
        LoadOutcome::PrepFail { errors } => total_len(errors@),
        LoadOutcome::Loaded { mount, prep } => total_len(mount@) + total_len(prep@),
    }
}

impl<M> LoadOutcome<M> {
    /// The number of errors, over all mounts.
    pub fn num_errs(&self) -> (r: usize)
        requires
            outcome_errs(*self) <= usize::MAX,
        ensures
            r == outcome_errs(*self),
    {
        match self {
            LoadOutcome::NoOp | LoadOutcome::Cancelled => 0,
            LoadOutcome::MountFail { errors } => count_all(errors),
            LoadOutcome::PrepFail { errors } => count_all(errors),
            LoadOutcome::Loaded { mount, prep } => {
                proof {
                    lemma_total_len_nonneg(mount@);
                    lemma_total_len_nonneg(prep@);
                }
                count_all(mount) + count_all(prep)
            },
        }
    }
}

} // verus!
