//! Sanity checks on a level put together from its lumps: references between
//! records that point nowhere, textures that no loaded image provides, and a
//! missing player start.

use vstd::prelude::*;

use crate::level::{
    BspNode, BspNodeChild, Level, LevelError, LineDef, Sector, Seg, SideDef, SideTexture, SubSector, Thing,
};
use crate::support::str_eq;

verus! {

/// The errors that `f` finds in each element of `s`, in order.
pub open spec fn errs_fold<T>(s: Seq<T>, f: spec_fn(int, T) -> Seq<LevelError>) -> Seq<LevelError>
    decreases s.len(),
{
    if s.len() == 0 {
        Seq::empty()
    } else {
        errs_fold(s.drop_last(), f) + f(s.len() - 1, s.last())
    }
}

pub proof fn lemma_fold_step<T>(s: Seq<T>, f: spec_fn(int, T) -> Seq<LevelError>, i: int)
    requires
        0 <= i < s.len(),
    ensures
        errs_fold(s.take(i + 1), f) == errs_fold(s.take(i), f) + f(i, s[i]),
{
    assert(s.take(i + 1).drop_last() =~= s.take(i));
}

/// One error if `bad`, else none.
pub open spec fn err_if(bad: bool, e: LevelError) -> Seq<LevelError> {
    if bad {
        seq![e]
    } else {
        Seq::empty()
    }
}

/// Whether some loaded image has the nickname `name`.
pub open spec fn is_known(images: Seq<String>, name: Seq<char>) -> bool {
    exists|j: int| 0 <= j < images.len() && (#[trigger] images[j])@ == name
}

pub open spec fn linedef_errs(sides_len: usize) -> spec_fn(int, LineDef) -> Seq<LevelError> {
    |i: int, l: LineDef|
        err_if(
            l.side_right >= sides_len,
            LevelError::InvalidLinedefSide { linedef: i as usize, left: false, sidedef: l.side_right, sides_len },
        ) + match l.side_left {
            Some(s) => err_if(
                s >= sides_len,
                LevelError::InvalidLinedefSide { linedef: i as usize, left: true, sidedef: s, sides_len },
            ),
            None => Seq::empty(),
        }
}

/// Each child of a node is reported, as either an invalid subsector or an
/// invalid subnode.
pub open spec fn child_err(i: int, left: bool, c: BspNodeChild, ssectors_len: usize, nodes_len: usize) -> LevelError {
    match c {
        BspNodeChild::SubSector(ssector) => LevelError::InvalidNodeSubsector {
            node: i as usize,
            left,
            ssector,
            ssectors_len,
        },
        BspNodeChild::SubNode(subnode) => LevelError::InvalidSubnode { node: i as usize, left, subnode, nodes_len },
    }
}

pub open spec fn node_errs(ssectors_len: usize, nodes_len: usize) -> spec_fn(int, BspNode) -> Seq<LevelError> {
    |i: int, n: BspNode|
        seq![child_err(i, true, n.child_l, ssectors_len, nodes_len), child_err(i, false, n.child_r, ssectors_len, nodes_len)]
}

/// An error if the named flat or texture is given but no image provides it.
pub open spec fn unknown_tex(images: Seq<String>, name: Option<String>, e: spec_fn(String) -> LevelError) -> Seq<LevelError> {
    match name {
        Some(n) => err_if(!is_known(images, n@), e(n)),
        None => Seq::empty(),
    }
}

pub open spec fn sector_errs(images: Seq<String>) -> spec_fn(int, Sector) -> Seq<LevelError> {
    |i: int, s: Sector|
        unknown_tex(images, s.tex_floor, |n: String| LevelError::UnknownFlat { sector: i as usize, ceiling: false, name: n })
            + unknown_tex(images, s.tex_ceil, |n: String| LevelError::UnknownFlat { sector: i as usize, ceiling: true, name: n })
}

pub open spec fn seg_errs(lines_len: usize) -> spec_fn(int, Seg) -> Seq<LevelError> {
    |i: int, s: Seg|
        err_if(s.linedef >= lines_len, LevelError::InvalidSegLinedef { seg: i as usize, linedef: s.linedef, lines_len })
}

pub open spec fn sidedef_errs(images: Seq<String>, sectors_len: usize) -> spec_fn(int, SideDef) -> Seq<LevelError> {
    |i: int, s: SideDef|
        unknown_tex(images, s.tex_bottom, |n: String| LevelError::UnknownSideTex { sidedef: i as usize, which: SideTexture::Bottom, name: n })
            + unknown_tex(images, s.tex_mid, |n: String| LevelError::UnknownSideTex { sidedef: i as usize, which: SideTexture::Middle, name: n })
            + unknown_tex(images, s.tex_top, |n: String| LevelError::UnknownSideTex { sidedef: i as usize, which: SideTexture::Top, name: n })
            + err_if(s.sector >= sectors_len, LevelError::InvalidSidedefSector { sidedef: i as usize, sector: s.sector, sectors_len })
}

pub open spec fn subsector_errs(segs_len: usize) -> spec_fn(int, SubSector) -> Seq<LevelError> {
    |i: int, s: SubSector|
        err_if(s.seg >= segs_len, LevelError::InvalidSubsectorSeg { subsector: i as usize, seg: s.seg, segs_len })
}

/// Whether some thing is player 1's start (editor number 1).
pub open spec fn has_player1_start(things: Seq<Thing>) -> bool {
    exists|j: int| 0 <= j < things.len() && (#[trigger] things[j]).ed_num == 1
}

/// All the problems the sanity checks find in `level`, in the order they are
/// checked: linedefs, nodes, sectors, segs, sidedefs, subsectors, then the
/// player start. `images` holds the nicknames of the images loaded so far.
pub open spec fn spec_sanity_errors(level: Level, images: Seq<String>) -> Seq<LevelError> {
    errs_fold(level.linedefs@, linedef_errs(level.sidedefs.len()))
        + errs_fold(level.nodes@, node_errs(level.subsectors.len(), level.nodes.len()))
        + errs_fold(level.sectors@, sector_errs(images))
        + errs_fold(level.segs@, seg_errs(level.linedefs.len()))
        + errs_fold(level.sidedefs@, sidedef_errs(images, level.sectors.len()))
        + errs_fold(level.subsectors@, subsector_errs(level.segs.len()))
        + err_if(!has_player1_start(level.things@), LevelError::NoPlayer1Start)
}

proof fn lemma_concat_contains(a: Seq<LevelError>, b: Seq<LevelError>, e: LevelError)
    ensures
        (a.contains(e) || b.contains(e)) ==> (a + b).contains(e),
{
    if a.contains(e) {
        let k = choose|k: int| 0 <= k < a.len() && a[k] == e;
        assert((a + b)[k] == e);
    } else if b.contains(e) {
        let k = choose|k: int| 0 <= k < b.len() && b[k] == e;
        assert((a + b)[a.len() + k] == e);
    }
}

/// What `f` finds in one element is among what it finds in all of them.
proof fn lemma_fold_contains<T>(s: Seq<T>, f: spec_fn(int, T) -> Seq<LevelError>, i: int, e: LevelError)
    requires
        0 <= i < s.len(),
        f(i, s[i]).contains(e),
    ensures
        errs_fold(s, f).contains(e),
    decreases s.len(),
{
    if i == s.len() - 1 {
        lemma_concat_contains(errs_fold(s.drop_last(), f), f(s.len() - 1, s.last()), e);
    } else {
        assert(s.drop_last()[i] == s[i]);
        lemma_fold_contains(s.drop_last(), f, i, e);
        lemma_concat_contains(errs_fold(s.drop_last(), f), f(s.len() - 1, s.last()), e);
    }
}

/// Each error found in the sectors is among all the errors found.
proof fn lemma_sector_err_reported(level: Level, images: Seq<String>, i: int, e: LevelError)
    requires
        0 <= i < level.sectors@.len(),
        sector_errs(images)(i, level.sectors@[i]).contains(e),
    ensures
        spec_sanity_errors(level, images).contains(e),
{
    let l = errs_fold(level.linedefs@, linedef_errs(level.sidedefs.len()));
    let n = errs_fold(level.nodes@, node_errs(level.subsectors.len(), level.nodes.len()));
    let s = errs_fold(level.sectors@, sector_errs(images));
    let g = errs_fold(level.segs@, seg_errs(level.linedefs.len()));
    let d = errs_fold(level.sidedefs@, sidedef_errs(images, level.sectors.len()));
    let u = errs_fold(level.subsectors@, subsector_errs(level.segs.len()));
    let p = err_if(!has_player1_start(level.things@), LevelError::NoPlayer1Start);
    lemma_fold_contains(level.sectors@, sector_errs(images), i, e);
    lemma_concat_contains(l + n, s, e);
    lemma_concat_contains(l + n + s, g, e);
    lemma_concat_contains(l + n + s + g, d, e);
    lemma_concat_contains(l + n + s + g + d, u, e);
    lemma_concat_contains(l + n + s + g + d + u, p, e);
}

/// Each error found in the sidedefs is among all the errors found.
proof fn lemma_sidedef_err_reported(level: Level, images: Seq<String>, i: int, e: LevelError)
    requires
        0 <= i < level.sidedefs@.len(),
        sidedef_errs(images, level.sectors.len())(i, level.sidedefs@[i]).contains(e),
    ensures
        spec_sanity_errors(level, images).contains(e),
{
    let l = errs_fold(level.linedefs@, linedef_errs(level.sidedefs.len()));
    let n = errs_fold(level.nodes@, node_errs(level.subsectors.len(), level.nodes.len()));
    let s = errs_fold(level.sectors@, sector_errs(images));
    let g = errs_fold(level.segs@, seg_errs(level.linedefs.len()));
    let d = errs_fold(level.sidedefs@, sidedef_errs(images, level.sectors.len()));
    let u = errs_fold(level.subsectors@, subsector_errs(level.segs.len()));
    let p = err_if(!has_player1_start(level.things@), LevelError::NoPlayer1Start);
    lemma_fold_contains(level.sidedefs@, sidedef_errs(images, level.sectors.len()), i, e);
    lemma_concat_contains(l + n + s + g, d, e);
    lemma_concat_contains(l + n + s + g + d, u, e);
    lemma_concat_contains(l + n + s + g + d + u, p, e);
}

/// A sector whose floor flat (or, with `ceiling`, whose ceiling flat) names
/// no loaded image is reported with that name.
pub proof fn law_unknown_flat_is_reported(level: Level, images: Seq<String>, i: int, ceiling: bool)
    requires
        0 <= i < level.sectors@.len(),
        (if ceiling { level.sectors@[i].tex_ceil } else { level.sectors@[i].tex_floor }) is Some,
        forall|j: int|
            0 <= j < images.len() ==> (#[trigger] images[j])@ != (if ceiling {
                level.sectors@[i].tex_ceil
            } else {
                level.sectors@[i].tex_floor
            }).unwrap()@,
    ensures
        spec_sanity_errors(level, images).contains(
            LevelError::UnknownFlat {
                sector: i as usize,
                ceiling,
                name: (if ceiling { level.sectors@[i].tex_ceil } else { level.sectors@[i].tex_floor }).unwrap(),
            },
        ),
{
    let sec = level.sectors@[i];
    let name = (if ceiling { sec.tex_ceil } else { sec.tex_floor }).unwrap();
    let e = LevelError::UnknownFlat { sector: i as usize, ceiling, name };
    let fl = unknown_tex(images, sec.tex_floor, |n: String| LevelError::UnknownFlat { sector: i as usize, ceiling: false, name: n });
    let ce = unknown_tex(images, sec.tex_ceil, |n: String| LevelError::UnknownFlat { sector: i as usize, ceiling: true, name: n });
    assert(!is_known(images, name@));
    if ceiling {
        assert(ce[0] == e);
    } else {
        assert(fl[0] == e);
    }
    lemma_concat_contains(fl, ce, e);
    assert(sector_errs(images)(i, sec) == fl + ce);
    lemma_sector_err_reported(level, images, i, e);
}

/// The texture of `s` at `which`.
pub open spec fn side_texture(s: SideDef, which: SideTexture) -> Option<String> {
    match which {
        SideTexture::Top => s.tex_top,
        SideTexture::Middle => s.tex_mid,
        SideTexture::Bottom => s.tex_bottom,
    }
}

/// A sidedef whose top, middle or bottom texture names no loaded image is
/// reported with that name.
pub proof fn law_unknown_side_texture_is_reported(level: Level, images: Seq<String>, i: int, which: SideTexture)
    requires
        0 <= i < level.sidedefs@.len(),
        side_texture(level.sidedefs@[i], which) is Some,
        forall|j: int|
            0 <= j < images.len() ==> (#[trigger] images[j])@ != side_texture(level.sidedefs@[i], which).unwrap()@,
    ensures
        spec_sanity_errors(level, images).contains(
            LevelError::UnknownSideTex {
                sidedef: i as usize,
                which,
                name: side_texture(level.sidedefs@[i], which).unwrap(),
            },
        ),
{
    let sd = level.sidedefs@[i];
    let name = side_texture(sd, which).unwrap();
    let e = LevelError::UnknownSideTex { sidedef: i as usize, which, name };
    let t1 = unknown_tex(images, sd.tex_bottom, |n: String| LevelError::UnknownSideTex { sidedef: i as usize, which: SideTexture::Bottom, name: n });
    let t2 = unknown_tex(images, sd.tex_mid, |n: String| LevelError::UnknownSideTex { sidedef: i as usize, which: SideTexture::Middle, name: n });
    let t3 = unknown_tex(images, sd.tex_top, |n: String| LevelError::UnknownSideTex { sidedef: i as usize, which: SideTexture::Top, name: n });
    let t4 = err_if(sd.sector >= level.sectors.len(), LevelError::InvalidSidedefSector { sidedef: i as usize, sector: sd.sector, sectors_len: level.sectors.len() });
    assert(!is_known(images, name@));
    match which {
        SideTexture::Bottom => {
            assert(t1[0] == e);
            lemma_concat_contains(t1, t2, e);
            lemma_concat_contains(t1 + t2, t3, e);
        },
        SideTexture::Middle => {
            assert(t2[0] == e);
            lemma_concat_contains(t1, t2, e);
            lemma_concat_contains(t1 + t2, t3, e);
        },
        SideTexture::Top => {
            assert(t3[0] == e);
            lemma_concat_contains(t1 + t2, t3, e);
        },
    }
    lemma_concat_contains(t1 + t2 + t3, t4, e);
    assert(sidedef_errs(images, level.sectors.len())(i, sd) == t1 + t2 + t3 + t4);
    lemma_sidedef_err_reported(level, images, i, e);
}

/// A level where no thing has editor number 1 is reported as lacking
/// player 1's start, as the last error found.
pub proof fn law_missing_player1_start_is_reported(level: Level, images: Seq<String>)
    ensures
        (forall|j: int| 0 <= j < level.things@.len() ==> (#[trigger] level.things@[j]).ed_num != 1) ==> spec_sanity_errors(
            level,
            images,
        ).last() == LevelError::NoPlayer1Start,
        (forall|j: int| 0 <= j < level.things@.len() ==> (#[trigger] level.things@[j]).ed_num != 1) ==> spec_sanity_errors(
            level,
            images,
        ).contains(LevelError::NoPlayer1Start),
{
    let all = spec_sanity_errors(level, images);
    if forall|j: int| 0 <= j < level.things@.len() ==> (#[trigger] level.things@[j]).ed_num != 1 {
        assert(!has_player1_start(level.things@));
        assert(all[all.len() - 1] == LevelError::NoPlayer1Start);
    }
}

/// Whether an image nicknamed `name` is among `images`.
pub fn image_known(images: &[String], name: &String) -> (r: bool)
    ensures
        r == is_known(images@, name@),
{
    let mut j: usize = 0;
    while j < images.len()
        invariant
            j <= images@.len(),
            forall|k: int| 0 <= k < j ==> (#[trigger] images@[k])@ != name@,
        decreases images@.len() - j,
    {
        if str_eq(images[j].as_str(), name.as_str()) {
            return true;
        }
        j = j + 1;
    }
    false
}

fn check_linedefs(level: &Level, errs: &mut Vec<LevelError>)
    ensures
        final(errs)@ == old(errs)@ + errs_fold(level.linedefs@, linedef_errs(level.sidedefs.len())),
{
    let ghost f = linedef_errs(level.sidedefs.len());
    let ghost start = errs@;
    let sides_len = level.sidedefs.len();
    let mut i: usize = 0;
    while i < level.linedefs.len()
        invariant
            i <= level.linedefs@.len(),
            sides_len == level.sidedefs.len(),
            f == linedef_errs(level.sidedefs.len()),
            errs@ == start + errs_fold(level.linedefs@.take(i as int), f),
        decreases level.linedefs@.len() - i,
    {
        proof {
            lemma_fold_step(level.linedefs@, f, i as int);
        }
        let l = &level.linedefs[i];
        let ghost before = errs@;
        if l.side_right >= sides_len {
            errs.push(LevelError::InvalidLinedefSide { linedef: i, left: false, sidedef: l.side_right, sides_len });
        }
        match l.side_left {
            Some(s) => {
                if s >= sides_len {
                    errs.push(LevelError::InvalidLinedefSide { linedef: i, left: true, sidedef: s, sides_len });
                }
            },
            None => {},
        }
        assert(errs@ =~= before + f(i as int, level.linedefs@[i as int]));
        i = i + 1;
    }
    assert(level.linedefs@.take(i as int) =~= level.linedefs@);
}

fn node_child_err(i: usize, left: bool, c: BspNodeChild, ssectors_len: usize, nodes_len: usize) -> (r: LevelError)
    ensures
        r == child_err(i as int, left, c, ssectors_len, nodes_len),
{
    match c {
        BspNodeChild::SubSector(ssector) => LevelError::InvalidNodeSubsector { node: i, left, ssector, ssectors_len },
        BspNodeChild::SubNode(subnode) => LevelError::InvalidSubnode { node: i, left, subnode, nodes_len },
    }
}

fn check_nodes(level: &Level, errs: &mut Vec<LevelError>)
    ensures
        final(errs)@ == old(errs)@ + errs_fold(level.nodes@, node_errs(level.subsectors.len(), level.nodes.len())),
{
    let ghost f = node_errs(level.subsectors.len(), level.nodes.len());
    let ghost start = errs@;
    let ss_len = level.subsectors.len();
    let nodes_len = level.nodes.len();
    let mut i: usize = 0;
    while i < level.nodes.len()
        invariant
            i <= level.nodes@.len(),
            ss_len == level.subsectors.len(),
            nodes_len == level.nodes.len(),
            f == node_errs(level.subsectors.len(), level.nodes.len()),
            errs@ == start + errs_fold(level.nodes@.take(i as int), f),
        decreases level.nodes@.len() - i,
    {
        proof {
            lemma_fold_step(level.nodes@, f, i as int);
        }
        let n = &level.nodes[i];
        let ghost before = errs@;
        errs.push(node_child_err(i, true, n.child_l, ss_len, nodes_len));
        errs.push(node_child_err(i, false, n.child_r, ss_len, nodes_len));
        assert(errs@ =~= before + f(i as int, level.nodes@[i as int]));
        i = i + 1;
    }
    assert(level.nodes@.take(i as int) =~= level.nodes@);
}

fn check_sectors(level: &Level, images: &[String], errs: &mut Vec<LevelError>)
    ensures
        final(errs)@ == old(errs)@ + errs_fold(level.sectors@, sector_errs(images@)),
{
    let ghost f = sector_errs(images@);
    let ghost start = errs@;
    let mut i: usize = 0;
    while i < level.sectors.len()
        invariant
            i <= level.sectors@.len(),
            f == sector_errs(images@),
            errs@ == start + errs_fold(level.sectors@.take(i as int), f),
        decreases level.sectors@.len() - i,
    {
        proof {
            lemma_fold_step(level.sectors@, f, i as int);
        }
        let s = &level.sectors[i];
        let ghost before = errs@;
        match &s.tex_floor {
            Some(n) => {
                if !image_known(images, n) {
                    errs.push(LevelError::UnknownFlat { sector: i, ceiling: false, name: n.clone() });
                }
            },
            None => {},
        }
        match &s.tex_ceil {
            Some(n) => {
                if !image_known(images, n) {
                    errs.push(LevelError::UnknownFlat { sector: i, ceiling: true, name: n.clone() });
                }
            },
            None => {},
        }
        assert(errs@ =~= before + f(i as int, level.sectors@[i as int]));
        i = i + 1;
    }
    assert(level.sectors@.take(i as int) =~= level.sectors@);
}

fn check_segs(level: &Level, errs: &mut Vec<LevelError>)
    ensures
        final(errs)@ == old(errs)@ + errs_fold(level.segs@, seg_errs(level.linedefs.len())),
{
    let ghost f = seg_errs(level.linedefs.len());
    let ghost start = errs@;
    let lines_len = level.linedefs.len();
    let mut i: usize = 0;
    while i < level.segs.len()
        invariant
            i <= level.segs@.len(),
            lines_len == level.linedefs.len(),
            f == seg_errs(level.linedefs.len()),
            errs@ == start + errs_fold(level.segs@.take(i as int), f),
        decreases level.segs@.len() - i,
    {
        proof {
            lemma_fold_step(level.segs@, f, i as int);
        }
        let s = &level.segs[i];
        let ghost before = errs@;
        if s.linedef >= lines_len {
            errs.push(LevelError::InvalidSegLinedef { seg: i, linedef: s.linedef, lines_len });
        }
        assert(errs@ =~= before + f(i as int, level.segs@[i as int]));
        i = i + 1;
    }
    assert(level.segs@.take(i as int) =~= level.segs@);
}

fn check_side_tex(
    images: &[String],
    name: &Option<String>,
    i: usize,
    which: SideTexture,
    errs: &mut Vec<LevelError>,
)
    ensures
        final(errs)@ == old(errs)@ + unknown_tex(
            images@,
            *name,
            |n: String| LevelError::UnknownSideTex { sidedef: i, which, name: n },
        ),
{
    match name {
        Some(n) => {
            if !image_known(images, n) {
                errs.push(LevelError::UnknownSideTex { sidedef: i, which, name: n.clone() });
            }
        },
        None => {},
    }
}

fn check_sidedef(images: &[String], s: &SideDef, i: usize, sectors_len: usize, errs: &mut Vec<LevelError>)
    ensures
        final(errs)@ == old(errs)@ + sidedef_errs(images@, sectors_len)(i as int, *s),
{
    let ghost a = errs@;
    check_side_tex(images, &s.tex_bottom, i, SideTexture::Bottom, errs);
    let ghost b = errs@;
    check_side_tex(images, &s.tex_mid, i, SideTexture::Middle, errs);
    let ghost c = errs@;
    check_side_tex(images, &s.tex_top, i, SideTexture::Top, errs);
    let ghost d = errs@;
    if s.sector >= sectors_len {
        errs.push(LevelError::InvalidSidedefSector { sidedef: i, sector: s.sector, sectors_len });
    }
    let ghost t1 = unknown_tex(images@, s.tex_bottom, |n: String| LevelError::UnknownSideTex { sidedef: i, which: SideTexture::Bottom, name: n });
    let ghost t2 = unknown_tex(images@, s.tex_mid, |n: String| LevelError::UnknownSideTex { sidedef: i, which: SideTexture::Middle, name: n });
    let ghost t3 = unknown_tex(images@, s.tex_top, |n: String| LevelError::UnknownSideTex { sidedef: i, which: SideTexture::Top, name: n });
    let ghost t4 = err_if(s.sector >= sectors_len, LevelError::InvalidSidedefSector { sidedef: i, sector: s.sector, sectors_len });
    assert(errs@ =~= a + (t1 + t2 + t3 + t4));
}

fn check_sidedefs(level: &Level, images: &[String], errs: &mut Vec<LevelError>)
    ensures
        final(errs)@ == old(errs)@ + errs_fold(level.sidedefs@, sidedef_errs(images@, level.sectors.len())),
{
    let ghost f = sidedef_errs(images@, level.sectors.len());
    let ghost start = errs@;
    let sectors_len = level.sectors.len();
    let mut i: usize = 0;
    while i < level.sidedefs.len()
        invariant
            i <= level.sidedefs@.len(),
            sectors_len == level.sectors.len(),
            f == sidedef_errs(images@, level.sectors.len()),
            errs@ == start + errs_fold(level.sidedefs@.take(i as int), f),
        decreases level.sidedefs@.len() - i,
    {
        proof {
            lemma_fold_step(level.sidedefs@, f, i as int);
        }
        check_sidedef(images, &level.sidedefs[i], i, sectors_len, errs);
        i = i + 1;
    }
    assert(level.sidedefs@.take(i as int) =~= level.sidedefs@);
}

fn check_subsectors(level: &Level, errs: &mut Vec<LevelError>)
    ensures
        final(errs)@ == old(errs)@ + errs_fold(level.subsectors@, subsector_errs(level.segs.len())),
{
    let ghost f = subsector_errs(level.segs.len());
    let ghost start = errs@;
    let segs_len = level.segs.len();
    let mut i: usize = 0;
    while i < level.subsectors.len()
        invariant
            i <= level.subsectors@.len(),
            segs_len == level.segs.len(),
            f == subsector_errs(level.segs.len()),
            errs@ == start + errs_fold(level.subsectors@.take(i as int), f),
        decreases level.subsectors@.len() - i,
    {
        proof {
            lemma_fold_step(level.subsectors@, f, i as int);
        }
        let s = &level.subsectors[i];
        let ghost before = errs@;
        if s.seg >= segs_len {
            errs.push(LevelError::InvalidSubsectorSeg { subsector: i, seg: s.seg, segs_len });
        }
        assert(errs@ =~= before + f(i as int, level.subsectors@[i as int]));
        i = i + 1;
    }
    assert(level.subsectors@.take(i as int) =~= level.subsectors@);
}

/// Whether some thing in `things` is player 1's start.
pub fn find_player1_start(things: &[Thing]) -> (r: bool)
    ensures
        r == has_player1_start(things@),
{
    let mut j: usize = 0;
    while j < things.len()
        invariant
            j <= things@.len(),
            forall|k: int| 0 <= k < j ==> (#[trigger] things@[k]).ed_num != 1,
        decreases things@.len() - j,
    {
        if things[j].ed_num == 1 {
            return true;
        }
        j = j + 1;
    }
    false
}

/// Runs the sanity checks over `level`; `images` holds the nicknames of the
/// images loaded so far. Returns the problems found, in the order checked.
pub fn sanity_checks(level: &Level, images: &[String]) -> (r: Vec<LevelError>)
    ensures
        r@ == spec_sanity_errors(*level, images@),
{
    let mut errs: Vec<LevelError> = Vec::new();
    check_linedefs(level, &mut errs);
    check_nodes(level, &mut errs);
    check_sectors(level, images, &mut errs);
    check_segs(level, &mut errs);
    check_sidedefs(level, images, &mut errs);
    check_subsectors(level, &mut errs);
    let ghost before = errs@;
    if !find_player1_start(level.things.as_slice()) {
        errs.push(LevelError::NoPlayer1Start);
    }
    assert(errs@ =~= before + err_if(!has_player1_start(level.things@), LevelError::NoPlayer1Start));
    assert(errs@ =~= spec_sanity_errors(*level, images@));
    errs
}

} // verus!
