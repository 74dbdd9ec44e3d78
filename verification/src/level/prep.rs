//! Putting a vanilla (Doom- or Hexen-format) level together from the lumps
//! under its marker.

use vstd::prelude::*;

use crate::level::check::{sanity_checks, spec_sanity_errors};
use crate::level::read::{
    linedef_matches, read_linedefs, read_nodes, read_sectors, read_segs, read_sidedefs, read_subsectors,
    read_things_doom, read_things_hexen, read_vertexes, sector_matches, sidedef_matches, spec_node, spec_seg,
    spec_subsector, spec_thing_doom, spec_thing_hexen, spec_vertex,
};
use crate::level::{Level, LevelError, LevelFormat};
use crate::support::str_eq;
use crate::vfs::{bytes_of as file_bytes, has_key, lookup, prefix_of, FileRef, FileView};

verus! {

/// A file under a level's marker: its name without extension, its path, and
/// its content, or `None` if it cannot be read as bytes.
#[derive(Debug, Clone)]
pub struct Lump {
    pub name: String,
    pub path: String,
    pub content: Option<Vec<u8>>,
}

/// What became of an attempt to read a directory as a vanilla level.
#[derive(Debug)]
pub enum LevelPrep {
    /// The directory lacks a lump that every vanilla level has.
    NotALevel,
    /// The directory is a level, but a lump could not be read or is malformed.
    Failed(Vec<LevelError>),
    /// The level, with the problems its sanity checks found.
    Prepared(Level, Vec<LevelError>),
}

/// The position of the last lump named `name`, if any.
pub open spec fn find_last(lumps: Seq<Lump>, name: Seq<char>) -> Option<int>
    decreases lumps.len(),
{
    if lumps.len() == 0 {
        None
    } else if lumps.last().name@ == name {
        Some(lumps.len() - 1)
    } else {
        find_last(lumps.drop_last(), name)
    }
}

proof fn lemma_find_last_bounds(lumps: Seq<Lump>, name: Seq<char>)
    ensures
        find_last(lumps, name) matches Some(i) ==> 0 <= i < lumps.len() && lumps[i].name@ == name,
    decreases lumps.len(),
{
    if lumps.len() > 0 {
        lemma_find_last_bounds(lumps.drop_last(), name);
    }
}

/// Finds the last lump named `name`.
pub fn find_lump(lumps: &[Lump], name: &str) -> (r: Option<usize>)
    ensures
        r matches Some(i) ==> find_last(lumps@, name@) == Some(i as int),
        r is None ==> find_last(lumps@, name@) is None,
{
    let mut found: Option<usize> = None;
    let mut i: usize = 0;
    while i < lumps.len()
        invariant
            i <= lumps@.len(),
            found matches Some(j) ==> find_last(lumps@.take(i as int), name@) == Some(j as int),
            found is None ==> find_last(lumps@.take(i as int), name@) is None,
        decreases lumps@.len() - i,
    {
        assert(lumps@.take(i + 1).drop_last() =~= lumps@.take(i as int));
        if str_eq(lumps[i].name.as_str(), name) {
            found = Some(i);
        }
        i = i + 1;
    }
    assert(lumps@.take(i as int) =~= lumps@);
    found
}

/// The first of the lumps at `idxs` that cannot be read, if any.
pub open spec fn first_unreadable(lumps: Seq<Lump>, idxs: Seq<int>) -> Option<int>
    decreases idxs.len(),
{
    if idxs.len() == 0 {
        None
    } else if lumps[idxs[0]].content is None {
        Some(idxs[0])
    } else {
        first_unreadable(lumps, idxs.drop_first())
    }
}

pub open spec fn lump_len(l: Lump) -> int {
    l.content->0@.len() as int
}

/// For each pair of a lump position and a record size, in order, an error if
/// the lump's length is no multiple of the record size.
pub open spec fn malformed(lumps: Seq<Lump>, checks: Seq<(int, int)>) -> Seq<LevelError>
    decreases checks.len(),
{
    if checks.len() == 0 {
        Seq::empty()
    } else {
        let c = checks.last();
        malformed(lumps, checks.drop_last()) + if lump_len(lumps[c.0]) % c.1 != 0 {
            seq![LevelError::MalformedFile(lumps[c.0].path)]
        } else {
            Seq::empty()
        }
    }
}

/// The names of the lumps every vanilla level has, in the order their
/// readability is checked.
pub open spec fn required() -> Seq<Seq<char>> {
    seq!["LINEDEFS"@, "NODES"@, "SECTORS"@, "SEGS"@, "SIDEDEFS"@, "SSECTORS"@, "THINGS"@, "VERTEXES"@]
}

/// Where the required lumps are, if present.
pub open spec fn required_idx(lumps: Seq<Lump>) -> Seq<Option<int>> {
    required().map_values(|n: Seq<char>| find_last(lumps, n))
}

/// Where the required lumps are, once all are known to be present.
pub open spec fn positions(lumps: Seq<Lump>) -> Seq<int> {
    required_idx(lumps).map_values(|o: Option<int>| o->0)
}

/// Whether `level` holds exactly the records decoded from the lumps at the
/// given positions, under the given name and format.
pub open spec fn level_from(level: Level, name: Seq<char>, lumps: Seq<Lump>, idx: Seq<int>, hexen: bool) -> bool {
    let ld = lumps[idx[0]].content->0@;
    let nd = lumps[idx[1]].content->0@;
    let sc = lumps[idx[2]].content->0@;
    let sg = lumps[idx[3]].content->0@;
    let sd = lumps[idx[4]].content->0@;
    let ss = lumps[idx[5]].content->0@;
    let th = lumps[idx[6]].content->0@;
    let vx = lumps[idx[7]].content->0@;
    &&& level.name@ == name
    &&& level.format == (if hexen { LevelFormat::Hexen } else { LevelFormat::Doom })
    &&& level.linedefs@.len() == ld.len() / 14
    &&& forall|k: int| 0 <= k < level.linedefs@.len() ==> linedef_matches(#[trigger] level.linedefs@[k], ld, 14 * k)
    &&& level.nodes@.len() == nd.len() / 28
    &&& forall|k: int| 0 <= k < level.nodes@.len() ==> #[trigger] level.nodes@[k] == spec_node(nd, 28 * k)
    &&& level.sectors@.len() == sc.len() / 26
    &&& forall|k: int| 0 <= k < level.sectors@.len() ==> sector_matches(#[trigger] level.sectors@[k], sc, 26 * k)
    &&& level.segs@.len() == sg.len() / 12
    &&& forall|k: int| 0 <= k < level.segs@.len() ==> #[trigger] level.segs@[k] == spec_seg(sg, 12 * k)
    &&& level.sidedefs@.len() == sd.len() / 30
    &&& forall|k: int| 0 <= k < level.sidedefs@.len() ==> sidedef_matches(#[trigger] level.sidedefs@[k], sd, 30 * k)
    &&& level.subsectors@.len() == ss.len() / 4
    &&& forall|k: int| 0 <= k < level.subsectors@.len() ==> #[trigger] level.subsectors@[k] == spec_subsector(ss, 4 * k)
    &&& level.vertices@.len() == vx.len() / 4
    &&& forall|k: int| 0 <= k < level.vertices@.len() ==> #[trigger] level.vertices@[k] == spec_vertex(vx, 4 * k)
    &&& if hexen {
        &&& level.things@.len() == th.len() / 20
        &&& forall|k: int| 0 <= k < level.things@.len() ==> #[trigger] level.things@[k] == spec_thing_hexen(th, 20 * k)
    } else {
        &&& level.things@.len() == th.len() / 10
        &&& forall|k: int| 0 <= k < level.things@.len() ==> #[trigger] level.things@[k] == spec_thing_doom(th, 10 * k)
    }
}

/// What reading the lumps of the directory `name` as a vanilla level gives:
/// not a level if a required lump is missing; a failure giving the path of
/// the first unreadable required lump; a failure giving the path of every
/// lump whose size is no multiple of its record size; otherwise the level, with the problems its
/// sanity checks find. A BEHAVIOR lump makes it a Hexen-format level.
pub open spec fn prep_matches(r: LevelPrep, name: Seq<char>, lumps: Seq<Lump>, images: Seq<String>) -> bool {
    let idx = required_idx(lumps);
    if exists|j: int| 0 <= j < 8 && (#[trigger] idx[j]) is None {
        r is NotALevel
    } else {
        let pos = positions(lumps);
        match first_unreadable(lumps, pos) {
            Some(u) => r matches LevelPrep::Failed(errs) && errs@ == seq![LevelError::UnreadableFile(lumps[u].path)],
            None => {
                let bad = malformed(
                    lumps,
                    seq![(pos[0], 14), (pos[2], 26), (pos[3], 12), (pos[4], 30), (pos[5], 4), (pos[6], 10), (pos[7], 4)],
                );
                if bad.len() > 0 {
                    r matches LevelPrep::Failed(errs) && errs@ == bad
                } else {
                    r matches LevelPrep::Prepared(level, errs) && level_from(
                        level,
                        name,
                        lumps,
                        pos,
                        find_last(lumps, "BEHAVIOR"@) is Some,
                    ) && errs@ == spec_sanity_errors(level, images)
                }
            },
        }
    }
}

proof fn lemma_all_readable(lumps: Seq<Lump>, idxs: Seq<int>)
    requires
        first_unreadable(lumps, idxs) is None,
    ensures
        forall|k: int| 0 <= k < idxs.len() ==> (#[trigger] lumps[idxs[k]]).content is Some,
    decreases idxs.len(),
{
    if idxs.len() > 0 {
        lemma_all_readable(lumps, idxs.drop_first());
        assert forall|k: int| 0 <= k < idxs.len() implies (#[trigger] lumps[idxs[k]]).content is Some by {
            if k > 0 {
                assert(idxs[k] == idxs.drop_first()[k - 1]);
            }
        }
    }
}

fn bytes_of(l: &Lump) -> (r: &[u8])
    requires
        l.content is Some,
    ensures
        r@ == l.content->0@,
{
    match &l.content {
        Some(v) => v.as_slice(),
        None => &[],
    }
}

/// Reads the lumps of the directory `name` as a vanilla (Doom- or
/// Hexen-format) level. `images` holds the nicknames of the images loaded so
/// far, against which texture names are checked.
pub fn prep_level_vanilla(name: &str, lumps: &[Lump], images: &[String]) -> (r: LevelPrep)
    ensures
        prep_matches(r, name@, lumps@, images@),
{
    let ghost idx = required_idx(lumps@);
    let ld = find_lump(lumps, "LINEDEFS");
    let nd = find_lump(lumps, "NODES");
    let sc = find_lump(lumps, "SECTORS");
    let sg = find_lump(lumps, "SEGS");
    let sd = find_lump(lumps, "SIDEDEFS");
    let ss = find_lump(lumps, "SSECTORS");
    let th = find_lump(lumps, "THINGS");
    let vx = find_lump(lumps, "VERTEXES");
    let bh = find_lump(lumps, "BEHAVIOR");
    assert(idx[0] == find_last(lumps@, "LINEDEFS"@));
    assert(idx[1] == find_last(lumps@, "NODES"@));
    assert(idx[2] == find_last(lumps@, "SECTORS"@));
    assert(idx[3] == find_last(lumps@, "SEGS"@));
    assert(idx[4] == find_last(lumps@, "SIDEDEFS"@));
    assert(idx[5] == find_last(lumps@, "SSECTORS"@));
    assert(idx[6] == find_last(lumps@, "THINGS"@));
    assert(idx[7] == find_last(lumps@, "VERTEXES"@));
    if ld.is_none() || nd.is_none() || sc.is_none() || sg.is_none() || sd.is_none() || ss.is_none()
        || th.is_none() || vx.is_none() {
        return LevelPrep::NotALevel;
    }
    let pos: [usize; 8] = [
        ld.unwrap(),
        nd.unwrap(),
        sc.unwrap(),
        sg.unwrap(),
        sd.unwrap(),
        ss.unwrap(),
        th.unwrap(),
        vx.unwrap(),
    ];
    let ghost p = positions(lumps@);
    proof {
        assert(!(exists|j: int| 0 <= j < 8 && (#[trigger] idx[j]) is None));
        assert forall|j: int| 0 <= j < 8 implies p[j] == (#[trigger] pos@[j]) as int && 0 <= p[j] < lumps@.len() by {
            lemma_find_last_bounds(lumps@, required()[j]);
        }
    }
    assert(p.subrange(0, 8) =~= p);
    let mut k: usize = 0;
    while k < 8
        invariant
            k <= 8,
            pos@.len() == 8,
            p.len() == 8,
            forall|j: int| 0 <= j < 8 ==> p[j] == (#[trigger] pos@[j]) as int && 0 <= p[j] < lumps@.len(),
            first_unreadable(lumps@, p) == first_unreadable(lumps@, p.subrange(k as int, 8)),
            p == positions(lumps@),
            idx == required_idx(lumps@),
            !(exists|j: int| 0 <= j < 8 && (#[trigger] idx[j]) is None),
        decreases 8 - k,
    {
        assert(p.subrange(k as int, 8).drop_first() =~= p.subrange(k + 1, 8));
        assert(p.subrange(k as int, 8)[0] == p[k as int]);
        let at = pos[k];
        if lumps[at].content.is_none() {
            let mut errs: Vec<LevelError> = Vec::new();
            errs.push(LevelError::UnreadableFile(lumps[at].path.clone()));
            assert(errs@ =~= seq![LevelError::UnreadableFile(lumps@[p[k as int]].path)]);
            assert(pos@[k as int] == at);
            assert(lumps@[p[k as int]].content is None);
            assert(first_unreadable(lumps@, p.subrange(k as int, 8)) == Some(p[k as int]));
            assert(first_unreadable(lumps@, positions(lumps@)) == Some(p[k as int]));
            assert(!(exists|j: int| 0 <= j < 8 && (#[trigger] idx[j]) is None));
            return LevelPrep::Failed(errs);
        }
        k = k + 1;
    }
    assert(p.subrange(8, 8).len() == 0);
    proof {
        lemma_all_readable(lumps@, p);
        assert forall|j: int| 0 <= j < 8 implies (#[trigger] lumps@[pos@[j] as int]).content is Some by {
            assert(lumps@[p[j]].content is Some);
        }
    }
    let checks: [(usize, usize); 7] = [
        (pos[0], 14),
        (pos[2], 26),
        (pos[3], 12),
        (pos[4], 30),
        (pos[5], 4),
        (pos[6], 10),
        (pos[7], 4),
    ];
    let ghost cs = seq![(p[0], 14int), (p[2], 26int), (p[3], 12int), (p[4], 30int), (p[5], 4int), (p[6], 10int), (p[7], 4int)];
    assert(checks@[0].0 == pos@[0] && checks@[1].0 == pos@[2] && checks@[2].0 == pos@[3] && checks@[3].0 == pos@[4]);
    assert(checks@[4].0 == pos@[5] && checks@[5].0 == pos@[6] && checks@[6].0 == pos@[7]);
    let mut bad: Vec<LevelError> = Vec::new();
    let mut c: usize = 0;
    while c < 7
        invariant
            c <= 7,
            checks@.len() == 7,
            cs.len() == 7,
            forall|j: int| 0 <= j < 7 ==> #[trigger] cs[j] == (checks@[j].0 as int, checks@[j].1 as int),
            forall|j: int| 0 <= j < 7 ==> (#[trigger] checks@[j]).0 < lumps@.len() && lumps@[checks@[j].0 as int].content is Some && checks@[j].1 > 0,
            forall|j: int| 0 <= j < 8 ==> p[j] == (#[trigger] pos@[j]) as int && 0 <= p[j] < lumps@.len(),
            bad@ == malformed(lumps@, cs.take(c as int)),
        decreases 7 - c,
    {
        assert(cs.take(c + 1).drop_last() =~= cs.take(c as int));
        let (at, size) = checks[c];
        let len = bytes_of(&lumps[at]).len();
        if len % size != 0 {
            bad.push(LevelError::MalformedFile(lumps[at].path.clone()));
        }
        c = c + 1;
    }
    assert(cs.take(7) =~= cs);
    if bad.len() > 0 {
        return LevelPrep::Failed(bad);
    }
    let hexen = bh.is_some();
    let things_bytes = bytes_of(&lumps[pos[6]]);
    let things = if hexen {
        read_things_hexen(things_bytes)
    } else {
        read_things_doom(things_bytes)
    };
    let level = Level {
        name: name.to_owned(),
        format: if hexen {
            LevelFormat::Hexen
        } else {
            LevelFormat::Doom
        },
        vertices: read_vertexes(bytes_of(&lumps[pos[7]])),
        linedefs: read_linedefs(bytes_of(&lumps[pos[0]])),
        nodes: read_nodes(bytes_of(&lumps[pos[1]])),
        sectors: read_sectors(bytes_of(&lumps[pos[2]])),
        segs: read_segs(bytes_of(&lumps[pos[3]])),
        sidedefs: read_sidedefs(bytes_of(&lumps[pos[4]])),
        subsectors: read_subsectors(bytes_of(&lumps[pos[5]])),
        things,
    };
    let errs = sanity_checks(&level, images);
    LevelPrep::Prepared(level, errs)
}

/// Whether `lumps` are the children `items` of a directory, in order, as
/// stored in the file system `vfs`: each named by its prefix, with its path,
/// and with its bytes if it has any.
pub open spec fn lumps_from(lumps: Seq<Lump>, vfs: Seq<(Seq<char>, FileView)>, items: Seq<Seq<char>>) -> bool {
    &&& lumps.len() == items.len()
    &&& forall|i: int|
        0 <= i < lumps.len() ==> {
            &&& (#[trigger] lumps[i]).name@ == prefix_of(items[i])
            &&& lumps[i].path@ == items[i]
            &&& (lumps[i].content is Some <==> file_bytes(lookup(vfs, items[i]).unwrap()) is Some)
            &&& (lumps[i].content is Some ==> lumps[i].content.unwrap()@ == file_bytes(
                lookup(vfs, items[i]).unwrap(),
            ).unwrap())
        }
}

/// The children of a directory, as lumps.
pub fn lumps_of(dir: FileRef<'_>) -> (r: Vec<Lump>)
    requires
        dir.file_view() is Directory,
        forall|i: int|
            0 <= i < dir.file_view()->Directory_0.len() ==> has_key(
                dir.vfs_view(),
                #[trigger] dir.file_view()->Directory_0[i],
            ),
    ensures
        lumps_from(r@, dir.vfs_view(), dir.file_view()->Directory_0),
{
    let children = dir.children().unwrap();
    let ghost items = dir.file_view()->Directory_0;
    let mut out: Vec<Lump> = Vec::new();
    for i in 0..children.len()
        invariant
            children@.len() == items.len(),
            forall|j: int|
                0 <= j < children@.len() ==> (#[trigger] children@[j]).vfs_view() == dir.vfs_view()
                    && children@[j].path_view() == items[j] && Some(children@[j].file_view()) == lookup(
                    dir.vfs_view(),
                    children@[j].path_view(),
                ),
            out@.len() == i,
            forall|j: int|
                0 <= j < i ==> {
                    &&& (#[trigger] out@[j]).name@ == prefix_of(items[j])
                    &&& out@[j].path@ == items[j]
                    &&& (out@[j].content is Some <==> file_bytes(lookup(dir.vfs_view(), items[j]).unwrap()) is Some)
                    &&& (out@[j].content is Some ==> out@[j].content.unwrap()@ == file_bytes(
                        lookup(dir.vfs_view(), items[j]).unwrap(),
                    ).unwrap())
                },
    {
        let c = children[i];
        let content = match c.try_read_bytes() {
            Ok(b) => Some(vstd::slice::slice_to_vec(b)),
            Err(_) => None,
        };
        out.push(Lump { name: c.file_prefix().to_owned(), path: c.path().to_owned(), content });
    }
    out
}

/// Reads the directory `dir` as a vanilla level named by its prefix, as
/// [`prep_level_vanilla`] does with its children.
pub fn try_prep_level_vanilla(dir: FileRef<'_>, images: &[String]) -> (r: LevelPrep)
    requires
        dir.file_view() is Directory,
        forall|i: int|
            0 <= i < dir.file_view()->Directory_0.len() ==> has_key(
                dir.vfs_view(),
                #[trigger] dir.file_view()->Directory_0[i],
            ),
    ensures
        exists|lumps: Seq<Lump>|
            lumps_from(lumps, dir.vfs_view(), dir.file_view()->Directory_0) && prep_matches(
                r,
                prefix_of(dir.path_view()),
                lumps,
                images@,
            ),
{
    let lumps = lumps_of(dir);
    let r = prep_level_vanilla(dir.file_prefix(), &lumps, images);
    assert(lumps_from(lumps@, dir.vfs_view(), dir.file_view()->Directory_0) && prep_matches(
        r,
        prefix_of(dir.path_view()),
        lumps@,
        images@,
    ));
    r
}

} // verus!
