//! Decoding the fixed-size records of vanilla level lumps.

use vstd::prelude::*;

use crate::level::{
    BspNode, BspNodeChild, LineDef, Sector, Seg, SegDirection, SideDef, SubSector, Thing, Vertex,
    THING_AMBUSH, THING_CLASS_1, THING_CLASS_2, THING_CLASS_3, THING_COOP, THING_DEATHMATCH,
    THING_DORMANT, THING_FRIEND, THING_SINGLEPLAY, THING_SKILL_1, THING_SKILL_2, THING_SKILL_3,
    THING_SKILL_4, THING_SKILL_5,
};
use crate::lump::{le_i16, le_u16, read_i16, read_id8, read_u16, spec_id8};

verus! {

/// A record count: `k` records of `n` bytes fill `len` bytes up to a remainder below `n`.
pub proof fn lemma_record_count(len: int, n: int, k: int)
    requires
        n > 0,
        0 <= k,
        n * k <= len < n * k + n,
    ensures
        k == len / n,
{
    assert(n * k == k * n) by (nonlinear_arith);
    vstd::arithmetic::div_mod::lemma_fundamental_div_mod_converse(len, n, k, len - n * k);
}

/// The eight bytes of a name field at `o`.
pub open spec fn name8(b: Seq<u8>, o: int) -> Seq<u8> {
    b.subrange(o, o + 8)
}

fn read_name8(b: &[u8], o: usize) -> (r: Option<String>)
    requires
        o + 8 <= b.len(),
    ensures
        r.is_none() == spec_id8(name8(b@, o as int)).is_none(),
        r.is_some() ==> r->0@ == spec_id8(name8(b@, o as int))->0,
{
    let raw: [u8; 8] = [b[o], b[o + 1], b[o + 2], b[o + 3], b[o + 4], b[o + 5], b[o + 6], b[o + 7]];
    assert(raw@ == name8(b@, o as int));
    read_id8(raw)
}

/// Whether an optional name matches an optional sequence of characters.
pub open spec fn name_is(n: Option<String>, s: Option<Seq<char>>) -> bool {
    match n {
        None => s is None,
        Some(x) => s is Some && x@ == s->0,
    }
}

// LINEDEFS: 14 bytes each.
pub open spec fn linedef_matches(l: LineDef, b: Seq<u8>, o: int) -> bool {
    let left = le_u16(b, o + 12);
    &&& l.udmf_id == -1
    &&& l.vert_start == le_u16(b, o) as usize
    &&& l.vert_end == le_u16(b, o + 2) as usize
    &&& l.flags == le_u16(b, o + 4)
    &&& l.special == le_u16(b, o + 6)
    &&& l.trigger == le_u16(b, o + 8)
    &&& l.args is None
    &&& l.side_right == le_u16(b, o + 10) as usize
    &&& l.side_left == (if left == 0xFFFF { None } else { Some(left as usize) })
}

fn linedef_at(b: &[u8], o: usize) -> (r: LineDef)
    requires
        o + 14 <= b.len(),
    ensures
        linedef_matches(r, b@, o as int),
{
    let left = read_u16(b, o + 12);
    LineDef {
        udmf_id: -1,
        vert_start: read_u16(b, o) as usize,
        vert_end: read_u16(b, o + 2) as usize,
        flags: read_u16(b, o + 4),
        special: read_u16(b, o + 6),
        trigger: read_u16(b, o + 8),
        args: None,
        side_right: read_u16(b, o + 10) as usize,
        side_left: if left == 0xFFFF {
            None
        } else {
            Some(left as usize)
        },
    }
}

/// Decodes a LINEDEFS lump. An incomplete trailing record is ignored.
pub fn read_linedefs(bytes: &[u8]) -> (r: Vec<LineDef>)
    ensures
        r@.len() == bytes@.len() / 14,
        forall|k: int| 0 <= k < r@.len() ==> linedef_matches(#[trigger] r@[k], bytes@, 14 * k),
{
    let mut ret: Vec<LineDef> = Vec::new();
    let mut off: usize = 0;
    while bytes.len() - off >= 14
        invariant
            off <= bytes.len(),
            off == 14 * ret@.len(),
            forall|k: int| 0 <= k < ret@.len() ==> linedef_matches(#[trigger] ret@[k], bytes@, 14 * k),
        decreases bytes.len() - off,
    {
        ret.push(linedef_at(bytes, off));
        off = off + 14;
    }
    proof {
        lemma_record_count(bytes@.len() as int, 14, ret@.len() as int);
    }
    ret
}

// NODES: 28 bytes each.
pub open spec fn node_child(u: u16) -> BspNodeChild {
    if u >= 0x8000 {
        BspNodeChild::SubSector((u - 0x8000) as usize)
    } else {
        BspNodeChild::SubNode(u as usize)
    }
}

pub open spec fn spec_node(b: Seq<u8>, o: int) -> BspNode {
    BspNode {
        x: le_i16(b, o),
        y: le_i16(b, o + 2),
        delta_x: le_i16(b, o + 4),
        delta_y: le_i16(b, o + 6),
        child_r: node_child(le_u16(b, o + 24)),
        child_l: node_child(le_u16(b, o + 26)),
    }
}

fn child_of(u: u16) -> (r: BspNodeChild)
    ensures
        r == node_child(u),
{
    if u >= 0x8000 {
        BspNodeChild::SubSector((u - 0x8000) as usize)
    } else {
        BspNodeChild::SubNode(u as usize)
    }
}

/// Decodes a NODES lump. An incomplete trailing record is ignored.
pub fn read_nodes(bytes: &[u8]) -> (r: Vec<BspNode>)
    ensures
        r@.len() == bytes@.len() / 28,
        forall|k: int| 0 <= k < r@.len() ==> #[trigger] r@[k] == spec_node(bytes@, 28 * k),
{
    let mut ret: Vec<BspNode> = Vec::new();
    let mut off: usize = 0;
    while bytes.len() - off >= 28
        invariant
            off <= bytes.len(),
            off == 28 * ret@.len(),
            forall|k: int| 0 <= k < ret@.len() ==> #[trigger] ret@[k] == spec_node(bytes@, 28 * k),
        decreases bytes.len() - off,
    {
        let node = BspNode {
            x: read_i16(bytes, off),
            y: read_i16(bytes, off + 2),
            delta_x: read_i16(bytes, off + 4),
            delta_y: read_i16(bytes, off + 6),
            child_r: child_of(read_u16(bytes, off + 24)),
            child_l: child_of(read_u16(bytes, off + 26)),
        };
        ret.push(node);
        off = off + 28;
    }
    proof {
        lemma_record_count(bytes@.len() as int, 28, ret@.len() as int);
    }
    ret
}

// SECTORS: 26 bytes each.
pub open spec fn sector_matches(s: Sector, b: Seq<u8>, o: int) -> bool {
    &&& s.udmf_id == 0
    &&& s.height_floor == le_i16(b, o) as i32
    &&& s.height_ceil == le_i16(b, o + 2) as i32
    &&& name_is(s.tex_floor, spec_id8(name8(b, o + 4)))
    &&& name_is(s.tex_ceil, spec_id8(name8(b, o + 12)))
    &&& s.light_level == le_u16(b, o + 20) as i32
    &&& s.special == le_u16(b, o + 22)
    &&& s.trigger == le_u16(b, o + 24)
}

fn sector_at(b: &[u8], o: usize) -> (r: Sector)
    requires
        o + 26 <= b.len(),
    ensures
        sector_matches(r, b@, o as int),
{
    Sector {
        udmf_id: 0,
        height_floor: read_i16(b, o) as i32,
        height_ceil: read_i16(b, o + 2) as i32,
        tex_floor: read_name8(b, o + 4),
        tex_ceil: read_name8(b, o + 12),
        light_level: read_u16(b, o + 20) as i32,
        special: read_u16(b, o + 22),
        trigger: read_u16(b, o + 24),
    }
}

/// Decodes a SECTORS lump. An incomplete trailing record is ignored.
pub fn read_sectors(bytes: &[u8]) -> (r: Vec<Sector>)
    ensures
        r@.len() == bytes@.len() / 26,
        forall|k: int| 0 <= k < r@.len() ==> sector_matches(#[trigger] r@[k], bytes@, 26 * k),
{
    let mut ret: Vec<Sector> = Vec::new();
    let mut off: usize = 0;
    while bytes.len() - off >= 26
        invariant
            off <= bytes.len(),
            off == 26 * ret@.len(),
            forall|k: int| 0 <= k < ret@.len() ==> sector_matches(#[trigger] ret@[k], bytes@, 26 * k),
        decreases bytes.len() - off,
    {
        ret.push(sector_at(bytes, off));
        off = off + 26;
    }
    proof {
        lemma_record_count(bytes@.len() as int, 26, ret@.len() as int);
    }
    ret
}

// SEGS: 12 bytes each.
pub open spec fn spec_seg(b: Seq<u8>, o: int) -> Seg {
    Seg {
        vert_start: le_u16(b, o) as usize,
        vert_end: le_u16(b, o + 2) as usize,
        angle: le_i16(b, o + 4),
        linedef: le_u16(b, o + 6) as usize,
        direction: if le_i16(b, o + 8) == 0 {
            SegDirection::Front
        } else {
            SegDirection::Back
        },
        offset: le_i16(b, o + 10),
    }
}

/// Decodes a SEGS lump. An incomplete trailing record is ignored.
pub fn read_segs(bytes: &[u8]) -> (r: Vec<Seg>)
    ensures
        r@.len() == bytes@.len() / 12,
        forall|k: int| 0 <= k < r@.len() ==> #[trigger] r@[k] == spec_seg(bytes@, 12 * k),
{
    let mut ret: Vec<Seg> = Vec::new();
    let mut off: usize = 0;
    while bytes.len() - off >= 12
        invariant
            off <= bytes.len(),
            off == 12 * ret@.len(),
            forall|k: int| 0 <= k < ret@.len() ==> #[trigger] ret@[k] == spec_seg(bytes@, 12 * k),
        decreases bytes.len() - off,
    {
        let seg = Seg {
            vert_start: read_u16(bytes, off) as usize,
            vert_end: read_u16(bytes, off + 2) as usize,
            angle: read_i16(bytes, off + 4),
            linedef: read_u16(bytes, off + 6) as usize,
            direction: if read_i16(bytes, off + 8) == 0 {
                SegDirection::Front
            } else {
                SegDirection::Back
            },
            offset: read_i16(bytes, off + 10),
        };
        ret.push(seg);
        off = off + 12;
    }
    proof {
        lemma_record_count(bytes@.len() as int, 12, ret@.len() as int);
    }
    ret
}

/// A side texture name: absent when blank or the placeholder `-`.
pub open spec fn side_tex(raw: Seq<u8>) -> Option<Seq<char>> {
    match spec_id8(raw) {
        Some(s) => if s == seq!['-'] {
            None
        } else {
            Some(s)
        },
        None => None,
    }
}

fn read_side_tex(b: &[u8], o: usize) -> (r: Option<String>)
    requires
        o + 8 <= b.len(),
    ensures
        name_is(r, side_tex(name8(b@, o as int))),
{
    match read_name8(b, o) {
        Some(s) => {
            let dash = "-";
            proof {
                reveal_strlit("-");
                assert(dash@ =~= seq!['-']);
            }
            if crate::support::str_eq(s.as_str(), dash) {
                None
            } else {
                Some(s)
            }
        },
        None => None,
    }
}

// SIDEDEFS: 30 bytes each.
pub open spec fn sidedef_matches(s: SideDef, b: Seq<u8>, o: int) -> bool {
    &&& s.offset_x == le_i16(b, o) as i32
    &&& s.offset_y == le_i16(b, o + 2) as i32
    &&& name_is(s.tex_top, side_tex(name8(b, o + 4)))
    &&& name_is(s.tex_bottom, side_tex(name8(b, o + 12)))
    &&& name_is(s.tex_mid, side_tex(name8(b, o + 20)))
    &&& s.sector == le_u16(b, o + 28) as usize
}

fn sidedef_at(b: &[u8], o: usize) -> (r: SideDef)
    requires
        o + 30 <= b.len(),
    ensures
        sidedef_matches(r, b@, o as int),
{
    SideDef {
        offset_x: read_i16(b, o) as i32,
        offset_y: read_i16(b, o + 2) as i32,
        tex_top: read_side_tex(b, o + 4),
        tex_bottom: read_side_tex(b, o + 12),
        tex_mid: read_side_tex(b, o + 20),
        sector: read_u16(b, o + 28) as usize,
    }
}

/// Decodes a SIDEDEFS lump. An incomplete trailing record is ignored.
pub fn read_sidedefs(bytes: &[u8]) -> (r: Vec<SideDef>)
    ensures
        r@.len() == bytes@.len() / 30,
        forall|k: int| 0 <= k < r@.len() ==> sidedef_matches(#[trigger] r@[k], bytes@, 30 * k),
{
    let mut ret: Vec<SideDef> = Vec::new();
    let mut off: usize = 0;
    while bytes.len() - off >= 30
        invariant
            off <= bytes.len(),
            off == 30 * ret@.len(),
            forall|k: int| 0 <= k < ret@.len() ==> sidedef_matches(#[trigger] ret@[k], bytes@, 30 * k),
        decreases bytes.len() - off,
    {
        ret.push(sidedef_at(bytes, off));
        off = off + 30;
    }
    proof {
        lemma_record_count(bytes@.len() as int, 30, ret@.len() as int);
    }
    ret
}

// SSECTORS: 4 bytes each.
pub open spec fn spec_subsector(b: Seq<u8>, o: int) -> SubSector {
    SubSector { seg_count: le_u16(b, o) as i32, seg: le_u16(b, o + 2) as usize }
}

/// Decodes a SSECTORS lump. An incomplete trailing record is ignored.
pub fn read_subsectors(bytes: &[u8]) -> (r: Vec<SubSector>)
    ensures
        r@.len() == bytes@.len() / 4,
        forall|k: int| 0 <= k < r@.len() ==> #[trigger] r@[k] == spec_subsector(bytes@, 4 * k),
{
    let mut ret: Vec<SubSector> = Vec::new();
    let mut off: usize = 0;
    while bytes.len() - off >= 4
        invariant
            off <= bytes.len(),
            off == 4 * ret@.len(),
            forall|k: int| 0 <= k < ret@.len() ==> #[trigger] ret@[k] == spec_subsector(bytes@, 4 * k),
        decreases bytes.len() - off,
    {
        let ss = SubSector { seg_count: read_u16(bytes, off) as i32, seg: read_u16(bytes, off + 2) as usize };
        ret.push(ss);
        off = off + 4;
    }
    proof {
        lemma_record_count(bytes@.len() as int, 4, ret@.len() as int);
    }
    ret
}

// VERTEXES: 4 bytes each.
pub open spec fn spec_vertex(b: Seq<u8>, o: int) -> Vertex {
    Vertex { x: le_i16(b, o), y: le_i16(b, o + 2) }
}

/// Decodes a VERTEXES lump. An incomplete trailing record is ignored.
pub fn read_vertexes(bytes: &[u8]) -> (r: Vec<Vertex>)
    ensures
        r@.len() == bytes@.len() / 4,
        forall|k: int| 0 <= k < r@.len() ==> #[trigger] r@[k] == spec_vertex(bytes@, 4 * k),
{
    let mut ret: Vec<Vertex> = Vec::new();
    let mut off: usize = 0;
    while bytes.len() - off >= 4
        invariant
            off <= bytes.len(),
            off == 4 * ret@.len(),
            forall|k: int| 0 <= k < ret@.len() ==> #[trigger] ret@[k] == spec_vertex(bytes@, 4 * k),
        decreases bytes.len() - off,
    {
        let v = Vertex { x: read_i16(bytes, off), y: read_i16(bytes, off + 2) };
        ret.push(v);
        off = off + 4;
    }
    proof {
        lemma_record_count(bytes@.len() as int, 4, ret@.len() as int);
    }
    ret
}

/// The value of `bits` if `set`, else nothing.
#[verifier::opaque]
pub open spec fn when(set: bool, bits: u16) -> int {
    if set {
        bits as int
    } else {
        0
    }
}

/// Whether any bit of `mask` is set in `f`.
pub open spec fn has_bit(f: u16, mask: u16) -> bool {
    f & mask != 0
}

/// The flags of a Doom-format thing. Bit 0 enables skills 1 and 2, bit 1
/// skill 3, bit 2 skills 4 and 5; bit 3 is ambush; bit 4 means the thing only
/// appears in multiplayer (co-op, unless bit 6 excludes co-op), otherwise it
/// appears in single player; bit 7 marks it friendly.
pub open spec fn doom_thing_flags(f: u16) -> u16 {
    (when(has_bit(f, 0x0001), (THING_SKILL_1 + THING_SKILL_2) as u16) + when(has_bit(f, 0x0002), THING_SKILL_3)
        + when(has_bit(f, 0x0004), (THING_SKILL_4 + THING_SKILL_5) as u16) + when(has_bit(f, 0x0008), THING_AMBUSH)
        + when(has_bit(f, 0x0010) && !has_bit(f, 0x0040), THING_COOP)
        + when(!has_bit(f, 0x0010), THING_SINGLEPLAY) + when(has_bit(f, 0x0080), THING_FRIEND)) as u16
}

/// The flags of a Hexen-format thing: bits 0 to 3 as in Doom, then dormant,
/// the three classes, single player, co-op and deathmatch in bits 4 to 10.
pub open spec fn hexen_thing_flags(f: u16) -> u16 {
    (when(has_bit(f, 0x0001), (THING_SKILL_1 + THING_SKILL_2) as u16) + when(has_bit(f, 0x0002), THING_SKILL_3)
        + when(has_bit(f, 0x0004), (THING_SKILL_4 + THING_SKILL_5) as u16) + when(has_bit(f, 0x0008), THING_AMBUSH)
        + when(has_bit(f, 0x0010), THING_DORMANT) + when(has_bit(f, 0x0020), THING_CLASS_1)
        + when(has_bit(f, 0x0040), THING_CLASS_2) + when(has_bit(f, 0x0080), THING_CLASS_3)
        + when(has_bit(f, 0x0100), THING_SINGLEPLAY) + when(has_bit(f, 0x0200), THING_COOP)
        + when(has_bit(f, 0x0400), THING_DEATHMATCH)) as u16
}

fn pick(set: bool, bits: u16) -> (r: u16)
    ensures
        r == when(set, bits),
        r <= bits,
{
    reveal(when);
    if set {
        bits
    } else {
        0
    }
}

pub fn doom_flags(f: u16) -> (r: u16)
    ensures
        r == doom_thing_flags(f),
{
    let a: u16 = pick(f & 0x0001 != 0, THING_SKILL_1 + THING_SKILL_2);
    let b: u16 = pick(f & 0x0002 != 0, THING_SKILL_3);
    let c: u16 = pick(f & 0x0004 != 0, THING_SKILL_4 + THING_SKILL_5);
    let d: u16 = pick(f & 0x0008 != 0, THING_AMBUSH);
    let e: u16 = pick(f & 0x0010 != 0 && f & 0x0040 == 0, THING_COOP);
    let g: u16 = pick(f & 0x0010 == 0, THING_SINGLEPLAY);
    let h: u16 = pick(f & 0x0080 != 0, THING_FRIEND);
    a + b + c + d + e + g + h
}

pub fn hexen_flags(f: u16) -> (r: u16)
    ensures
        r == hexen_thing_flags(f),
{
    let a: u16 = pick(f & 0x0001 != 0, THING_SKILL_1 + THING_SKILL_2);
    let b: u16 = pick(f & 0x0002 != 0, THING_SKILL_3);
    let c: u16 = pick(f & 0x0004 != 0, THING_SKILL_4 + THING_SKILL_5);
    let d: u16 = pick(f & 0x0008 != 0, THING_AMBUSH);
    let e: u16 = pick(f & 0x0010 != 0, THING_DORMANT);
    let g: u16 = pick(f & 0x0020 != 0, THING_CLASS_1);
    let h: u16 = pick(f & 0x0040 != 0, THING_CLASS_2);
    let i: u16 = pick(f & 0x0080 != 0, THING_CLASS_3);
    let j: u16 = pick(f & 0x0100 != 0, THING_SINGLEPLAY);
    let k: u16 = pick(f & 0x0200 != 0, THING_COOP);
    let l: u16 = pick(f & 0x0400 != 0, THING_DEATHMATCH);
    let low: u16 = a + b + c + d + e;
    let high: u16 = g + h + i + j + k + l;
    low + high
}

// THINGS, Doom format: 10 bytes each.
pub open spec fn spec_thing_doom(b: Seq<u8>, o: int) -> Thing {
    Thing {
        tid: 0,
        ed_num: le_u16(b, o + 6),
        x: le_i16(b, o),
        y: le_i16(b, o + 2),
        z: 0,
        angle: le_u16(b, o + 4) as u32,
        flags: doom_thing_flags(le_u16(b, o + 8)),
        args: [0i32, 0i32, 0i32, 0i32, 0i32],
    }
}

/// Decodes a Doom-format THINGS lump. An incomplete trailing record is ignored.
pub fn read_things_doom(bytes: &[u8]) -> (r: Vec<Thing>)
    ensures
        r@.len() == bytes@.len() / 10,
        forall|k: int| 0 <= k < r@.len() ==> #[trigger] r@[k] == spec_thing_doom(bytes@, 10 * k),
{
    let mut ret: Vec<Thing> = Vec::new();
    let mut off: usize = 0;
    while bytes.len() - off >= 10
        invariant
            off <= bytes.len(),
            off == 10 * ret@.len(),
            forall|k: int| 0 <= k < ret@.len() ==> #[trigger] ret@[k] == spec_thing_doom(bytes@, 10 * k),
        decreases bytes.len() - off,
    {
        let t = Thing {
            tid: 0,
            ed_num: read_u16(bytes, off + 6),
            x: read_i16(bytes, off),
            y: read_i16(bytes, off + 2),
            z: 0,
            angle: read_u16(bytes, off + 4) as u32,
            flags: doom_flags(read_u16(bytes, off + 8)),
            args: [0, 0, 0, 0, 0],
        };
        ret.push(t);
        off = off + 10;
    }
    proof {
        lemma_record_count(bytes@.len() as int, 10, ret@.len() as int);
    }
    ret
}

// THINGS, Hexen format: 20 bytes each (19 used, one of padding).
pub open spec fn spec_thing_hexen(b: Seq<u8>, o: int) -> Thing {
    Thing {
        tid: le_i16(b, o) as i32,
        ed_num: le_u16(b, o + 10),
        x: le_i16(b, o + 2),
        y: le_i16(b, o + 4),
        z: le_i16(b, o + 6),
        angle: le_u16(b, o + 8) as u32,
        flags: hexen_thing_flags(le_u16(b, o + 12)),
        args: [b[o + 14] as i32, b[o + 15] as i32, b[o + 16] as i32, b[o + 17] as i32, b[o + 18] as i32],
    }
}

/// Decodes a Hexen-format THINGS lump. An incomplete trailing record is ignored.
pub fn read_things_hexen(bytes: &[u8]) -> (r: Vec<Thing>)
    ensures
        r@.len() == bytes@.len() / 20,
        forall|k: int| 0 <= k < r@.len() ==> #[trigger] r@[k] == spec_thing_hexen(bytes@, 20 * k),
{
    let mut ret: Vec<Thing> = Vec::new();
    let mut off: usize = 0;
    while bytes.len() - off >= 20
        invariant
            off <= bytes.len(),
            off == 20 * ret@.len(),
            forall|k: int| 0 <= k < ret@.len() ==> #[trigger] ret@[k] == spec_thing_hexen(bytes@, 20 * k),
        decreases bytes.len() - off,
    {
        let t = Thing {
            tid: read_i16(bytes, off) as i32,
            ed_num: read_u16(bytes, off + 10),
            x: read_i16(bytes, off + 2),
            y: read_i16(bytes, off + 4),
            z: read_i16(bytes, off + 6),
            angle: read_u16(bytes, off + 8) as u32,
            flags: hexen_flags(read_u16(bytes, off + 12)),
            args: [
                bytes[off + 14] as i32,
                bytes[off + 15] as i32,
                bytes[off + 16] as i32,
                bytes[off + 17] as i32,
                bytes[off + 18] as i32,
            ],
        };
        ret.push(t);
        off = off + 20;
    }
    proof {
        lemma_record_count(bytes@.len() as int, 20, ret@.len() as int);
    }
    ret
}

} // verus!
