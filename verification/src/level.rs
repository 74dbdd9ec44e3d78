//! Level (a.k.a. "map") data, as read from the lumps of a vanilla Doom- or
//! Hexen-format level. Positions and heights stay in map units here; scaling
//! them into floating-point world space is left to the renderer.

use vstd::prelude::*;

pub mod check;
pub mod prep;
pub mod read;

verus! {

#[derive(Debug, Clone, PartialEq, Eq)]
pub struct LineDef {
    pub udmf_id: i32,
    pub vert_start: usize,
    pub vert_end: usize,
    /// The line flag bits as stored in the lump.
    pub flags: u16,
    pub special: u16,
    /// Corresponds to the field of [`Sector`] with the same name.
    pub trigger: u16,
    /// Defined in UDMF.
    pub args: Option<[i32; 5]>,
    pub side_right: usize,
    pub side_left: Option<usize>,
}

#[derive(Debug, Clone, PartialEq, Eq)]
pub struct SideDef {
    pub offset_x: i32,
    pub offset_y: i32,
    /// The name of a TEXTURE1/2 entry.
    pub tex_top: Option<String>,
    /// The name of a TEXTURE1/2 entry.
    pub tex_bottom: Option<String>,
    /// The name of a TEXTURE1/2 entry.
    pub tex_mid: Option<String>,
    pub sector: usize,
}

#[derive(Debug, Clone, PartialEq, Eq)]
pub struct Sector {
    pub udmf_id: i32,
    pub height_floor: i32,
    pub height_ceil: i32,
    /// The name of a flat.
    pub tex_floor: Option<String>,
    /// The name of a flat.
    pub tex_ceil: Option<String>,
    pub light_level: i32,
    pub special: u16,
    /// Corresponds to the field of [`LineDef`] with the same name.
    pub trigger: u16,
}

#[derive(Debug, Clone, Copy, PartialEq, Eq, Hash)]
pub enum SegDirection {
    /// This seg runs along the right of a linedef.
    Front,
    /// This seg runs along the left of a linedef.
    Back,
}

#[derive(Debug, Clone, Copy, PartialEq, Eq, Hash)]
pub struct Seg {
    pub vert_start: usize,
    pub vert_end: usize,
    /// A binary angle measurement.
    pub angle: i16,
    pub linedef: usize,
    pub direction: SegDirection,
    pub offset: i16,
}

#[derive(Debug, Clone, Copy, PartialEq, Eq)]
pub struct SubSector {
    pub seg_count: i32,
    pub seg: usize,
}

/// What one side of a BSP node leads to.
#[derive(Debug, Clone, Copy, PartialEq, Eq)]
pub enum BspNodeChild {
    SubSector(usize),
    SubNode(usize),
}

/// A node of the level's binary space partition: the partition line, from
/// `(x, y)` along `(delta_x, delta_y)`, and the two sides.
#[derive(Debug, Clone, Copy, PartialEq, Eq)]
pub struct BspNode {
    pub x: i16,
    pub y: i16,
    pub delta_x: i16,
    pub delta_y: i16,
    pub child_r: BspNodeChild,
    pub child_l: BspNodeChild,
}

#[derive(Debug, Clone, Copy, PartialEq, Eq)]
pub struct Vertex {
    pub x: i16,
    pub y: i16,
}

/// Skill, mode and class bits of a [`Thing`].
pub const THING_SKILL_1: u16 = 0x0001;
pub const THING_SKILL_2: u16 = 0x0002;
pub const THING_SKILL_3: u16 = 0x0004;
pub const THING_SKILL_4: u16 = 0x0008;
pub const THING_SKILL_5: u16 = 0x0010;
/// Alternatively "deaf", but not in terms of sound propagation.
pub const THING_AMBUSH: u16 = 0x0020;
pub const THING_SINGLEPLAY: u16 = 0x0040;
pub const THING_DEATHMATCH: u16 = 0x0080;
pub const THING_COOP: u16 = 0x0100;
pub const THING_FRIEND: u16 = 0x0200;
pub const THING_DORMANT: u16 = 0x0400;
/// If unset, this is absent to e.g. Hexen's Fighter class.
pub const THING_CLASS_1: u16 = 0x0800;
/// If unset, this is absent to e.g. Hexen's Cleric class.
pub const THING_CLASS_2: u16 = 0x1000;
/// If unset, this is absent to e.g. Hexen's Mage class.
pub const THING_CLASS_3: u16 = 0x2000;

#[derive(Debug, Clone, Copy, PartialEq, Eq)]
pub struct Thing {
    pub tid: i32,
    pub ed_num: u16,
    pub x: i16,
    pub y: i16,
    pub z: i16,
    /// In degrees.
    pub angle: u32,
    /// A combination of the `THING_*` bits.
    pub flags: u16,
    pub args: [i32; 5],
}

#[derive(Debug, Clone, Copy, PartialEq, Eq, Hash)]
pub enum UdmfNamespace {
    Doom,
    Eternity,
    Heretic,
    Hexen,
    Strife,
    Vavoom,
    ZDoom,
    ZDoomTranslated,
}

#[derive(Debug, Clone, Copy, PartialEq, Eq, Hash)]
pub enum LevelFormat {
    Doom,
    Hexen,
    Udmf(UdmfNamespace),
}

/// A level put together from its lumps.
#[derive(Debug, Clone, PartialEq, Eq)]
pub struct Level {
    pub name: String,
    pub format: LevelFormat,
    pub vertices: Vec<Vertex>,
    pub linedefs: Vec<LineDef>,
    pub nodes: Vec<BspNode>,
    pub sectors: Vec<Sector>,
    pub segs: Vec<Seg>,
    pub sidedefs: Vec<SideDef>,
    pub subsectors: Vec<SubSector>,
    pub things: Vec<Thing>,
}

/// Which texture of a side definition.
#[derive(Debug, Clone, Copy, PartialEq, Eq)]
pub enum SideTexture {
    Top,
    Middle,
    Bottom,
}

/// A problem found while preparing a level.
#[derive(Debug, Clone, PartialEq, Eq)]
pub enum LevelError {
    /// A lump the level needs could not be read; holds the lump's name.
    UnreadableFile(String),
    /// A lump's size is no multiple of its record size; holds the lump's name.
    MalformedFile(String),
    InvalidLinedefSide { linedef: usize, left: bool, sidedef: usize, sides_len: usize },
    InvalidNodeSubsector { node: usize, left: bool, ssector: usize, ssectors_len: usize },
    InvalidSubnode { node: usize, left: bool, subnode: usize, nodes_len: usize },
    UnknownFlat { sector: usize, ceiling: bool, name: String },
    InvalidSegLinedef { seg: usize, linedef: usize, lines_len: usize },
    UnknownSideTex { sidedef: usize, which: SideTexture, name: String },
    InvalidSidedefSector { sidedef: usize, sector: usize, sectors_len: usize },
    InvalidSubsectorSeg { subsector: usize, seg: usize, segs_len: usize },
    NoPlayer1Start,
}

} // verus!
