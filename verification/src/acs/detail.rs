//! Symbols of the ACS runtime that do not belong anywhere else.

use vstd::prelude::*;

verus! {

pub const HUDMSG_LAYER_SHIFT: i32 = 12;
pub const HUDMSG_LAYER_MASK: i32 = 0x0000F000;
pub const HUDMSG_VIS_SHIFT: i32 = 16;
pub const HUDMSG_VIS_MASK: i32 = 0x00070000;

/// The stack of a script: 4096 values and the position of its top.
pub struct Stack {
    pub memory: [i32; 4096],
    pub pointer: usize,
}

impl Default for Stack {
    fn default() -> (r: Self)
        ensures
            r.pointer == 0,
            forall|i: int| 0 <= i < 4096 ==> #[trigger] r.memory@[i] == 0,
    {
        Stack { memory: [0i32; 4096], pointer: 0 }
    }
}

/// A script's local variables.
#[derive(Debug)]
pub struct LocalVars(pub Vec<i32>);

/// One local array of a script: its size and its offset among the locals.
#[derive(Debug)]
pub struct LocalArrayEntry {
    pub size: u32,
    pub offset: i32,
}

/// The local arrays of a script or function.
#[derive(Debug)]
pub struct LocalArray {
    pub entries: Vec<LocalArrayEntry>,
}

impl LocalArray {
    /// No local arrays.
    pub fn new() -> (r: LocalArray)
        ensures
            r.entries@.len() == 0,
    {
        LocalArray { entries: Vec::new() }
    }
}

/// A function defined by a loaded module.
#[derive(Debug)]
pub struct ScriptFunction {
    pub arg_count: u8,
    pub has_retval: u8,
    pub import_num: u8,
    pub local_count: i32,
    pub address: u32,
    pub local_array: LocalArray,
}

/// ZDoom's intermediate script representation.
#[derive(Debug, Clone, Copy)]
pub struct ScriptPointerZD {
    pub number: i16,
    pub kind: u16,
    pub arg_count: u32,
    pub address: u32,
}

/// Hexen's first script representation. The kind is `number / 1000`.
#[derive(Debug, Clone, Copy)]
pub struct ScriptPointerH {
    pub number: u32,
    pub address: u32,
    pub arg_count: u32,
}

/// ZDoom's current in-file script representation.
#[derive(Debug, Clone, Copy)]
pub struct ScriptPointerI {
    pub number: i16,
    pub kind: u8,
    pub arg_count: u8,
    pub address: u32,
}

/// A function as an object file stores it.
#[derive(Debug, Clone, Copy)]
pub struct ScriptFunctionFileRepr {
    pub arg_count: u8,
    pub local_count: u8,
    pub has_retval: u8,
    pub import_num: u8,
    pub address: u32,
}

/// The little-endian reading of four ASCII bytes as one `u32`.
pub open spec fn spec_ascii_id(bytes: [u8; 4]) -> u32 {
    (bytes[0] as int + bytes[1] as int * 0x100 + bytes[2] as int * 0x10000
        + bytes[3] as int * 0x1000000) as u32
}

/// Packs four bytes into a `u32`, the first byte being the least significant.
pub fn ascii_id(bytes: [u8; 4]) -> (r: u32)
    ensures
        r == spec_ascii_id(bytes),
{
    let b0 = bytes[0] as u32;
    let b1 = bytes[1] as u32;
    let b2 = bytes[2] as u32;
    let b3 = bytes[3] as u32;
    let r = b0 | (b1 << 8u32) | (b2 << 16u32) | (b3 << 24u32);
    assert(r == b0 + b1 * 0x100 + b2 * 0x10000 + b3 * 0x1000000) by (bit_vector)
        requires
            b0 < 256, b1 < 256, b2 < 256, b3 < 256,
            r == b0 | (b1 << 8u32) | (b2 << 16u32) | (b3 << 24u32),
    ;
    r
}

} // verus!
