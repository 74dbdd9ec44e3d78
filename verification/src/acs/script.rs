//! An atom of ACS functionality: script kinds and script pointers.

use vstd::prelude::*;

use super::detail::{LocalArray, ScriptPointerH, ScriptPointerI, ScriptPointerZD};

verus! {

/// What triggers a script. The numeric codes are those of the object files:
/// `Closed` through `WhiteReturn` are 0 to 8, `Lightning` through `Reopen`
/// are 12 to 18, and `Unknown` is 255.
#[derive(Debug, Clone, Copy, PartialEq, Eq, Hash)]
pub enum Kind {
    Closed,
    Open,
    Respawn,
    Death,
    Enter,
    Pickup,
    BlueReturn,
    RedReturn,
    WhiteReturn,
    Lightning,
    Unloading,
    Disconnect,
    Return,
    Event,
    Kill,
    Reopen,
    Unknown,
}

/// The kind that a numeric code in an object file stands for.
pub open spec fn kind_of(value: u8) -> Kind {
    if value == 0 {
        Kind::Closed
    } else if value == 1 {
        Kind::Open
    } else if value == 2 {
        Kind::Respawn
    } else if value == 3 {
        Kind::Death
    } else if value == 4 {
        Kind::Enter
    } else if value == 5 {
        Kind::Pickup
    } else if value == 6 {
        Kind::BlueReturn
    } else if value == 7 {
        Kind::RedReturn
    } else if value == 8 {
        Kind::WhiteReturn
    } else if value == 12 {
        Kind::Lightning
    } else if value == 13 {
        Kind::Unloading
    } else if value == 14 {
        Kind::Disconnect
    } else if value == 15 {
        Kind::Return
    } else if value == 16 {
        Kind::Event
    } else if value == 17 {
        Kind::Kill
    } else if value == 18 {
        Kind::Reopen
    } else {
        Kind::Unknown
    }
}

impl Kind {
    /// The kind of a numeric code; codes that name no kind give `Unknown`.
    pub fn from_code(value: u8) -> (r: Kind)
        ensures
            r == kind_of(value),
    {
        match value {
            0 => Kind::Closed,
            1 => Kind::Open,
            2 => Kind::Respawn,
            3 => Kind::Death,
            4 => Kind::Enter,
            5 => Kind::Pickup,
            6 => Kind::BlueReturn,
            7 => Kind::RedReturn,
            8 => Kind::WhiteReturn,
            12 => Kind::Lightning,
            13 => Kind::Unloading,
            14 => Kind::Disconnect,
            15 => Kind::Return,
            16 => Kind::Event,
            17 => Kind::Kill,
            18 => Kind::Reopen,
            _ => Kind::Unknown,
        }
    }
}

impl From<u8> for Kind {
    fn from(value: u8) -> (r: Kind) {
        Kind::from_code(value)
    }
}

impl vstd::std_specs::convert::FromSpecImpl<u8> for Kind {
    open spec fn obeys_from_spec() -> bool {
        true
    }

    open spec fn from_spec(value: u8) -> Kind {
        kind_of(value)
    }
}

impl Default for Kind {
    fn default() -> (r: Kind)
        ensures
            r == Kind::Unknown,
    {
        Kind::Unknown
    }
}

/// Flag bit of [`Pointer::flags`]: the script is safe to run in net games.
pub const POINTER_NET_SAFE: u16 = 1;

/// A script's entry in a loaded module.
#[derive(Debug)]
pub struct Pointer {
    pub number: i32,
    pub address: u32,
    pub kind: Kind,
    pub arg_count: u8,
    pub var_count: u16,
    pub flags: u16,
    pub local_arrays: LocalArray,
}

impl Pointer {
    /// A pointer with every field zeroed and an unknown kind.
    pub fn new() -> (r: Pointer)
        ensures
            r.number == 0,
            r.address == 0,
            r.kind == Kind::Unknown,
            r.arg_count == 0,
            r.var_count == 0,
            r.flags == 0,
            r.local_arrays.entries@.len() == 0,
    {
        Pointer {
            number: 0,
            address: 0,
            kind: Kind::Unknown,
            arg_count: 0,
            var_count: 0,
            flags: 0,
            local_arrays: LocalArray::new(),
        }
    }

    /// Takes the fields of Hexen's script representation, where a script's
    /// kind is its number divided by 1000.
    pub fn mimic_hexen(&mut self, ptrh: &ScriptPointerH)
        ensures
            final(self).number == (ptrh.number & 1000) as i32,
            final(self).kind == kind_of((ptrh.number / 1000) as u8),
            final(self).arg_count == ptrh.arg_count as u8,
            final(self).address == ptrh.address,
            final(self).var_count == old(self).var_count,
            final(self).flags == old(self).flags,
            final(self).local_arrays == old(self).local_arrays,
    {
        self.number = (ptrh.number & 1000) as i32;
        self.kind = Kind::from_code((ptrh.number / 1000) as u8);
        self.arg_count = ptrh.arg_count as u8;
        self.address = ptrh.address;
    }

    /// Takes the fields of ZDoom's intermediate script representation.
    pub fn mimic_zdoom(&mut self, ptrz: &ScriptPointerZD)
        ensures
            final(self).number == ptrz.number as i32,
            final(self).kind == kind_of(ptrz.kind as u8),
            final(self).arg_count == ptrz.arg_count as u8,
            final(self).address == ptrz.address,
            final(self).var_count == old(self).var_count,
            final(self).flags == old(self).flags,
            final(self).local_arrays == old(self).local_arrays,
    {
        self.number = ptrz.number as i32;
        self.kind = Kind::from_code(ptrz.kind as u8);
        self.arg_count = ptrz.arg_count as u8;
        self.address = ptrz.address;
    }

    /// Takes the fields of ZDoom's current in-file script representation.
    pub fn mimic_intermediate(&mut self, ptri: &ScriptPointerI)
        ensures
            final(self).number == ptri.number as i32,
            final(self).kind == kind_of(ptri.kind),
            final(self).arg_count == ptri.arg_count,
            final(self).address == ptri.address,
            final(self).var_count == old(self).var_count,
            final(self).flags == old(self).flags,
            final(self).local_arrays == old(self).local_arrays,
    {
        self.number = ptri.number as i32;
        self.kind = Kind::from_code(ptri.kind);
        self.arg_count = ptri.arg_count;
        self.address = ptri.address;
    }
}

/// Flag bit of a script's rendering flags: draw on the back side.
pub const SCRIPT_BACKSIDE: u8 = 1;
/// Flag bit of a script's rendering flags: correct for the aspect ratio.
pub const SCRIPT_HANDLE_ASPECT: u8 = 2;

/// What a running script is doing.
#[derive(Debug, Clone, PartialEq, Eq)]
pub enum Status {
    Running,
    Suspended,
    Delayed { clock: i32 },
    TagWait { tag: i32 },
    PolyWait { polyobj: usize },
    WaitPre { key: i32 },
    Wait { key: i32 },
    ToRemove,
    DivideByZero,
    ModulusByZero,
}

} // verus!
