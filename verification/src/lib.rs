//! Verified core of the VileTech engine: ACS support structures, data
//! preparation from Doom-format lumps, audio format detection, and the
//! metadata types of the game data catalog.

pub mod acs;
pub mod asset;
pub mod audio;
pub mod audio2;
pub mod basedata;
pub mod catalog;
pub mod config;
pub mod console;
pub mod cvarinfo;
pub mod data;
pub mod dobj;
pub mod game;
pub mod hashing;
pub mod interface;
pub mod level;
pub mod lump;
pub mod meta;
pub mod palette;
pub mod picture;
pub mod prep;
pub mod support;
pub mod text;
pub mod tracker;
pub mod vanilla;
pub mod vfs;
pub mod wad;
