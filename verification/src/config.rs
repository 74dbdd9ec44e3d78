//! The catalog's configuration: limits on the sizes of virtual files, and
//! mount points kept for the engine's own use.

use vstd::prelude::*;

verus! {

/// 1024 B * 1024 kB * 512 MB = 536870912 bytes.
pub const DEFAULT_BIN_FILE_SIZE: usize = 536870912;
/// 1024 B * 1024 kB * 64 MB = 67108864 bytes.
pub const DEFAULT_TEXT_FILE_SIZE: usize = 67108864;
/// 1024 B * 1024 kB * 1024 MB * 2 GB = 2147483648 bytes.
pub const MAX_BIN_FILE_SIZE: usize = 2147483648;
/// 1024 B * 1024 kB * 128 MB = 134217728 bytes.
pub const MAX_TEXT_FILE_SIZE: usize = 134217728;

/// The catalog's settings.
#[derive(Debug, Clone)]
pub struct Config {
    /// Real paths of the base data, in load order.
    basedata: Vec<String>,
    reserved_mount_points: Vec<String>,
    bin_size_limit: usize,
    text_size_limit: usize,
}

impl Default for Config {
    /// No base data, no reserved mount points, and the default size limits.
    fn default() -> (r: Self)
        ensures
            r.spec_basedata().len() == 0,
            r.spec_reserved().len() == 0,
            r.spec_bin_size_limit() == DEFAULT_BIN_FILE_SIZE,
            r.spec_text_size_limit() == DEFAULT_TEXT_FILE_SIZE,
    {
        Config {
            basedata: Vec::new(),
            reserved_mount_points: Vec::new(),
            bin_size_limit: DEFAULT_BIN_FILE_SIZE,
            text_size_limit: DEFAULT_TEXT_FILE_SIZE,
        }
    }
}

/// `limit` clamped between 0 and `max`.
pub open spec fn clamped(limit: usize, max: usize) -> usize {
    if limit > max {
        max
    } else {
        limit
    }
}

impl Config {
    pub closed spec fn spec_basedata(&self) -> Seq<String> {
        self.basedata@
    }

    pub closed spec fn spec_reserved(&self) -> Seq<String> {
        self.reserved_mount_points@
    }

    /// The mount points kept for the engine's own use.
    pub fn reserved_mount_points(&self) -> (r: &[String])
        ensures
            r@ == self.spec_reserved(),
    {
        self.reserved_mount_points.as_slice()
    }

    pub closed spec fn spec_bin_size_limit(&self) -> usize {
        self.bin_size_limit
    }

    pub closed spec fn spec_text_size_limit(&self) -> usize {
        self.text_size_limit
    }

    /// The limit on the size of a virtual binary file, in bytes. A mount can
    /// be any size, but any children over this size are rejected.
    pub fn bin_size_limit(&self) -> (r: usize)
        ensures
            r == self.spec_bin_size_limit(),
    {
        self.bin_size_limit
    }

    /// The limit on the size of a virtual text file, in bytes.
    pub fn text_size_limit(&self) -> (r: usize)
        ensures
            r == self.spec_text_size_limit(),
    {
        self.text_size_limit
    }

    /// Sets the binary file size limit, clamped between 0 and [`MAX_BIN_FILE_SIZE`].
    pub fn set_bin_size_limit(self, limit: usize) -> (r: Self)
        ensures
            r.spec_bin_size_limit() == clamped(limit, MAX_BIN_FILE_SIZE),
            r.spec_text_size_limit() == self.spec_text_size_limit(),
            r.spec_basedata() == self.spec_basedata(),
            r.spec_reserved() == self.spec_reserved(),
    {
        let mut s = self;
        s.bin_size_limit = if limit > MAX_BIN_FILE_SIZE {
            MAX_BIN_FILE_SIZE
        } else {
            limit
        };
        s
    }

    /// Sets the text file size limit, clamped between 0 and [`MAX_TEXT_FILE_SIZE`].
    pub fn set_text_size_limit(self, limit: usize) -> (r: Self)
        ensures
            r.spec_text_size_limit() == clamped(limit, MAX_TEXT_FILE_SIZE),
            r.spec_bin_size_limit() == self.spec_bin_size_limit(),
            r.spec_basedata() == self.spec_basedata(),
            r.spec_reserved() == self.spec_reserved(),
    {
        let mut s = self;
        s.text_size_limit = if limit > MAX_TEXT_FILE_SIZE {
            MAX_TEXT_FILE_SIZE
        } else {
            limit
        };
        s
    }

    /// Keeps `mp` from being used as a mount point.
    pub fn reserve_mount_point(self, mp: String) -> (r: Self)
        ensures
            r.spec_reserved() == self.spec_reserved().push(mp),
            r.spec_basedata() == self.spec_basedata(),
            r.spec_bin_size_limit() == self.spec_bin_size_limit(),
            r.spec_text_size_limit() == self.spec_text_size_limit(),
    {
        let mut s = self;
        s.reserved_mount_points.push(mp);
        s
    }
}

} // verus!
