//! Progress of a mount operation counted in bytes, and of post-processing
//! counted in files. The counters are atomics written by other threads.

use std::sync::atomic::{AtomicU32, AtomicU64};
use vstd::prelude::*;

verus! {

/// `progress_reached` on file counters held as `u32`.
fn files_reached(progress: u32, target: u32) -> (r: bool)
    ensures
        r == (progress >= target),
{
    crate::tracker::progress_reached(progress as u64, target as u64)
}

/// Wrap in an `Arc` and use to check how far along a mount is.
#[derive(Debug)]
pub struct LoadTracker {
    /// The total number of bytes mounted thus far.
    mount_progress: AtomicU64,
    /// The total number of bytes requested for mounting.
    mount_target: AtomicU64,
    pproc_progress: AtomicU32,
    pproc_target: AtomicU32,
}

impl LoadTracker {
    /// A tracker with nothing requested and nothing done.
    pub fn new() -> (r: LoadTracker) {
        LoadTracker {
            mount_progress: AtomicU64::new(0),
            mount_target: AtomicU64::new(0),
            pproc_progress: AtomicU32::new(0),
            pproc_target: AtomicU32::new(0),
        }
    }

    /// Whether the mounted bytes read have reached the requested bytes read.
    pub fn mount_done(&self) -> bool {
        let p = self.mount_progress.load(std::sync::atomic::Ordering::SeqCst);
        let t = self.mount_target.load(std::sync::atomic::Ordering::SeqCst);
        crate::tracker::progress_reached(p, t)
    }

    /// Whether the post-processed files read have reached the target read.
    pub fn pproc_done(&self) -> bool {
        let p = self.pproc_progress.load(std::sync::atomic::Ordering::SeqCst);
        let t = self.pproc_target.load(std::sync::atomic::Ordering::SeqCst);
        files_reached(p, t)
    }

    pub fn add_mount_progress(&self, bytes: u64) {
        self.mount_progress.fetch_add(bytes, std::sync::atomic::Ordering::SeqCst);
    }
}

} // verus!
