//! Progress of a load, shared between the thread that loads and those that
//! watch or cancel it. The counters are atomics written by other threads, so
//! what a read gives is whatever was last stored.

use std::sync::atomic::{AtomicBool, AtomicUsize};
use vstd::prelude::*;

verus! {

/// Whether `progress` has reached `target`. Both trackers decide whether a
/// phase is done by this, on the counter values they read.
pub fn progress_reached(progress: u64, target: u64) -> (r: bool)
    ensures
        r == (progress >= target),
{
    progress >= target
}

/// `progress_reached` on counters held as `usize`.
fn counts_reached(progress: usize, target: usize) -> (r: bool)
    ensures
        r == (progress >= target),
{
    progress_reached(progress as u64, target as u64)
}

/// Wrap in an `Arc` and use to check how far along a load operation is.
#[derive(Debug)]
pub struct LoadTracker {
    /// Set to make the load thread return to be joined as soon as possible.
    cancelled: AtomicBool,
    /// The number of mounts performed (successfully or not) thus far.
    mount_progress: AtomicUsize,
    /// The number of mounts requested by the user.
    mount_target: AtomicUsize,
    /// The number of files added during the mount phase which have been
    /// processed into prepared assets thus far.
    prep_progress: AtomicUsize,
    /// The number of files added during the mount phase.
    prep_target: AtomicUsize,
}

impl LoadTracker {
    /// A tracker with nothing requested, nothing done, and no cancel.
    pub fn new() -> (r: LoadTracker) {
        LoadTracker {
            cancelled: AtomicBool::new(false),
            mount_progress: AtomicUsize::new(0),
            mount_target: AtomicUsize::new(0),
            prep_progress: AtomicUsize::new(0),
            prep_target: AtomicUsize::new(0),
        }
    }

    pub fn mount_progress(&self) -> usize {
        self.mount_progress.load(std::sync::atomic::Ordering::SeqCst)
    }

    pub fn mount_target(&self) -> usize {
        self.mount_target.load(std::sync::atomic::Ordering::SeqCst)
    }

    pub fn prep_progress(&self) -> usize {
        self.prep_progress.load(std::sync::atomic::Ordering::SeqCst)
    }

    pub fn prep_target(&self) -> usize {
        self.prep_target.load(std::sync::atomic::Ordering::SeqCst)
    }

    /// Whether the mount progress read has reached the mount target read.
    pub fn mount_done(&self) -> bool {
        let p = self.mount_progress.load(std::sync::atomic::Ordering::SeqCst);
        let t = self.mount_target.load(std::sync::atomic::Ordering::SeqCst);
        counts_reached(p, t)
    }

    /// Whether the preparation progress read has reached the target read.
    pub fn prep_done(&self) -> bool {
        let p = self.prep_progress.load(std::sync::atomic::Ordering::SeqCst);
        let t = self.prep_target.load(std::sync::atomic::Ordering::SeqCst);
        counts_reached(p, t)
    }

    /// Asks the load to stop as soon as possible.
    pub fn cancel(&self) {
        self.cancelled.store(true, std::sync::atomic::Ordering::SeqCst);
    }

    pub fn set_mount_target(&self, target: usize) {
        self.mount_target.store(target, std::sync::atomic::Ordering::SeqCst);
    }

    pub fn add_to_prep_target(&self, files: usize) {
        self.prep_target.fetch_add(files, std::sync::atomic::Ordering::SeqCst);
    }

    pub fn add_mount_progress(&self, amount: usize) {
        self.mount_progress.fetch_add(amount, std::sync::atomic::Ordering::SeqCst);
    }

    pub fn add_prep_progress(&self, amount: usize) {
        self.prep_progress.fetch_add(amount, std::sync::atomic::Ordering::SeqCst);
    }

    /// Marks preparation as done: the progress becomes the target.
    pub fn finish_prep(&self) {
        let t = self.prep_target.load(std::sync::atomic::Ordering::SeqCst);
        self.prep_progress.store(t, std::sync::atomic::Ordering::SeqCst);
    }

    pub fn is_cancelled(&self) -> bool {
        self.cancelled.load(std::sync::atomic::Ordering::SeqCst)
    }
}

} // verus!
