//! The audio core's newer interface: music formats, sound fonts, and the
//! choice of a channel for a sound effect.

pub mod midi;

use vstd::prelude::*;

verus! {

/// A sound effect was sent to a channel that does not exist.
#[derive(Debug, Clone, Copy, PartialEq, Eq)]
pub struct InvalidChannel {
    pub channel: usize,
    pub chan_len: usize,
}

/// The position of the last free channel, if any.
pub open spec fn last_free(occupied: Seq<bool>) -> Option<int>
    decreases occupied.len(),
{
    if occupied.len() == 0 {
        None
    } else if !occupied.last() {
        Some(occupied.len() - 1)
    } else {
        last_free(occupied.drop_last())
    }
}

/// The channel a sound effect goes to when none is asked for: how far the
/// last free channel lies from the end, or else the last channel (which, with
/// no channels at all, wraps around to `usize::MAX`).
pub open spec fn default_channel(occupied: Seq<bool>) -> int {
    match last_free(occupied) {
        Some(i) => occupied.len() - 1 - i,
        None => if occupied.len() == 0 {
            usize::MAX as int
        } else {
            occupied.len() - 1
        },
    }
}

proof fn lemma_last_free_bounds(occupied: Seq<bool>)
    ensures
        last_free(occupied) matches Some(i) ==> 0 <= i < occupied.len(),
    decreases occupied.len(),
{
    if occupied.len() > 0 && occupied.last() {
        lemma_last_free_bounds(occupied.drop_last());
    }
}

/// Picks the channel for a sound effect, given which channels are playing:
/// the one asked for, or else the default one; an error if that channel does
/// not exist.
pub fn sfx_channel(occupied: &[bool], channel: Option<usize>) -> (r: Result<usize, InvalidChannel>)
    ensures
        ({
            let c = match channel {
                Some(c) => c as int,
                None => default_channel(occupied@),
            };
            if c < occupied@.len() {
                r == Ok::<usize, InvalidChannel>(c as usize)
            } else {
                r == Err::<usize, InvalidChannel>(InvalidChannel { channel: c as usize, chan_len: occupied@.len() as usize })
            }
        }),
{
    let len = occupied.len();
    let c = match channel {
        Some(c) => c,
        None => {
            let mut k = len;
            assert(occupied@.take(len as int) =~= occupied@);
            while k > 0 && occupied[k - 1]
                invariant
                    k <= len,
                    len == occupied@.len(),
                    last_free(occupied@) == last_free(occupied@.take(k as int)),
                decreases k,
            {
                assert(occupied@.take(k as int).drop_last() =~= occupied@.take(k - 1));
                k = k - 1;
            }
            proof {
                lemma_last_free_bounds(occupied@);
            }
            if k == 0 {
                len.wrapping_sub(1)
            } else {
                len - k
            }
        },
    };
    if c < len {
        Ok(c)
    } else {
        Err(InvalidChannel { channel: c, chan_len: len })
    }
}

} // verus!
