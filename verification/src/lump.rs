//! Reading the little-endian fields and fixed-width names of Doom lumps.

use vstd::prelude::*;

use crate::support::string_push;

verus! {

/// The unsigned 16-bit little-endian value at `o`.
pub open spec fn le_u16(b: Seq<u8>, o: int) -> u16 {
    (b[o] as int + 256 * (b[o + 1] as int)) as u16
}

/// The two's-complement 16-bit little-endian value at `o`.
pub open spec fn le_i16(b: Seq<u8>, o: int) -> i16 {
    let u = le_u16(b, o);
    if u >= 0x8000 {
        (u - 0x10000) as i16
    } else {
        u as i16
    }
}

/// The unsigned 32-bit little-endian value at `o`.
pub open spec fn le_u32(b: Seq<u8>, o: int) -> u32 {
    (le_u16(b, o) as int + 65536 * (le_u16(b, o + 2) as int)) as u32
}

/// The two's-complement 32-bit little-endian value at `o`.
pub open spec fn le_i32(b: Seq<u8>, o: int) -> i32 {
    let u = le_u32(b, o);
    if u >= 0x8000_0000 {
        (u - 0x1_0000_0000) as i32
    } else {
        u as i32
    }
}

pub fn read_u16(b: &[u8], o: usize) -> (r: u16)
    requires
        o + 2 <= b.len(),
    ensures
        r == le_u16(b@, o as int),
{
    b[o] as u16 + (b[o + 1] as u16) * 256
}

pub fn read_i16(b: &[u8], o: usize) -> (r: i16)
    requires
        o + 2 <= b.len(),
    ensures
        r == le_i16(b@, o as int),
{
    let u = read_u16(b, o);
    if u >= 0x8000 {
        (u as i32 - 0x10000) as i16
    } else {
        u as i16
    }
}

/// The characters of an eight-byte name up to its first NUL, each byte read
/// as the character with that code.
pub open spec fn id8_chars(raw: Seq<u8>) -> Seq<char>
    decreases raw.len(),
{
    if raw.len() == 0 || raw[0] == 0 {
        Seq::empty()
    } else {
        seq![raw[0] as char] + id8_chars(raw.drop_first())
    }
}

/// A name stored in eight bytes: absent if the first byte is NUL, otherwise
/// everything before the first NUL (no trailing NULs).
pub open spec fn spec_id8(raw: Seq<u8>) -> Option<Seq<char>> {
    if raw.len() == 0 || raw[0] == 0 {
        None
    } else {
        Some(id8_chars(raw))
    }
}

proof fn lemma_id8_step(raw: Seq<u8>, k: int)
    requires
        0 <= k < raw.len(),
        forall|j: int| 0 <= j < k ==> raw[j] != 0,
    ensures
        raw[k] != 0 ==> id8_chars(raw.subrange(0, k + 1)) == id8_chars(raw.subrange(0, k)).push(raw[k] as char),
        id8_chars(raw) == id8_chars(raw.subrange(0, k)) + id8_chars(raw.subrange(k, raw.len() as int)),
    decreases k,
{
    if k > 0 {
        let t = raw.drop_first();
        lemma_id8_step(t, k - 1);
        assert(t.subrange(0, k) == raw.subrange(0, k + 1).drop_first());
        assert(t.subrange(0, k - 1) == raw.subrange(0, k).drop_first());
        assert(t.subrange(k - 1, t.len() as int) == raw.subrange(k, raw.len() as int));
        assert(raw.subrange(0, k + 1)[0] == raw[0]);
        assert(raw.subrange(0, k)[0] == raw[0]);
        assert(seq![raw[0] as char] + id8_chars(t.subrange(0, k - 1)).push(raw[k] as char)
            == (seq![raw[0] as char] + id8_chars(t.subrange(0, k - 1))).push(raw[k] as char));
        assert(seq![raw[0] as char] + (id8_chars(t.subrange(0, k - 1)) + id8_chars(t.subrange(k - 1, t.len() as int)))
            == (seq![raw[0] as char] + id8_chars(t.subrange(0, k - 1))) + id8_chars(t.subrange(k - 1, t.len() as int)));
    } else {
        assert(raw.subrange(0, 0).len() == 0);
        assert(raw.subrange(0, raw.len() as int) == raw);
        if raw[0] != 0 {
            let one = raw.subrange(0, 1);
            assert(one.drop_first().len() == 0);
            assert(id8_chars(one) == seq![raw[0] as char] + id8_chars(one.drop_first()));
        }
    }
}

/// Reads an eight-byte name. Returns `None` if `id8` starts with a NUL.
/// Return values have no trailing NUL bytes.
pub fn read_id8(id8: [u8; 8]) -> (r: Option<String>)
    ensures
        r.is_none() == spec_id8(id8@).is_none(),
        r.is_some() ==> r->0@ == spec_id8(id8@)->0,
{
    if id8[0] == 0 {
        return None;
    }
    let mut ret = String::new();
    let mut k: usize = 0;
    while k < 8
        invariant
            k <= 8,
            id8@.len() == 8,
            id8@[0] != 0,
            forall|j: int| 0 <= j < k ==> id8@[j] != 0,
            ret@ == id8_chars(id8@.subrange(0, k as int)),
        decreases 8 - k,
    {
        if id8[k] == 0 {
            proof {
                lemma_id8_step(id8@, k as int);
                let rest = id8@.subrange(k as int, 8);
                assert(rest[0] == 0);
                assert(id8_chars(rest) == Seq::<char>::empty());
                assert(id8_chars(id8@) == id8_chars(id8@.subrange(0, k as int)) + Seq::<char>::empty());
            }
            return Some(ret);
        }
        proof {
            lemma_id8_step(id8@, k as int);
        }
        string_push(&mut ret, id8[k] as char);
        k = k + 1;
    }
    assert(id8@.subrange(0, 8) == id8@);
    Some(ret)
}

/// A name read from eight bytes never holds a NUL character: it stops at the first one.
pub proof fn law_names_hold_no_nul(raw: Seq<u8>)
    ensures
        spec_id8(raw) matches Some(s) ==> forall|i: int| 0 <= i < s.len() ==> s[i] != '\0',
        spec_id8(raw) matches Some(s) ==> s.len() <= raw.len(),
    decreases raw.len(),
{
    lemma_id8_chars_no_nul(raw);
}

proof fn lemma_id8_chars_no_nul(raw: Seq<u8>)
    ensures
        forall|i: int| 0 <= i < id8_chars(raw).len() ==> id8_chars(raw)[i] != '\0',
        id8_chars(raw).len() <= raw.len(),
    decreases raw.len(),
{
    if raw.len() > 0 && raw[0] != 0 {
        lemma_id8_chars_no_nul(raw.drop_first());
        let rest = id8_chars(raw.drop_first());
        assert forall|i: int| 0 <= i < id8_chars(raw).len() implies id8_chars(raw)[i] != '\0' by {
            if i > 0 {
                assert(id8_chars(raw)[i] == rest[i - 1]);
            } else {
                assert(id8_chars(raw)[0] == raw[0] as char);
                assert(raw[0] as char != '\0');
            }
        }
    }
}

} // verus!
