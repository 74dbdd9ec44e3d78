//! The engine's base data: assets required for VileTech applications to
//! function, checked against a checksum recorded at installation.

use vstd::prelude::*;

use crate::support::{str_eq, string_push};

verus! {

#[verifier::external_type_specification]
#[verifier::external_body]
pub struct ExIoError(std::io::Error);

/// Why the base data cannot be used.
#[derive(Debug)]
pub enum Error {
    Missing,
    ReadFailure(std::io::Error),
    ChecksumMismatch,
}

/// Names the SHA3-256 digest that `sha3::Sha3_256` computes over a byte string.
pub uninterp spec fn sha3_256_of(bytes: Seq<u8>) -> Seq<u8>;

/// Hashes `bytes` with `sha3::Sha3_256` (new, update, finalize). Claimed:
/// the digest is the SHA3-256 of exactly these bytes, 32 bytes long.
#[verifier::external_body]
fn sha3_256(bytes: &[u8]) -> (r: Vec<u8>)
    ensures
        r@ == sha3_256_of(bytes@),
        r@.len() == 32,
{
    let mut hasher = <sha3::Sha3_256 as sha3::Digest>::new();
    sha3::Digest::update(&mut hasher, bytes);
    sha3::Digest::finalize(hasher).to_vec()
}

/// The decimal digit for `d` (below ten).
pub open spec fn digit(d: int) -> char {
    (('0' as int) + d) as char
}

/// The decimal representation of `n`, without leading zeros.
pub open spec fn decimal(n: nat) -> Seq<char>
    decreases n,
{
    if n < 10 {
        seq![digit(n as int)]
    } else {
        decimal(n / 10).push(digit((n % 10) as int))
    }
}

/// The decimal representations of the bytes of `d`, one after another.
pub open spec fn checksum_text(d: Seq<u8>) -> Seq<char>
    decreases d.len(),
{
    if d.len() == 0 {
        Seq::empty()
    } else {
        checksum_text(d.drop_last()) + decimal(d.last() as nat)
    }
}

fn digit_char(d: u8) -> (r: char)
    requires
        d < 10,
    ensures
        r == digit(d as int),
{
    (48 + d) as char
}

/// Appends the decimal representation of `b` to `s`.
fn push_decimal(s: &mut String, b: u8)
    ensures
        final(s)@ == old(s)@ + decimal(b as nat),
{
    proof {
        reveal_with_fuel(decimal, 3);
    }
    let ghost start = s@;
    if b >= 100 {
        string_push(s, digit_char(b / 100));
        string_push(s, digit_char((b / 10) % 10));
        string_push(s, digit_char(b % 10));
        assert(decimal(b as nat) =~= seq![digit((b / 100) as int), digit(((b / 10) % 10) as int), digit((b % 10) as int)]);
        assert(s@ =~= start + decimal(b as nat));
    } else if b >= 10 {
        string_push(s, digit_char(b / 10));
        string_push(s, digit_char(b % 10));
        assert(decimal(b as nat) =~= seq![digit((b / 10) as int), digit((b % 10) as int)]);
        assert(s@ =~= start + decimal(b as nat));
    } else {
        string_push(s, digit_char(b));
        assert(s@ =~= start + decimal(b as nat));
    }
}

/// The checksum of `bytes` as the installer records it: the decimal values
/// of the SHA3-256 digest's bytes, written one after another.
pub fn checksum(bytes: &[u8]) -> (r: String)
    ensures
        r@ == checksum_text(sha3_256_of(bytes@)),
{
    let digest = sha3_256(bytes);
    let mut s = String::new();
    let mut i: usize = 0;
    while i < digest.len()
        invariant
            i <= digest@.len(),
            digest@ == sha3_256_of(bytes@),
            s@ == checksum_text(digest@.take(i as int)),
        decreases digest@.len() - i,
    {
        assert(digest@.take(i + 1).drop_last() =~= digest@.take(i as int));
        push_decimal(&mut s, digest[i]);
        i = i + 1;
    }
    assert(digest@.take(i as int) =~= digest@);
    s
}

/// Checks the bytes of the base data against the checksum recorded for it.
pub fn verify_checksum(bytes: &[u8], expected: &str) -> (r: Result<(), Error>)
    ensures
        r is Ok <==> checksum_text(sha3_256_of(bytes@)) == expected@,
        r matches Err(e) ==> e is ChecksumMismatch,
{
    let sum = checksum(bytes);
    if str_eq(sum.as_str(), expected) {
        Ok(())
    } else {
        Err(Error::ChecksumMismatch)
    }
}

/// Whether `mp` is one of the mount points kept for the engine.
pub open spec fn is_reserved(mp: Seq<char>) -> bool {
    mp == "vile"@ || mp == "viletec"@ || mp == "vt"@ || mp == "vtec"@ || mp == "vtech"@ || mp == "viletech"@
        || mp == "lith"@ || mp == "lithica"@ || mp == "zs"@ || mp == "zscript"@
}

/// Whether `mp` is one of the mount points kept for the engine.
pub fn is_reserved_mount_point(mp: &str) -> (r: bool)
    ensures
        r == is_reserved(mp@),
{
    str_eq(mp, "vile") || str_eq(mp, "viletec") || str_eq(mp, "vt") || str_eq(mp, "vtec") || str_eq(mp, "vtech")
        || str_eq(mp, "viletech") || str_eq(mp, "lith") || str_eq(mp, "lithica") || str_eq(mp, "zs") || str_eq(
        mp,
        "zscript",
    )
}

} // verus!
