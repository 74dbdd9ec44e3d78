use sha3::Digest;
use viletech::basedata::{checksum, is_reserved_mount_point, verify_checksum, Error};

/// The decimal bytes of the SHA3-256 digest of the empty string
/// (a7ffc6f8bf1ed76651c14756a061d662f580ff4de43b49fa82d80a4b80f8434a).
const EMPTY_SUM: &str = "16725519824819130215102811937186160972149824512825577228597325013021610751282486774";

#[test]
fn checksum_of_nothing_is_the_known_digest() {
    assert_eq!(checksum(b""), EMPTY_SUM);
    assert!(verify_checksum(b"", EMPTY_SUM).is_ok());
    assert!(matches!(verify_checksum(b"x", EMPTY_SUM), Err(Error::ChecksumMismatch)));
}

#[test]
fn checksum_writes_each_byte_in_decimal() {
    let digest = <sha3::Sha3_256 as Digest>::digest(b"viletech");
    let expected: String = digest.iter().map(|b| b.to_string()).collect();
    assert_eq!(checksum(b"viletech"), expected);
}

#[test]
fn reserved_mount_points() {
    assert!(is_reserved_mount_point("viletech"));
    assert!(is_reserved_mount_point("zs"));
    assert!(!is_reserved_mount_point("VileTech"));
    assert!(!is_reserved_mount_point("doom2"));
}
