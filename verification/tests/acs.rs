use std::collections::HashMap;

use viletech::acs::detail::{ascii_id, ScriptPointerH, ScriptPointerI, ScriptPointerZD, Stack};
use viletech::acs::script::{Kind, Pointer};
use viletech::acs::strpool::{StringPool, LIBID_OR};

#[test]
fn ascii_ids_are_little_endian() {
    assert_eq!(ascii_id(*b"ACSE"), u32::from_le_bytes(*b"ACSE"));
    assert_eq!(ascii_id([1, 0, 0, 0]), 1);
    assert_eq!(ascii_id([0, 0, 0, 0x80]), 0x8000_0000);
}

#[test]
fn kinds_from_codes() {
    assert_eq!(Kind::from(0u8), Kind::Closed);
    assert_eq!(Kind::from(8u8), Kind::WhiteReturn);
    assert_eq!(Kind::from(9u8), Kind::Unknown);
    assert_eq!(Kind::from(12u8), Kind::Lightning);
    assert_eq!(Kind::from(18u8), Kind::Reopen);
    assert_eq!(Kind::from(255u8), Kind::Unknown);
    assert_eq!(Kind::default(), Kind::Unknown);
}

#[test]
fn pointers_mimic_each_representation() {
    let mut p = Pointer::new();
    p.mimic_hexen(&ScriptPointerH { number: 1003, address: 40, arg_count: 2 });
    assert_eq!(p.number, (1003 & 1000) as i32);
    assert_eq!(p.kind, Kind::Open);
    assert_eq!((p.address, p.arg_count), (40, 2));

    p.mimic_zdoom(&ScriptPointerZD { number: -5, kind: 4, arg_count: 3, address: 7 });
    assert_eq!((p.number, p.kind, p.arg_count, p.address), (-5, Kind::Enter, 3, 7));

    p.mimic_intermediate(&ScriptPointerI { number: 9, kind: 16, arg_count: 1, address: 99 });
    assert_eq!((p.number, p.kind, p.arg_count, p.address), (9, Kind::Event, 1, 99));
    assert_eq!(p.flags, 0);
}

#[test]
fn identical_strings_share_an_id() {
    let mut pool = StringPool::default();
    let a = pool.add("hello").unwrap();
    let b = pool.add("world").unwrap();
    let c = pool.add("hello").unwrap();
    assert_eq!(a, c);
    assert_ne!(a, b);
    assert_eq!(a & LIBID_OR, LIBID_OR);
    assert_eq!(pool.get(a), Some("hello"));
    assert_eq!(pool.get(b), Some("world"));
    assert_eq!(pool.get(LIBID_OR | 500), None);
}

#[test]
fn collection_keeps_locked_and_marked_strings() {
    let mut pool = StringPool::default();
    let kept = pool.add("kept").unwrap();
    let marked = pool.add("marked").unwrap();
    let gone = pool.add("gone").unwrap();
    pool.lock(kept, 1);
    pool.gc_mark(marked);
    pool.gc_all();
    assert_eq!(pool.get(kept), Some("kept"));
    assert_eq!(pool.get(marked), Some("marked"));
    assert_eq!(pool.get(gone), None);

    // Marks only last one collection; the lock stays until released.
    pool.gc_all();
    assert_eq!(pool.get(marked), None);
    assert_eq!(pool.get(kept), Some("kept"));
    pool.unlock_for_level(1);
    pool.gc_all();
    assert_eq!(pool.get(kept), None);
}

#[test]
fn freed_entries_are_reused() {
    let mut pool = StringPool::default();
    let a = pool.add("a").unwrap();
    pool.gc_all();
    let b = pool.add("b").unwrap();
    assert_eq!(a, b);
    assert_eq!(pool.get(b), Some("b"));
}

#[test]
fn array_and_map_marking() {
    let mut pool = StringPool::default();
    let a = pool.add("a").unwrap();
    let b = pool.add("b").unwrap();
    let c = pool.add("c").unwrap();
    pool.lock_array(3, vec![a, 12345]);
    pool.gc_mark_array(vec![b]);
    let mut globals = HashMap::new();
    globals.insert(0, c as i32);
    pool.gc_mark_map(globals);
    pool.gc_all();
    assert_eq!(pool.get(a), Some("a"));
    assert_eq!(pool.get(b), Some("b"));
    assert_eq!(pool.get(c), Some("c"));
    pool.unlock_all();
    pool.gc_all();
    assert_eq!(pool.get(a), None);
    pool.clear();
    assert_eq!(pool.get(b), None);
}

#[test]
fn a_new_stack_is_empty_and_zeroed() {
    let s = Stack::default();
    assert_eq!(s.pointer, 0);
    assert!(s.memory.iter().all(|&v| v == 0));
    assert_eq!(s.memory.len(), 4096);
}

#[test]
fn locking_twice_for_a_level_is_undone_by_one_unlock() {
    let mut pool = StringPool::default();
    let s = pool.add("twice").unwrap();
    pool.lock(s, 4);
    pool.lock(s, 4);
    pool.unlock_for_level(4);
    // No lock for level 4 is left, so a collection frees the string.
    pool.gc_all();
    assert_eq!(pool.get(s), None);
}
