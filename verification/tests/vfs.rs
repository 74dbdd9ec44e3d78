use indexmap::IndexSet;
use viletech::vfs::{File, VfsError, VirtualFs};

fn dir(children: &[&str]) -> File {
    let mut set = IndexSet::new();
    for c in children {
        set.insert(c.to_string());
    }
    File::Directory(set)
}

fn text(s: &str) -> File {
    File::Text(s.into())
}

fn binary(b: &[u8]) -> File {
    File::Binary(b.into())
}

fn children_of(vfs: &VirtualFs, path: &str) -> Vec<String> {
    let f = vfs.get(path).unwrap();
    f.child_paths().unwrap().into_iter().map(|s| s.to_string()).collect()
}

#[test]
fn fresh_vfs_holds_only_an_empty_root() {
    let vfs = VirtualFs::default();
    assert_eq!(vfs.files_len(), 1);
    let root = vfs.root();
    assert_eq!(root.path_str(), "/");
    assert!(root.is_dir());
    assert_eq!(root.child_count(), 0);
    assert!(root.parent().is_none());
    assert!(vfs.contains("/"));
    assert!(vfs.is_dir("/"));
}

#[test]
fn insert_then_get_gives_the_file() {
    let mut vfs = VirtualFs::default();
    assert!(vfs.insert("/a.txt".to_string(), text("hello")).is_none());
    let f = vfs.get("/a.txt").unwrap();
    assert_eq!(f.read_str(), "hello");
    assert_eq!(f.read_bytes(), b"hello");
    assert!(vfs.contains("/a.txt"));
    assert!(!vfs.is_dir("/a.txt"));
    assert!(vfs.get("/b.txt").is_none());
    assert_eq!(vfs.files_len(), 2);
}

#[test]
fn insert_over_a_path_returns_the_old_file_and_keeps_its_place() {
    let mut vfs = VirtualFs::default();
    vfs.insert("/a".to_string(), text("one"));
    vfs.insert("/b".to_string(), text("two"));
    let old = vfs.insert("/a".to_string(), binary(&[1, 2, 3])).unwrap();
    assert_eq!(old.read_str(), "one");
    let paths: Vec<String> = vfs.iter().iter().map(|f| f.path_str().to_string()).collect();
    assert_eq!(paths, vec!["/", "/a", "/b"]);
    assert_eq!(vfs.get("/a").unwrap().read_bytes(), &[1, 2, 3]);
    assert_eq!(vfs.get("/b").unwrap().read_str(), "two");
}

#[test]
fn remove_unlinks_a_leaf_from_its_parent() {
    let mut vfs = VirtualFs::default();
    vfs.insert("/".to_string(), dir(&["/d"]));
    vfs.insert("/d".to_string(), dir(&["/d/x", "/d/y", "/d/z"]));
    vfs.insert("/d/x".to_string(), text("x"));
    vfs.insert("/d/y".to_string(), text("y"));
    vfs.insert("/d/z".to_string(), text("z"));
    let removed = vfs.remove("/d/x").unwrap();
    assert_eq!(removed.read_str(), "x");
    assert!(!vfs.contains("/d/x"));
    // A swap-remove: the last child takes the removed one's place.
    assert_eq!(children_of(&vfs, "/d"), vec!["/d/z", "/d/y"]);
    assert_eq!(vfs.files_len(), 4);
    // Removing an absent path changes nothing.
    assert!(vfs.remove("/d/x").is_none());
    assert_eq!(vfs.files_len(), 4);
}

#[test]
fn remove_recursive_removes_a_directory_and_unlinks_it() {
    let mut vfs = VirtualFs::default();
    vfs.insert("/".to_string(), dir(&["/d", "/f"]));
    vfs.insert("/d".to_string(), dir(&["/d/gone"]));
    vfs.insert("/f".to_string(), text("f"));
    vfs.remove_recursive("/d");
    assert!(!vfs.contains("/d"));
    assert_eq!(children_of(&vfs, "/"), vec!["/f"]);
    vfs.remove_recursive("/f");
    assert!(!vfs.contains("/f"));
    assert_eq!(vfs.root().child_count(), 0);
    assert_eq!(vfs.files_len(), 1);
    // An absent path is not an error.
    vfs.remove_recursive("/nothing");
    assert_eq!(vfs.files_len(), 1);
}

#[test]
fn clear_leaves_only_the_root() {
    let mut vfs = VirtualFs::default();
    vfs.insert("/".to_string(), dir(&["/a", "/b"]));
    vfs.insert("/a".to_string(), text("a"));
    vfs.insert("/b".to_string(), File::Empty);
    vfs.clear();
    assert_eq!(vfs.files_len(), 1);
    assert_eq!(vfs.root().child_count(), 0);
    assert!(vfs.get("/a").is_none());
}

#[test]
fn file_reads_and_errors() {
    let t = text("héllo");
    assert!(t.is_text() && t.is_readable() && t.is_leaf());
    assert_eq!(t.byte_len(), 6);
    assert_eq!(t.try_read_str(), Ok("héllo"));
    let b = binary(&[0xFF, 0]);
    assert!(b.is_binary());
    assert_eq!(b.try_read_str(), Err(VfsError::StringReadFail));
    assert_eq!(b.try_read_bytes(), Ok(&[0xFF, 0][..]));
    let e = File::Empty;
    assert!(e.is_empty() && !e.is_readable());
    assert_eq!(e.byte_len(), 0);
    assert_eq!(e.try_read_bytes(), Err(VfsError::ByteReadFail));
    let d = dir(&["/x"]);
    assert!(d.is_dir() && !d.is_leaf());
    assert_eq!(d.try_read_bytes(), Err(VfsError::ByteReadFail));
    assert_eq!(d.child_count(), 1);
    assert_eq!(d.byte_len(), 0);
    assert!(t.child_paths().is_none());
}

#[test]
fn mem_usage_sums_the_bytes_of_all_files() {
    let mut vfs = VirtualFs::default();
    vfs.insert("/a".to_string(), text("abc"));
    vfs.insert("/b".to_string(), binary(&[1, 2, 3, 4]));
    vfs.insert("/c".to_string(), File::Empty);
    assert_eq!(vfs.mem_usage(), 7);
}

#[test]
fn path_pieces_of_a_file_ref() {
    let mut vfs = VirtualFs::default();
    vfs.insert("/".to_string(), dir(&["/dir"]));
    vfs.insert("/dir".to_string(), dir(&["/dir/b.tar.gz", "/dir/.hidden"]));
    vfs.insert("/dir/b.tar.gz".to_string(), File::Empty);
    vfs.insert("/dir/.hidden".to_string(), File::Empty);
    let f = vfs.get("/dir/b.tar.gz").unwrap();
    assert_eq!(f.file_name(), "b.tar.gz");
    assert_eq!(f.file_stem(), "b.tar");
    assert_eq!(f.file_prefix(), "b");
    assert_eq!(f.path_extension(), Some("gz"));
    assert_eq!(f.parent_path(), Some("/dir"));
    assert_eq!(f.parent().unwrap().path_str(), "/dir");
    let h = vfs.get("/dir/.hidden").unwrap();
    assert_eq!(h.file_name(), ".hidden");
    assert_eq!(h.file_stem(), ".hidden");
    assert_eq!(h.file_prefix(), "");
    assert_eq!(h.path_extension(), None);
    let d = vfs.get("/dir").unwrap();
    assert_eq!(d.parent_path(), Some("/"));
    assert_eq!(d.child_index("/dir/.hidden"), Some(1));
    assert_eq!(d.child_index("/dir/none"), None);
    let kids: Vec<String> = d.children().unwrap().iter().map(|k| k.path_str().to_string()).collect();
    assert_eq!(kids, vec!["/dir/b.tar.gz", "/dir/.hidden"]);
    let root = vfs.root();
    assert_eq!(root.file_name(), "/");
    assert_eq!(root.file_stem(), "/");
    assert_eq!(root.path_extension(), None);
}
