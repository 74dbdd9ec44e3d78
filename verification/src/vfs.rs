//! The virtual file system: a flat, insertion-ordered map from virtual paths
//! to files, in which directories list the paths of their children.
//!
//! Virtual paths are `/`-separated strings; the root is `/`. The parent of a
//! path is everything before its last `/` (the root, if that is the first
//! character), and a path without any `/` has the empty path as its parent.

use vstd::prelude::*;

use indexmap::{IndexMap, IndexSet};

verus! {

#[verifier::external_type_specification]
#[verifier::external_body]
#[verifier::reject_recursive_types(K)]
#[verifier::reject_recursive_types(V)]
#[verifier::reject_recursive_types(S)]
pub struct ExIndexMap<K, V, S>(IndexMap<K, V, S>);

#[verifier::external_type_specification]
#[verifier::external_body]
#[verifier::reject_recursive_types(T)]
#[verifier::reject_recursive_types(S)]
pub struct ExIndexSet<T, S>(IndexSet<T, S>);

/// The items of a set of paths, in the set's order.
pub uninterp spec fn set_items(s: IndexSet<String>) -> Seq<Seq<char>>;

/// The entries of a map from paths to files, in the map's order, each file
/// taken by its view.
pub uninterp spec fn map_entries(m: IndexMap<String, File>) -> Seq<(Seq<char>, FileView)>;

/// What a file holds, as plain values.
pub enum FileView {
    Binary(Seq<u8>),
    Text(Seq<char>),
    Empty,
    Directory(Seq<Seq<char>>),
}

/// A virtual directory or virtual proxy for a physical file or archive entry.
#[derive(Debug)]
pub enum File {
    /// Fallback storage type for physical files or archive entries that can't be
    /// identified as anything else and don't pass UTF-8 validation.
    Binary(Box<[u8]>),
    /// All files that pass UTF-8 validation end up stored as one of these.
    Text(Box<str>),
    /// If a file's length is exactly 0, it's stored as this kind.
    Empty,
    /// The content of mounts that are not single files, as well as the root
    /// node: the paths of its children.
    Directory(IndexSet<String>),
}

impl View for File {
    type V = FileView;

    open spec fn view(&self) -> FileView {
        match self {
            File::Binary(b) => FileView::Binary(b@),
            File::Text(s) => FileView::Text(s@),
            File::Empty => FileView::Empty,
            File::Directory(c) => FileView::Directory(set_items(*c)),
        }
    }
}

// The model /////////////////////////////////////////////////////////////////

/// The path of the root directory.
pub open spec fn root_path() -> Seq<char> {
    seq!['/']
}

/// `/` and the empty path both name the root.
pub open spec fn is_root_path(p: Seq<char>) -> bool {
    p == root_path() || p.len() == 0
}

/// The position of the last `c` in `p`, or -1 if there is none.
pub open spec fn last_pos(p: Seq<char>, c: char) -> int
    decreases p.len(),
{
    if p.len() == 0 {
        -1
    } else if p.last() == c {
        p.len() - 1
    } else {
        last_pos(p.drop_last(), c)
    }
}

/// The position of the first `c` in `p`, or -1 if there is none.
pub open spec fn first_pos(p: Seq<char>, c: char) -> int
    decreases p.len(),
{
    if p.len() == 0 {
        -1
    } else if p[0] == c {
        0
    } else if first_pos(p.drop_first(), c) < 0 {
        -1
    } else {
        first_pos(p.drop_first(), c) + 1
    }
}

/// The position of the last `/` in `p`, or -1 if there is none.
pub open spec fn last_slash(p: Seq<char>) -> int {
    last_pos(p, '/')
}

/// The parent of a path; the root has none.
pub open spec fn parent_of(p: Seq<char>) -> Option<Seq<char>> {
    if is_root_path(p) {
        None
    } else if last_slash(p) < 0 {
        Some(Seq::empty())
    } else if last_slash(p) == 0 {
        Some(root_path())
    } else {
        Some(p.take(last_slash(p)))
    }
}

/// Whether some entry has the key `k`.
pub open spec fn has_key(e: Seq<(Seq<char>, FileView)>, k: Seq<char>) -> bool {
    exists|i: int| 0 <= i < e.len() && #[trigger] e[i].0 == k
}

/// The position of the entry with key `k`, or -1 if there is none.
pub open spec fn key_index(e: Seq<(Seq<char>, FileView)>, k: Seq<char>) -> int {
    if has_key(e, k) {
        choose|i: int| 0 <= i < e.len() && #[trigger] e[i].0 == k
    } else {
        -1
    }
}

/// The file stored under `k`.
pub open spec fn lookup(e: Seq<(Seq<char>, FileView)>, k: Seq<char>) -> Option<FileView> {
    if has_key(e, k) {
        Some(e[key_index(e, k)].1)
    } else {
        None
    }
}

/// No two entries share a key.
pub open spec fn keys_unique(e: Seq<(Seq<char>, FileView)>) -> bool {
    forall|i: int, j: int| 0 <= i < j < e.len() ==> #[trigger] e[i].0 != #[trigger] e[j].0
}

/// Whether `x` is one of the items.
pub open spec fn has_item(s: Seq<Seq<char>>, x: Seq<char>) -> bool {
    exists|i: int| 0 <= i < s.len() && #[trigger] s[i] == x
}

/// The position of `x` among the items, or -1 if it is not there.
pub open spec fn item_index(s: Seq<Seq<char>>, x: Seq<char>) -> int {
    if has_item(s, x) {
        choose|i: int| 0 <= i < s.len() && #[trigger] s[i] == x
    } else {
        -1
    }
}

/// No item occurs twice.
pub open spec fn items_unique(s: Seq<Seq<char>>) -> bool {
    forall|i: int, j: int| 0 <= i < j < s.len() ==> #[trigger] s[i] != #[trigger] s[j]
}

/// `s` with its element at `i` replaced by its last element, which is then
/// dropped: the effect of a swap-remove.
pub open spec fn swap_removed<A>(s: Seq<A>, i: int) -> Seq<A> {
    s.update(i, s.last()).drop_last()
}

/// The entries after removing the one under `k`, if any, by swap-remove.
pub open spec fn without_key(e: Seq<(Seq<char>, FileView)>, k: Seq<char>) -> Seq<(Seq<char>, FileView)> {
    if has_key(e, k) {
        swap_removed(e, key_index(e, k))
    } else {
        e
    }
}

/// The items after removing `x`, if present, by swap-remove.
pub open spec fn without_item(s: Seq<Seq<char>>, x: Seq<char>) -> Seq<Seq<char>> {
    if has_item(s, x) {
        swap_removed(s, item_index(s, x))
    } else {
        s
    }
}

/// The entries after storing `f` under `k`: an existing entry keeps its
/// place, a new one goes last.
pub open spec fn with_entry(e: Seq<(Seq<char>, FileView)>, k: Seq<char>, f: FileView) -> Seq<(Seq<char>, FileView)> {
    if has_key(e, k) {
        e.update(key_index(e, k), (k, f))
    } else {
        e.push((k, f))
    }
}

/// The entries of a well-formed file system: the root directory first, and
/// no path twice.
pub open spec fn vfs_valid(e: Seq<(Seq<char>, FileView)>) -> bool {
    &&& e.len() >= 1
    &&& e[0].0 == root_path()
    &&& keys_unique(e)
}

/// The entries after removing `child` from the children of the directory
/// under `parent`; `None` if there is no such directory.
pub open spec fn unparented(e: Seq<(Seq<char>, FileView)>, parent: Seq<char>, child: Seq<char>) -> Option<
    Seq<(Seq<char>, FileView)>,
> {
    match lookup(e, parent) {
        Some(FileView::Directory(items)) => Some(
            e.update(key_index(e, parent), (parent, FileView::Directory(without_item(items, child)))),
        ),
        _ => None,
    }
}

/// The entries after removing the file under `p` and unlinking it from its
/// parent; `None` where that fails: `p` names the root, the file is a
/// directory with children, or its parent is not a stored directory.
pub open spec fn removal(e: Seq<(Seq<char>, FileView)>, p: Seq<char>) -> Option<Seq<(Seq<char>, FileView)>> {
    if is_root_path(p) {
        None
    } else if !has_key(e, p) {
        Some(e)
    } else if child_count_of(lookup(e, p).unwrap()) != 0 {
        None
    } else {
        unparented(without_key(e, p), parent_of(p).unwrap(), p)
    }
}

/// The entries after removing the file under `p` as `removal` does and then,
/// if it was a directory, each of its children in turn by the same rule;
/// `None` where a step fails. `fuel` bounds the depth, and is enough when it
/// is at least the number of entries.
pub open spec fn removal_tree(e: Seq<(Seq<char>, FileView)>, p: Seq<char>, fuel: nat) -> Option<
    Seq<(Seq<char>, FileView)>,
>
    decreases fuel, 0int, 0int,
{
    if is_root_path(p) {
        None
    } else if !has_key(e, p) {
        Some(e)
    } else if fuel == 0 {
        None
    } else {
        match unparented(without_key(e, p), parent_of(p).unwrap(), p) {
            None => None,
            Some(e2) => match lookup(e, p).unwrap() {
                FileView::Directory(items) => removal_forest(e2, items, 0, (fuel - 1) as nat),
                _ => Some(e2),
            },
        }
    }
}

/// `removal_tree` applied to `items[k]`, `items[k + 1]`, ... in turn.
pub open spec fn removal_forest(e: Seq<(Seq<char>, FileView)>, items: Seq<Seq<char>>, k: nat, fuel: nat) -> Option<
    Seq<(Seq<char>, FileView)>,
>
    decreases fuel, 1int, items.len() - k,
{
    if k >= items.len() {
        Some(e)
    } else {
        match removal_tree(e, items[k as int], fuel) {
            None => None,
            Some(e2) => removal_forest(e2, items, k + 1, fuel),
        }
    }
}

/// The number of bytes held by the first `n` entries.
pub open spec fn bytes_held(e: Seq<(Seq<char>, FileView)>, n: int) -> nat
    decreases n,
{
    if n <= 0 {
        0
    } else {
        bytes_held(e, n - 1) + byte_len_of(e[n - 1].1)
    }
}

/// The last component of a path; the root's is `/`.
pub open spec fn name_of(p: Seq<char>) -> Seq<char> {
    if is_root_path(p) {
        root_path()
    } else {
        p.skip(last_slash(p) + 1)
    }
}

/// The last component without its final extension: the whole component if
/// it has no `.` past its first character.
pub open spec fn stem_of(p: Seq<char>) -> Seq<char> {
    let n = name_of(p);
    if is_root_path(p) || last_pos(n, '.') <= 0 {
        n
    } else {
        n.take(last_pos(n, '.'))
    }
}

/// The stem up to its first `.`.
pub open spec fn prefix_of(p: Seq<char>) -> Seq<char> {
    let st = stem_of(p);
    if is_root_path(p) || first_pos(st, '.') < 0 {
        st
    } else {
        st.take(first_pos(st, '.'))
    }
}

/// What follows the final `.` of the last component, if it has one past its
/// first character.
pub open spec fn extension_of(p: Seq<char>) -> Option<Seq<char>> {
    let n = name_of(p);
    if is_root_path(p) || last_pos(n, '.') <= 0 {
        None
    } else {
        Some(n.skip(last_pos(n, '.') + 1))
    }
}

// Wrappers of the collections ///////////////////////////////////////////////

/// `IndexSet::new`: a set with no items. (An `IndexSet` holds each item
/// at most once.)
#[verifier::external_body]
fn set_new() -> (s: IndexSet<String>)
    ensures
        set_items(s) == Seq::<Seq<char>>::empty(),
        items_unique(set_items(s)),
{
    IndexSet::new()
}

/// `IndexMap::new`: a map with no entries.
#[verifier::external_body]
fn map_new() -> (m: IndexMap<String, File>)
    ensures
        map_entries(m) == Seq::<(Seq<char>, FileView)>::empty(),
{
    IndexMap::new()
}

/// `IndexMap::len`: the number of entries.
#[verifier::external_body]
fn map_len(m: &IndexMap<String, File>) -> (n: usize)
    ensures
        n == map_entries(*m).len(),
{
    m.len()
}

/// `IndexMap::get_index`: the entry at position `i`, if there is one.
#[verifier::external_body]
fn map_get_index(m: &IndexMap<String, File>, i: usize) -> (r: Option<(&String, &File)>)
    ensures
        i < map_entries(*m).len() ==> (r is Some && r.unwrap().0@ == map_entries(*m)[i as int].0 && r.unwrap().1@
            == map_entries(*m)[i as int].1),
        i >= map_entries(*m).len() ==> r is None,
{
    m.get_index(i)
}

/// `IndexMap::get_key_value`: the entry whose key equals `k`, if there is
/// one. (Keys of an `IndexMap` are unique.)
#[verifier::external_body]
fn map_get_key_value<'a>(m: &'a IndexMap<String, File>, k: &str) -> (r: Option<(&'a String, &'a File)>)
    ensures
        r is Some <==> has_key(map_entries(*m), k@),
        r is Some ==> (r.unwrap().0@ == k@ && r.unwrap().1@ == map_entries(*m)[key_index(map_entries(*m), k@)].1),
{
    m.get_key_value(k)
}

/// `IndexMap::contains_key`: whether some entry has the key `k`.
#[verifier::external_body]
fn map_contains_key(m: &IndexMap<String, File>, k: &str) -> (r: bool)
    ensures
        r == has_key(map_entries(*m), k@),
{
    m.contains_key(k)
}

/// `IndexMap::get`: the file stored under `k`, if any.
#[verifier::external_body]
fn map_get<'a>(m: &'a IndexMap<String, File>, k: &str) -> (r: Option<&'a File>)
    ensures
        r is Some <==> has_key(map_entries(*m), k@),
        r matches Some(f) ==> f@ == map_entries(*m)[key_index(map_entries(*m), k@)].1,
{
    m.get(k)
}

/// `IndexMap::insert`: an existing key keeps its place and gets the new
/// file, whose predecessor is returned; a new key is appended.
#[verifier::external_body]
fn map_insert(m: &mut IndexMap<String, File>, k: String, f: File) -> (r: Option<File>)
    ensures
        map_entries(*final(m)) == with_entry(map_entries(*old(m)), k@, f@),
        r is Some <==> has_key(map_entries(*old(m)), k@),
        r matches Some(o) ==> o@ == map_entries(*old(m))[key_index(map_entries(*old(m)), k@)].1,
{
    m.insert(k, f)
}

/// `IndexMap::swap_remove` (which `IndexMap::remove` is): the entry under
/// `k`, if any, leaves and the last entry takes its place.
#[verifier::external_body]
fn map_swap_remove(m: &mut IndexMap<String, File>, k: &str) -> (r: Option<File>)
    ensures
        map_entries(*final(m)) == without_key(map_entries(*old(m)), k@),
        r is Some <==> has_key(map_entries(*old(m)), k@),
        r matches Some(o) ==> o@ == map_entries(*old(m))[key_index(map_entries(*old(m)), k@)].1,
{
    m.swap_remove(k)
}

/// `IndexMap::get_mut`: the file under `k`, if any, to change in place.
#[verifier::external_body]
fn map_get_mut<'a>(m: &'a mut IndexMap<String, File>, k: &str) -> (r: Option<&'a mut File>)
    ensures
        r is Some <==> has_key(map_entries(*old(m)), k@),
        r is Some ==> (*r.unwrap())@ == map_entries(*old(m))[key_index(map_entries(*old(m)), k@)].1,
        r is Some ==> map_entries(*final(m)) == map_entries(*old(m)).update(
            key_index(map_entries(*old(m)), k@),
            (k@, (*final(r.unwrap()))@),
        ),
        r is None ==> map_entries(*final(m)) == map_entries(*old(m)),
{
    m.get_mut(k)
}

/// `IndexMap::truncate`: keeps the first `len` entries.
#[verifier::external_body]
fn map_truncate(m: &mut IndexMap<String, File>, len: usize)
    ensures
        len < map_entries(*old(m)).len() ==> map_entries(*final(m)) == map_entries(*old(m)).take(len as int),
        len >= map_entries(*old(m)).len() ==> map_entries(*final(m)) == map_entries(*old(m)),
{
    m.truncate(len)
}

/// `IndexMap`'s `IndexMut<usize>`: the file at position `i`, to change in
/// place.
#[verifier::external_body]
fn map_index_mut(m: &mut IndexMap<String, File>, i: usize) -> (r: &mut File)
    requires
        i < map_entries(*old(m)).len(),
    ensures
        (*r)@ == map_entries(*old(m))[i as int].1,
        map_entries(*final(m)) == map_entries(*old(m)).update(
            i as int,
            (map_entries(*old(m))[i as int].0, (*final(r))@),
        ),
{
    &mut m[i]
}

/// `IndexSet::len`: the number of items.
#[verifier::external_body]
fn set_len(s: &IndexSet<String>) -> (n: usize)
    ensures
        n == set_items(*s).len(),
{
    s.len()
}

/// `IndexSet::get_index`: the item at position `i`, if there is one.
#[verifier::external_body]
fn set_get_index(s: &IndexSet<String>, i: usize) -> (r: Option<&String>)
    ensures
        i < set_items(*s).len() ==> (r is Some && r.unwrap()@ == set_items(*s)[i as int]),
        i >= set_items(*s).len() ==> r is None,
{
    s.get_index(i)
}

/// `IndexSet::get_index_of`: the position of `x`, if it is an item (an
/// index below the set's length, which is a `usize`).
#[verifier::external_body]
fn set_get_index_of(s: &IndexSet<String>, x: &str) -> (r: Option<usize>)
    ensures
        r is Some <==> has_item(set_items(*s), x@),
        r is Some ==> r.unwrap() == item_index(set_items(*s), x@),
        r is Some ==> r.unwrap() < set_items(*s).len() <= usize::MAX,
{
    s.get_index_of(x)
}

/// `IndexSet::swap_remove` (which `IndexSet::remove` is): `x`, if present,
/// leaves and the last item takes its place. No item occurs twice, before
/// or after.
#[verifier::external_body]
fn set_swap_remove(s: &mut IndexSet<String>, x: &str) -> (r: bool)
    ensures
        set_items(*final(s)) == without_item(set_items(*old(s)), x@),
        items_unique(set_items(*old(s))),
        items_unique(set_items(*final(s))),
        r == has_item(set_items(*old(s)), x@),
{
    s.swap_remove(x)
}

/// `IndexSet::clear`: no items are left.
#[verifier::external_body]
fn set_clear(s: &mut IndexSet<String>)
    ensures
        set_items(*final(s)) == Seq::<Seq<char>>::empty(),
        items_unique(set_items(*final(s))),
{
    s.clear()
}

proof fn lemma_without_item_gone(s: Seq<Seq<char>>, x: Seq<char>)
    requires
        items_unique(s),
    ensures
        !has_item(without_item(s, x), x),
{
    if has_item(s, x) {
        let i = item_index(s, x);
        let t = without_item(s, x);
        let last = s.len() - 1;
        assert(s[i] == x);
        if has_item(t, x) {
            let j = choose|j: int| 0 <= j < t.len() && #[trigger] t[j] == x;
            if j == i {
                assert(t[j] == s[last]);
                assert(i != last);
            } else {
                assert(t[j] == s[j]);
            }
        }
    }
}

proof fn lemma_key_at(e: Seq<(Seq<char>, FileView)>, i: int)
    requires
        keys_unique(e),
        0 <= i < e.len(),
    ensures
        has_key(e, e[i].0),
        key_index(e, e[i].0) == i,
{
    assert(e[i].0 == e[i].0);
}

// Files /////////////////////////////////////////////////////////////////////

/// Why the content of a file could not be read.
#[derive(Debug, Clone, Copy, PartialEq, Eq, Structural)]
pub enum VfsError {
    /// The entry is a directory, or has no byte content.
    ByteReadFail,
    /// The entry is not a text file.
    StringReadFail,
}

/// The number of bytes a file holds: 0 for directories and empty files.
pub open spec fn byte_len_of(f: FileView) -> nat {
    match f {
        FileView::Binary(b) => b.len(),
        FileView::Text(t) => vstd::utf8::encode_utf8(t).len(),
        _ => 0,
    }
}

/// The bytes a file holds, if it is binary or text.
pub open spec fn bytes_of(f: FileView) -> Option<Seq<u8>> {
    match f {
        FileView::Binary(b) => Some(b),
        FileView::Text(t) => Some(vstd::utf8::encode_utf8(t)),
        _ => None,
    }
}

/// The number of children of a directory; 0 for anything else.
pub open spec fn child_count_of(f: FileView) -> nat {
    match f {
        FileView::Directory(c) => c.len(),
        _ => 0,
    }
}

impl File {
    /// Note that being a leaf node does not necessarily mean that this file is
    /// [readable](Self::is_readable).
    pub fn is_leaf(&self) -> (r: bool)
        ensures
            r == !(self@ is Directory),
    {
        !self.is_dir()
    }

    pub fn is_dir(&self) -> (r: bool)
        ensures
            r == self@ is Directory,
    {
        matches!(self, File::Directory(..))
    }

    pub fn is_binary(&self) -> (r: bool)
        ensures
            r == self@ is Binary,
    {
        matches!(self, File::Binary(..))
    }

    pub fn is_text(&self) -> (r: bool)
        ensures
            r == self@ is Text,
    {
        matches!(self, File::Text(..))
    }

    pub fn is_empty(&self) -> (r: bool)
        ensures
            r == self@ is Empty,
    {
        matches!(self, File::Empty)
    }

    /// Returns `true` if this is a binary or text file.
    pub fn is_readable(&self) -> (r: bool)
        ensures
            r == (self@ is Binary || self@ is Text),
    {
        self.is_binary() || self.is_text()
    }

    /// Returns [`VfsError::ByteReadFail`] if this entry is a directory,
    /// or otherwise has no byte content.
    pub fn try_read_bytes(&self) -> (r: Result<&[u8], VfsError>)
        ensures
            r is Ok <==> bytes_of(self@) is Some,
            r is Ok ==> r.unwrap()@ == bytes_of(self@).unwrap(),
            r is Err ==> r == Err::<&[u8], VfsError>(VfsError::ByteReadFail),
    {
        match self {
            File::Binary(bytes) => Ok(&**bytes),
            File::Text(string) => Ok(string.as_bytes()),
            _ => Err(VfsError::ByteReadFail),
        }
    }

    /// Like [`Self::try_read_bytes`], for a file that has byte content.
    pub fn read_bytes(&self) -> (r: &[u8])
        requires
            bytes_of(self@) is Some,
        ensures
            r@ == bytes_of(self@).unwrap(),
    {
        match self {
            File::Binary(bytes) => &**bytes,
            File::Text(string) => string.as_bytes(),
            _ => {
                proof {
                    assert(false);
                }
                &[]
            },
        }
    }

    /// Returns [`VfsError::StringReadFail`]
    /// if this is a directory, binary, or empty entry.
    pub fn try_read_str(&self) -> (r: Result<&str, VfsError>)
        ensures
            r is Ok <==> self@ is Text,
            r is Ok ==> r.unwrap()@ == self@->Text_0,
            r is Err ==> r == Err::<&str, VfsError>(VfsError::StringReadFail),
    {
        match self {
            File::Text(string) => Ok(&**string),
            _ => Err(VfsError::StringReadFail),
        }
    }

    /// Like [`Self::try_read_str`], for a text file.
    pub fn read_str(&self) -> (r: &str)
        requires
            self@ is Text,
        ensures
            r@ == self@->Text_0,
    {
        match self {
            File::Text(string) => &**string,
            _ => {
                proof {
                    assert(false);
                }
                ""
            },
        }
    }

    /// Returns 0 for directories and empty files.
    pub fn byte_len(&self) -> (r: usize)
        ensures
            r == byte_len_of(self@),
    {
        match self {
            File::Binary(bytes) => {
                let b: &[u8] = &**bytes;
                b.len()
            },
            File::Text(string) => string.as_bytes().len(),
            _ => 0,
        }
    }

    /// The paths of a directory's children, in its order; `None` for
    /// anything else.
    pub fn child_paths(&self) -> (r: Option<Vec<&str>>)
        ensures
            r is Some <==> self@ is Directory,
            r is Some ==> r.unwrap().len() == self@->Directory_0.len() && forall|i: int|
                0 <= i < r.unwrap().len() ==> #[trigger] r.unwrap()[i]@ == self@->Directory_0[i],
    {
        match self {
            File::Directory(children) => {
                let n = set_len(children);
                let mut out: Vec<&str> = Vec::new();
                for i in 0..n
                    invariant
                        n == set_items(*children).len(),
                        out.len() == i,
                        forall|j: int| 0 <= j < i ==> #[trigger] out[j]@ == set_items(*children)[j],
                {
                    let c = set_get_index(children, i).unwrap();
                    out.push(c.as_str());
                }
                Some(out)
            },
            _ => None,
        }
    }

    /// Returns 0 if this is a leaf node or an empty directory.
    pub fn child_count(&self) -> (r: usize)
        ensures
            r == child_count_of(self@),
    {
        match self {
            File::Directory(children) => set_len(children),
            _ => 0,
        }
    }
}

// The file system ///////////////////////////////////////////////////////////

/// A flat map from virtual paths to files, in insertion order.
#[derive(Debug)]
pub struct VirtualFs {
    /// Element 0 is always the root node, under virtual path `/`.
    files: IndexMap<String, File>,
}

impl View for VirtualFs {
    type V = Seq<(Seq<char>, FileView)>;

    closed spec fn view(&self) -> Seq<(Seq<char>, FileView)> {
        map_entries(self.files)
    }
}

impl VirtualFs {
    /// The root directory comes first and no path is stored twice.
    pub open spec fn wf(&self) -> bool {
        vfs_valid(self@)
    }

    /// The root directory and nothing else.
    pub open spec fn fresh() -> Seq<(Seq<char>, FileView)> {
        seq![(root_path(), FileView::Directory(Seq::empty()))]
    }

    pub fn root(&self) -> (r: FileRef<'_>)
        requires
            self.wf(),
        ensures
            r.vfs_view() == self@,
            r.path_view() == root_path(),
            r.file_view() == self@[0].1,
    {
        let (path, file) = map_get_index(&self.files, 0).unwrap();
        proof {
            lemma_key_at(self@, 0);
        }
        FileRef { vfs: self, path, file }
    }

    pub fn get(&self, path: &str) -> (r: Option<FileRef<'_>>)
        requires
            self.wf(),
        ensures
            r is Some <==> has_key(self@, path@),
            r is Some ==> (r.unwrap().vfs_view() == self@ && r.unwrap().path_view() == path@ && Some(
                r.unwrap().file_view(),
            ) == lookup(self@, path@)),
    {
        match map_get_key_value(&self.files, path) {
            Some((path, file)) => Some(FileRef { vfs: self, path, file }),
            None => None,
        }
    }

    pub fn contains(&self, path: &str) -> (r: bool)
        ensures
            r == has_key(self@, path@),
    {
        map_contains_key(&self.files, path)
    }

    pub fn is_dir(&self, path: &str) -> (r: bool)
        ensures
            r == (lookup(self@, path@) matches Some(f) && f is Directory),
    {
        match map_get(&self.files, path) {
            Some(f) => f.is_dir(),
            None => false,
        }
    }

    /// Every file, root included, in the order of the map.
    pub fn iter(&self) -> (r: Vec<FileRef<'_>>)
        requires
            self.wf(),
        ensures
            r.len() == self@.len(),
            forall|i: int|
                0 <= i < r.len() ==> (#[trigger] r[i]).vfs_view() == self@ && r[i].path_view()
                    == self@[i].0 && r[i].file_view() == self@[i].1,
    {
        let n = map_len(&self.files);
        let mut out: Vec<FileRef<'_>> = Vec::new();
        for i in 0..n
            invariant
                self.wf(),
                n == self@.len(),
                out.len() == i,
                forall|j: int|
                    0 <= j < i ==> (#[trigger] out[j]).vfs_view() == self@ && out[j].path_view()
                        == self@[j].0 && out[j].file_view() == self@[j].1,
        {
            let (path, file) = map_get_index(&self.files, i).unwrap();
            proof {
                lemma_key_at(self@, i as int);
            }
            out.push(FileRef { vfs: self, path, file });
        }
        out
    }

    /// Stores `file` under `path`, returning what was stored there before.
    pub fn insert(&mut self, path: String, file: File) -> (r: Option<File>)
        requires
            old(self).wf(),
        ensures
            final(self).wf(),
            final(self)@ == with_entry(old(self)@, path@, file@),
            r is Some <==> has_key(old(self)@, path@),
            r is Some ==> Some(r.unwrap()@) == lookup(old(self)@, path@),
    {
        let ghost e = self@;
        let ghost fv = file@;
        let r = map_insert(&mut self.files, path, file);
        proof {
            let e2 = self@;
            if has_key(e, path@) {
                let i = key_index(e, path@);
                assert(e[i].0 == path@);
                assert forall|a: int, b: int| 0 <= a < b < e2.len() implies #[trigger] e2[a].0 != #[trigger] e2[b].0 by {
                    assert(e2[a].0 == e[a].0);
                    assert(e2[b].0 == e[b].0);
                }
                if i == 0 {
                    assert(e2[0].0 == root_path());
                }
            } else {
                assert forall|a: int, b: int| 0 <= a < b < e2.len() implies #[trigger] e2[a].0 != #[trigger] e2[b].0 by {
                    if b == e.len() {
                        assert(e[a].0 == e2[a].0);
                    }
                }
            }
        }
        r
    }

    pub fn files_len(&self) -> (r: usize)
        ensures
            r == self@.len(),
    {
        map_len(&self.files)
    }
}

impl Default for VirtualFs {
    fn default() -> (r: Self)
        ensures
            r.wf(),
            r@ == VirtualFs::fresh(),
    {
        let mut files = map_new();
        proof {
            reveal_strlit("/");
        }
        let root = "/".to_owned();
        assert(root@ == root_path());
        let dir = File::Directory(set_new());
        assert(dir@ == FileView::Directory(Seq::empty()));
        map_insert(&mut files, root, dir);
        assert(!has_key(Seq::<(Seq<char>, FileView)>::empty(), root_path()));
        let r = VirtualFs { files };
        assert(r@ =~= VirtualFs::fresh());
        r
    }
}

// References into the file system ///////////////////////////////////////////

/// Read access to one entry and to the file system that holds it.
#[derive(Debug, Clone, Copy)]
pub struct FileRef<'vfs> {
    vfs: &'vfs VirtualFs,
    path: &'vfs String,
    file: &'vfs File,
}

impl<'vfs> FileRef<'vfs> {
    #[verifier::type_invariant]
    closed spec fn inv(self) -> bool {
        &&& self.vfs.wf()
        &&& lookup(self.vfs@, self.path@) == Some(self.file@)
    }

    /// The entries of the file system this refers into.
    pub closed spec fn vfs_view(self) -> Seq<(Seq<char>, FileView)> {
        self.vfs@
    }

    pub closed spec fn path_view(self) -> Seq<char> {
        self.path@
    }

    pub closed spec fn file_view(self) -> FileView {
        self.file@
    }

    pub fn vfs(&self) -> (r: &VirtualFs)
        ensures
            r@ == self.vfs_view(),
            r.wf(),
    {
        proof {
            use_type_invariant(self);
        }
        self.vfs
    }

    pub fn path(&self) -> (r: &str)
        ensures
            r@ == self.path_view(),
    {
        self.path.as_str()
    }
}

impl<'vfs> std::ops::Deref for FileRef<'vfs> {
    type Target = File;

    fn deref(&self) -> (r: &File)
        ensures
            r@ == self.file_view(),
    {
        self.file
    }
}

// Paths /////////////////////////////////////////////////////////////////////

proof fn lemma_last_pos_bounds(p: Seq<char>, c: char)
    ensures
        -1 <= last_pos(p, c) < p.len(),
        last_pos(p, c) >= 0 ==> p[last_pos(p, c)] == c,
        forall|i: int| last_pos(p, c) < i < p.len() ==> p[i] != c,
    decreases p.len(),
{
    if p.len() > 0 && p.last() != c {
        lemma_last_pos_bounds(p.drop_last(), c);
        assert forall|i: int| last_pos(p, c) < i < p.len() implies p[i] != c by {
            if i < p.len() - 1 {
                assert(p[i] == p.drop_last()[i]);
            }
        }
    }
}

proof fn lemma_first_pos_bounds(p: Seq<char>, c: char)
    ensures
        -1 <= first_pos(p, c) < p.len(),
        first_pos(p, c) >= 0 ==> p[first_pos(p, c)] == c,
        forall|i: int| 0 <= i < p.len() && (first_pos(p, c) < 0 || i < first_pos(p, c)) ==> p[i] != c,
    decreases p.len(),
{
    if p.len() > 0 && p[0] != c {
        lemma_first_pos_bounds(p.drop_first(), c);
        assert forall|i: int| 0 <= i < p.len() && (first_pos(p, c) < 0 || i < first_pos(p, c)) implies p[i] != c by {
            if i > 0 {
                assert(p[i] == p.drop_first()[i - 1]);
            }
        }
    }
}

/// The position of the last `c` in `s`, if any.
fn find_last(s: &str, c: char) -> (r: Option<usize>)
    ensures
        r is None <==> last_pos(s@, c) < 0,
        r is Some ==> r.unwrap() == last_pos(s@, c),
{
    let n = s.unicode_len();
    let mut k = n;
    assert(s@.take(n as int) =~= s@);
    while k > 0 && s.get_char(k - 1) != c
        invariant
            k <= n,
            n == s@.len(),
            last_pos(s@, c) == last_pos(s@.take(k as int), c),
        decreases k,
    {
        assert(s@.take(k as int).drop_last() =~= s@.take(k - 1));
        k = k - 1;
    }
    if k == 0 {
        None
    } else {
        Some(k - 1)
    }
}

/// The position of the first `c` in `s`, if any.
fn find_first(s: &str, c: char) -> (r: Option<usize>)
    ensures
        r is None <==> first_pos(s@, c) < 0,
        r is Some ==> r.unwrap() == first_pos(s@, c),
{
    let n = s.unicode_len();
    let mut i: usize = 0;
    assert(s@.skip(0) =~= s@);
    while i < n && s.get_char(i) != c
        invariant
            i <= n,
            n == s@.len(),
            first_pos(s@, c) == if first_pos(s@.skip(i as int), c) < 0 {
                -1
            } else {
                first_pos(s@.skip(i as int), c) + i
            },
        decreases n - i,
    {
        assert(s@.skip(i as int).drop_first() =~= s@.skip(i + 1));
        i = i + 1;
    }
    if i == n {
        assert(s@.skip(i as int).len() == 0);
        None
    } else {
        Some(i)
    }
}

fn is_root_str(p: &str) -> (r: bool)
    ensures
        r == is_root_path(p@),
{
    let n = p.unicode_len();
    if n == 0 {
        true
    } else if n == 1 && p.get_char(0) == '/' {
        assert(p@ =~= root_path());
        true
    } else {
        assert(p@ != root_path()) by {
            if p@ == root_path() {
                assert(p@[0] == '/');
            }
        }
        false
    }
}

/// The parent of `p`, by `parent_of`.
fn parent_str(p: &str) -> (r: Option<&str>)
    ensures
        r is Some <==> parent_of(p@) is Some,
        r is Some ==> r.unwrap()@ == parent_of(p@).unwrap(),
{
    if is_root_str(p) {
        return None;
    }
    match find_last(p, '/') {
        None => {
            proof {
                reveal_strlit("");
            }
            Some("")
        },
        Some(0) => {
            proof {
                reveal_strlit("/");
            }
            Some("/")
        },
        Some(j) => {
            proof {
                lemma_last_pos_bounds(p@, '/');
            }
            let r = p.substring_char(0, j);
            assert(r@ =~= p@.take(j as int));
            Some(r)
        },
    }
}

proof fn lemma_valid_update(e: Seq<(Seq<char>, FileView)>, i: int, f: FileView)
    requires
        vfs_valid(e),
        0 <= i < e.len(),
    ensures
        vfs_valid(e.update(i, (e[i].0, f))),
{
    let e2 = e.update(i, (e[i].0, f));
    assert forall|a: int, b: int| 0 <= a < b < e2.len() implies #[trigger] e2[a].0 != #[trigger] e2[b].0 by {
        assert(e2[a].0 == e[a].0);
        assert(e2[b].0 == e[b].0);
    }
}

proof fn lemma_valid_without(e: Seq<(Seq<char>, FileView)>, p: Seq<char>)
    requires
        vfs_valid(e),
        !is_root_path(p),
        has_key(e, p),
    ensures
        vfs_valid(without_key(e, p)),
        without_key(e, p).len() == e.len() - 1,
        !has_key(without_key(e, p), p),
        forall|q: Seq<char>| has_key(without_key(e, p), q) ==> has_key(e, q),
{
    let i = key_index(e, p);
    let e2 = without_key(e, p);
    assert(e[i].0 == p);
    assert(i != 0);
    let last = e.len() - 1;
    assert forall|a: int| 0 <= a < e2.len() implies #[trigger] e2[a] == (if a == i { e[last] } else { e[a] }) by {}
    assert forall|a: int, b: int| 0 <= a < b < e2.len() implies #[trigger] e2[a].0 != #[trigger] e2[b].0 by {
        if a == i {
            assert(e2[a] == e[last]);
            assert(e2[b] == e[b]);
        } else if b == i {
            assert(e2[b] == e[last]);
            assert(e2[a] == e[a]);
        } else {
            assert(e2[a] == e[a]);
            assert(e2[b] == e[b]);
        }
    }
    assert(e2[0] == e[0]);
    if has_key(e2, p) {
        let j = choose|j: int| 0 <= j < e2.len() && #[trigger] e2[j].0 == p;
        if j == i {
            assert(e2[j] == e[last]);
            assert(e[last].0 == e[i].0);
        } else {
            assert(e2[j] == e[j]);
        }
    }
    assert forall|q: Seq<char>| has_key(e2, q) implies has_key(e, q) by {
        let j = choose|j: int| 0 <= j < e2.len() && #[trigger] e2[j].0 == q;
        if j == i {
            assert(e2[j] == e[last]);
            assert(e[last].0 == q);
        } else {
            assert(e2[j] == e[j]);
        }
    }
}

impl VirtualFs {
    /// Removes `child_path` from the children of the directory `parent`.
    fn unparent(parent: &mut File, child_path: &str)
        requires
            old(parent)@ is Directory,
        ensures
            final(parent)@ == FileView::Directory(without_item(old(parent)@->Directory_0, child_path@)),
            !has_item(final(parent)@->Directory_0, child_path@),
    {
        match parent {
            File::Directory(children) => {
                let ghost before = set_items(*children);
                set_swap_remove(children, child_path);
                proof {
                    lemma_without_item_gone(before, child_path@);
                }
            },
            _ => {
                proof {
                    assert(false);
                }
            },
        }
    }

    /// Removes the file under `path` and unlinks it from its parent's
    /// children, returning it.
    pub fn remove(&mut self, path: &str) -> (r: Option<File>)
        requires
            old(self).wf(),
            removal(old(self)@, path@) is Some,
        ensures
            final(self).wf(),
            final(self)@ == removal(old(self)@, path@).unwrap(),
            r is Some <==> has_key(old(self)@, path@),
            r is Some ==> Some(r.unwrap()@) == lookup(old(self)@, path@),
            has_key(old(self)@, path@) ==> (lookup(final(self)@, parent_of(path@).unwrap()) matches Some(
                FileView::Directory(items),
            ) && !has_item(items, path@)),
    {
        let ghost e = self@;
        let removed = map_swap_remove(&mut self.files, path);
        if removed.is_some() {
            proof {
                lemma_valid_without(e, path@);
            }
            let ghost e1 = self@;
            let parent_path = parent_str(path).unwrap();
            let parent = map_get_mut(&mut self.files, parent_path).unwrap();
            Self::unparent(parent, path);
            proof {
                let pi = key_index(e1, parent_path@);
                assert(e1[pi].0 == parent_path@);
                lemma_valid_update(e1, pi, self@[pi].1);
                lemma_key_at(self@, pi);
            }
        }
        removed
    }

    /// Removes the file under `path` and, if it was a directory, each of its
    /// children in turn by the same rule.
    pub fn remove_recursive(&mut self, path: &str)
        requires
            old(self).wf(),
            removal_tree(old(self)@, path@, old(self)@.len()) is Some,
        ensures
            final(self).wf(),
            final(self)@ == removal_tree(old(self)@, path@, old(self)@.len()).unwrap(),
    {
        self.remove_tree(path, Ghost(self@.len()));
    }

    fn remove_tree(&mut self, path: &str, Ghost(fuel): Ghost<nat>)
        requires
            old(self).wf(),
            old(self)@.len() <= fuel,
            removal_tree(old(self)@, path@, fuel) is Some,
        ensures
            final(self).wf(),
            final(self)@ == removal_tree(old(self)@, path@, fuel).unwrap(),
            final(self)@.len() <= old(self)@.len(),
        decreases fuel,
    {
        let ghost e = self@;
        let removed = match map_swap_remove(&mut self.files, path) {
            Some(r) => r,
            None => return ,
        };
        proof {
            lemma_valid_without(e, path@);
        }
        let ghost e1 = self@;
        let parent_path = parent_str(path).unwrap();
        let parent = map_get_mut(&mut self.files, parent_path).unwrap();
        Self::unparent(parent, path);
        proof {
            lemma_valid_update(e1, key_index(e1, parent_path@), self@[key_index(e1, parent_path@)].1);
        }
        let ghost e2 = self@;
        let children = match removed {
            File::Directory(children) => children,
            _ => return ,
        };
        let ghost items = set_items(children);
        let n = set_len(&children);
        let ghost f = (fuel - 1) as nat;
        assert(removal_forest(e2, items, 0, f) == removal_tree(e, path@, fuel));
        for i in 0..n
            invariant
                self.wf(),
                n == items.len(),
                items == set_items(children),
                self@.len() <= f,
                f == fuel - 1,
                removal_forest(self@, items, i as nat, f) == removal_tree(e, path@, fuel),
                removal_tree(e, path@, fuel) is Some,
                self@.len() <= e.len(),
        {
            let child = set_get_index(&children, i).unwrap();
            let ghost before = self@;
            assert(removal_forest(before, items, i as nat, f) == match removal_tree(before, items[i as int], f) {
                None => None,
                Some(e3) => removal_forest(e3, items, (i + 1) as nat, f),
            });
            self.remove_tree(child.as_str(), Ghost(f));
        }
    }

    /// Leaves only the root node, with no children.
    pub fn clear(&mut self)
        requires
            old(self).wf(),
            old(self)@[0].1 is Directory,
        ensures
            final(self).wf(),
            final(self)@ == VirtualFs::fresh(),
    {
        let ghost e = self@;
        map_truncate(&mut self.files, 1);
        let root = map_index_mut(&mut self.files, 0);
        match root {
            File::Directory(children) => set_clear(children),
            _ => {
                proof {
                    assert(false);
                }
            },
        }
        assert(self@ =~= VirtualFs::fresh());
    }

    /// The number of bytes held by all files.
    pub fn mem_usage(&self) -> (r: usize)
        requires
            bytes_held(self@, self@.len() as int) <= usize::MAX,
        ensures
            r == bytes_held(self@, self@.len() as int),
    {
        let n = map_len(&self.files);
        let mut acc: usize = 0;
        for i in 0..n
            invariant
                n == self@.len(),
                acc == bytes_held(self@, i as int),
                bytes_held(self@, n as int) <= usize::MAX,
        {
            proof {
                lemma_bytes_held_mono(self@, i + 1, n as int);
            }
            let (_, file) = map_get_index(&self.files, i).unwrap();
            acc = acc + file.byte_len();
        }
        acc
    }
}

proof fn lemma_bytes_held_mono(e: Seq<(Seq<char>, FileView)>, a: int, b: int)
    requires
        a <= b,
    ensures
        bytes_held(e, a) <= bytes_held(e, b),
    decreases b - a,
{
    if a < b {
        lemma_bytes_held_mono(e, a, b - 1);
    }
}

impl<'vfs> FileRef<'vfs> {
    /// The last component of the path; `/` for the root.
    pub fn file_name(&self) -> (r: &str)
        ensures
            r@ == name_of(self.path_view()),
    {
        let p = self.path.as_str();
        if is_root_str(p) {
            proof {
                reveal_strlit("/");
            }
            return "/";
        }
        let n = p.unicode_len();
        proof {
            lemma_last_pos_bounds(p@, '/');
        }
        let start = match find_last(p, '/') {
            Some(j) => j + 1,
            None => 0,
        };
        let r = p.substring_char(start, n);
        assert(r@ =~= p@.skip(last_slash(p@) + 1));
        r
    }

    /// The last component without its final extension; `/` for the root.
    pub fn file_stem(&self) -> (r: &str)
        ensures
            r@ == stem_of(self.path_view()),
    {
        let name = self.file_name();
        if is_root_str(self.path.as_str()) {
            return name;
        }
        proof {
            lemma_last_pos_bounds(name@, '.');
        }
        match find_last(name, '.') {
            Some(d) => {
                if d > 0 {
                    let r = name.substring_char(0, d);
                    assert(r@ =~= name@.take(d as int));
                    r
                } else {
                    name
                }
            },
            None => name,
        }
    }

    /// The stem up to its first `.`; `/` for the root.
    pub fn file_prefix(&self) -> (r: &str)
        ensures
            r@ == prefix_of(self.path_view()),
    {
        let stem = self.file_stem();
        if is_root_str(self.path.as_str()) {
            return stem;
        }
        proof {
            lemma_first_pos_bounds(stem@, '.');
        }
        match find_first(stem, '.') {
            Some(d) => {
                let r = stem.substring_char(0, d);
                assert(r@ =~= stem@.take(d as int));
                r
            },
            None => stem,
        }
    }

    /// The full path.
    pub fn path_str(&self) -> (r: &str)
        ensures
            r@ == self.path_view(),
    {
        self.path.as_str()
    }

    /// What follows the final `.` of the last component, if anything does.
    pub fn path_extension(&self) -> (r: Option<&str>)
        ensures
            r is Some <==> extension_of(self.path_view()) is Some,
            r is Some ==> r.unwrap()@ == extension_of(self.path_view()).unwrap(),
    {
        if is_root_str(self.path.as_str()) {
            return None;
        }
        let name = self.file_name();
        proof {
            lemma_last_pos_bounds(name@, '.');
        }
        match find_last(name, '.') {
            Some(d) => {
                if d > 0 {
                    let n = name.unicode_len();
                    let r = name.substring_char(d + 1, n);
                    assert(r@ =~= name@.skip(d + 1));
                    Some(r)
                } else {
                    None
                }
            },
            None => None,
        }
    }

    /// The parent's path; `None` only for the root.
    pub fn parent_path(&self) -> (r: Option<&str>)
        ensures
            r is Some <==> parent_of(self.path_view()) is Some,
            r is Some ==> r.unwrap()@ == parent_of(self.path_view()).unwrap(),
    {
        parent_str(self.path.as_str())
    }

    /// The parent directory; `None` only for the root.
    pub fn parent(&self) -> (r: Option<Self>)
        requires
            parent_of(self.path_view()) is Some ==> has_key(self.vfs_view(), parent_of(self.path_view()).unwrap()),
        ensures
            r is Some <==> parent_of(self.path_view()) is Some,
            r is Some ==> (r.unwrap().vfs_view() == self.vfs_view() && r.unwrap().path_view() == parent_of(
                self.path_view(),
            ).unwrap() && Some(r.unwrap().file_view()) == lookup(
                self.vfs_view(),
                r.unwrap().path_view(),
            )),
    {
        proof {
            use_type_invariant(self);
        }
        match self.parent_path() {
            Some(parent) => Some(self.vfs.get(parent).unwrap()),
            None => None,
        }
    }

    /// The immediate children, in the directory's order; `None` if this is
    /// not a directory.
    pub fn children(&self) -> (r: Option<Vec<Self>>)
        requires
            self.file_view() is Directory ==> forall|i: int|
                0 <= i < self.file_view()->Directory_0.len() ==> has_key(
                    self.vfs_view(),
                    #[trigger] self.file_view()->Directory_0[i],
                ),
        ensures
            r is Some <==> self.file_view() is Directory,
            r is Some ==> r.unwrap().len() == self.file_view()->Directory_0.len(),
            r is Some ==> forall|i: int|
                0 <= i < r.unwrap().len() ==> (#[trigger] r.unwrap()[i]).vfs_view() == self.vfs_view()
                    && r.unwrap()[i].path_view() == self.file_view()->Directory_0[i] && Some(
                    r.unwrap()[i].file_view(),
                ) == lookup(self.vfs_view(), r.unwrap()[i].path_view()),
    {
        proof {
            use_type_invariant(self);
        }
        match self.file {
            File::Directory(children) => {
                let n = set_len(children);
                assert(set_items(*children) == self.file_view()->Directory_0);
                assert forall|j: int| 0 <= j < n implies has_key(self.vfs@, #[trigger] set_items(*children)[j]) by {
                    assert(has_key(self.vfs_view(), self.file_view()->Directory_0[j]));
                }
                let mut out: Vec<Self> = Vec::new();
                for i in 0..n
                    invariant
                        self.vfs.wf(),
                        self.file@ is Directory,
                        set_items(*children) == self.file@->Directory_0,
                        n == set_items(*children).len(),
                        forall|j: int|
                            0 <= j < n ==> has_key(self.vfs@, #[trigger] set_items(*children)[j]),
                        out.len() == i,
                        forall|j: int|
                            0 <= j < i ==> (#[trigger] out[j]).vfs_view() == self.vfs@ && out[j].path_view()
                                == set_items(*children)[j] && Some(out[j].file_view()) == lookup(
                                self.vfs@,
                                out[j].path_view(),
                            ),
                {
                    let key = set_get_index(children, i).unwrap();
                    assert(has_key(self.vfs@, set_items(*children)[i as int]));
                    out.push(self.vfs.get(key.as_str()).unwrap());
                }
                Some(out)
            },
            _ => None,
        }
    }

    /// Returns 0 if this is a leaf node or an empty directory.
    pub fn child_count(&self) -> (r: usize)
        ensures
            r == child_count_of(self.file_view()),
    {
        self.file.child_count()
    }

    /// The position of `path` among this directory's children, if it is one.
    pub fn child_index(&self, path: &str) -> (r: Option<usize>)
        requires
            parent_of(path@) == Some(self.path_view()),
            self.file_view() is Directory,
        ensures
            r is Some <==> has_item(self.file_view()->Directory_0, path@),
            r is Some ==> r.unwrap() == item_index(self.file_view()->Directory_0, path@),
            r is Some ==> r.unwrap() < self.file_view()->Directory_0.len() <= usize::MAX,
    {
        match self.file {
            File::Directory(children) => set_get_index_of(children, path),
            _ => {
                proof {
                    assert(false);
                }
                None
            },
        }
    }
}

// Laws //////////////////////////////////////////////////////////////////////

/// Reading a path back after storing a file under it gives that file.
pub proof fn law_insert_then_lookup(e: Seq<(Seq<char>, FileView)>, k: Seq<char>, f: FileView)
    requires
        vfs_valid(e),
    ensures
        lookup(with_entry(e, k, f), k) == Some(f),
{
    let e2 = with_entry(e, k, f);
    if has_key(e, k) {
        let i = key_index(e, k);
        assert(e2[i].0 == k);
        lemma_valid_update(e, i, f);
        lemma_key_at(e2, i);
    } else {
        let i = e.len() as int;
        assert(e2[i].0 == k);
        assert forall|a: int, b: int| 0 <= a < b < e2.len() implies #[trigger] e2[a].0 != #[trigger] e2[b].0 by {
            if b == i {
                assert(e2[a].0 == e[a].0);
            }
        }
        lemma_key_at(e2, i);
    }
}

/// Storing a file under one path leaves what every other path holds as it
/// was.
pub proof fn law_insert_keeps_others(e: Seq<(Seq<char>, FileView)>, k: Seq<char>, f: FileView, q: Seq<char>)
    requires
        vfs_valid(e),
        q != k,
    ensures
        lookup(with_entry(e, k, f), q) == lookup(e, q),
{
    let e2 = with_entry(e, k, f);
    if has_key(e, q) {
        let j = key_index(e, q);
        assert(e2[j] == e[j]);
        assert(e2[j].0 == q);
        if has_key(e, k) {
            lemma_valid_update(e, key_index(e, k), f);
        } else {
            assert forall|a: int, b: int| 0 <= a < b < e2.len() implies #[trigger] e2[a].0 != #[trigger] e2[b].0 by {
                if b == e.len() {
                    assert(e2[a].0 == e[a].0);
                    assert(e2[b].0 == k);
                }
            }
        }
        lemma_key_at(e2, j);
    } else {
        if has_key(e2, q) {
            let j = choose|j: int| 0 <= j < e2.len() && #[trigger] e2[j].0 == q;
            if j < e.len() && !(has_key(e, k) && j == key_index(e, k)) {
                assert(e[j].0 == q);
            }
        }
    }
}

/// Removing a file by path leaves no file under that path, and every path
/// but that one and its parent holds what it held before.
pub proof fn law_removed_path_is_gone(e: Seq<(Seq<char>, FileView)>, p: Seq<char>, q: Seq<char>)
    requires
        vfs_valid(e),
        removal(e, p) is Some,
    ensures
        !has_key(removal(e, p).unwrap(), p),
        q != p && Some(q) != parent_of(p) ==> lookup(removal(e, p).unwrap(), q) == lookup(e, q),
{
    if has_key(e, p) {
        lemma_valid_without(e, p);
        let e1 = without_key(e, p);
        let pp = parent_of(p).unwrap();
        let pi = key_index(e1, pp);
        let e2 = removal(e, p).unwrap();
        assert(e1[pi].0 == pp);
        lemma_valid_update(e1, pi, e2[pi].1);
        assert(e2 == e1.update(pi, (e1[pi].0, e2[pi].1)));
        if has_key(e2, p) {
            let j = choose|j: int| 0 <= j < e2.len() && #[trigger] e2[j].0 == p;
            assert(e2[j].0 == e1[j].0);
        }
        if q != p && Some(q) != parent_of(p) {
            lemma_lookup_without(e, p, q);
            if has_key(e1, q) {
                let j = key_index(e1, q);
                assert(e2[j] == e1[j]);
                lemma_key_at(e2, j);
            } else if has_key(e2, q) {
                let j = choose|j: int| 0 <= j < e2.len() && #[trigger] e2[j].0 == q;
                assert(e2[j].0 == e1[j].0);
            }
        }
    }
}

proof fn lemma_lookup_without(e: Seq<(Seq<char>, FileView)>, p: Seq<char>, q: Seq<char>)
    requires
        vfs_valid(e),
        !is_root_path(p),
        has_key(e, p),
        q != p,
    ensures
        lookup(without_key(e, p), q) == lookup(e, q),
{
    lemma_valid_without(e, p);
    let e1 = without_key(e, p);
    let i = key_index(e, p);
    let last = e.len() - 1;
    if has_key(e, q) {
        let j = key_index(e, q);
        assert(e[j].0 == q);
        assert(j != i);
        if j == last {
            assert(e1[i] == e[last]);
            lemma_key_at(e1, i);
        } else {
            assert(e1[j] == e[j]);
            lemma_key_at(e1, j);
        }
    }
}

proof fn lemma_unparented_keys(e: Seq<(Seq<char>, FileView)>, parent: Seq<char>, child: Seq<char>)
    requires
        unparented(e, parent, child) is Some,
    ensures
        unparented(e, parent, child).unwrap().len() == e.len(),
        forall|i: int| 0 <= i < e.len() ==> (#[trigger] unparented(e, parent, child).unwrap()[i]).0 == e[i].0,
{
    let i = key_index(e, parent);
    assert(e[i].0 == parent);
}

proof fn lemma_removal_keys(e: Seq<(Seq<char>, FileView)>, p: Seq<char>, fuel: nat)
    requires
        vfs_valid(e),
        removal_tree(e, p, fuel) is Some,
    ensures
        vfs_valid(removal_tree(e, p, fuel).unwrap()),
        forall|q: Seq<char>| has_key(removal_tree(e, p, fuel).unwrap(), q) ==> has_key(e, q),
    decreases fuel, 0int, 0int,
{
    if has_key(e, p) {
        lemma_valid_without(e, p);
        let e1 = without_key(e, p);
        let pp = parent_of(p).unwrap();
        let e2 = unparented(e1, pp, p).unwrap();
        lemma_unparented_keys(e1, pp, p);
        let pi = key_index(e1, pp);
        assert(e1[pi].0 == pp);
        lemma_valid_update(e1, pi, e2[pi].1);
        assert(e2 =~= e1.update(pi, (e1[pi].0, e2[pi].1)));
        assert forall|q: Seq<char>| has_key(e2, q) implies has_key(e1, q) by {
            let j = choose|j: int| 0 <= j < e2.len() && #[trigger] e2[j].0 == q;
            assert(e1[j].0 == q);
        }
        match lookup(e, p).unwrap() {
            FileView::Directory(items) => {
                lemma_forest_keys(e2, items, 0, (fuel - 1) as nat);
            },
            _ => {},
        }
    }
}

proof fn lemma_forest_keys(e: Seq<(Seq<char>, FileView)>, items: Seq<Seq<char>>, k: nat, fuel: nat)
    requires
        vfs_valid(e),
        removal_forest(e, items, k, fuel) is Some,
    ensures
        vfs_valid(removal_forest(e, items, k, fuel).unwrap()),
        forall|q: Seq<char>| has_key(removal_forest(e, items, k, fuel).unwrap(), q) ==> has_key(e, q),
    decreases fuel, 1int, items.len() - k,
{
    if k < items.len() {
        lemma_removal_keys(e, items[k as int], fuel);
        let e2 = removal_tree(e, items[k as int], fuel).unwrap();
        lemma_forest_keys(e2, items, k + 1, fuel);
    }
}

/// Removing a path recursively leaves no file under that path, nor any path
/// that was not there before.
pub proof fn law_recursive_removal_is_gone(e: Seq<(Seq<char>, FileView)>, p: Seq<char>, q: Seq<char>)
    requires
        vfs_valid(e),
        removal_tree(e, p, e.len()) is Some,
    ensures
        !has_key(removal_tree(e, p, e.len()).unwrap(), p),
        has_key(removal_tree(e, p, e.len()).unwrap(), q) ==> has_key(e, q),
{
    let fuel = e.len();
    lemma_removal_keys(e, p, fuel);
    if has_key(e, p) {
        lemma_valid_without(e, p);
        let e1 = without_key(e, p);
        let pp = parent_of(p).unwrap();
        let e2 = unparented(e1, pp, p).unwrap();
        lemma_unparented_keys(e1, pp, p);
        if has_key(e2, p) {
            let j = choose|j: int| 0 <= j < e2.len() && #[trigger] e2[j].0 == p;
            assert(e1[j].0 == p);
        }
        let pi = key_index(e1, pp);
        assert(e1[pi].0 == pp);
        lemma_valid_update(e1, pi, e2[pi].1);
        assert(e2 =~= e1.update(pi, (e1[pi].0, e2[pi].1)));
        match lookup(e, p).unwrap() {
            FileView::Directory(items) => {
                lemma_forest_keys(e2, items, 0, (fuel - 1) as nat);
            },
            _ => {},
        }
    }
}

} // verus!
