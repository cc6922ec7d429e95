//! The operations that the JavaScript side of a skiddo may call: logging and a
//! private in-memory file system.

use crate::memfs::{
    children, fresh_entries, has_parent, last_slash, lemma_last_slash_inside, memfs_create_dir, memfs_entries, memfs_exists,
    memfs_metadata, memfs_new, memfs_read, memfs_read_dir, memfs_remove_dir, memfs_remove_file,
    memfs_write, EntryKind, FsEntries,
};
use vfs::MemoryFS;
use vfs::VfsError;
use vstd::prelude::*;

verus! {

/// Severity of a line that the JavaScript side logs.
#[derive(Debug, PartialEq, Eq, Structural, Clone, Copy)]
pub enum LogLevel {
    Debug,
    Info,
    Warning,
    Error,
}

/// The state a skiddo keeps for its JavaScript side: its own file system.
pub struct SkiddoState {
    pub fs: MemoryFS,
}

impl View for SkiddoState {
    type V = FsEntries;

    open spec fn view(&self) -> FsEntries {
        memfs_entries(self.fs)
    }
}

/// What `stat` reports of an entry.
#[derive(Debug, PartialEq, Eq, Structural, Clone, Copy)]
pub struct SkiddoMetadata {
    pub is_dir: bool,
    pub len: u64,
}

impl SkiddoMetadata {
    /// The metadata of an entry of the given kind and content length.
    pub fn from_entry(kind: EntryKind, len: u64) -> (m: Self)
        ensures
            m.is_dir == (kind == EntryKind::Directory),
            m.len == len,
    {
        let is_dir = match kind {
            EntryKind::File => false,
            EntryKind::Directory => true,
        };
        SkiddoMetadata { is_dir, len }
    }
}

/// Why a file operation failed.
#[derive(Debug)]
pub enum FsOpError {
    /// The file system refused the request.
    Vfs(VfsError),
    /// Copying a directory is not supported.
    CopyDirectory,
    /// Renaming a directory is not supported.
    RenameDirectory,
}

/// The bytes of the file that every new skiddo state starts with.
pub open spec fn greeting() -> Seq<u8> {
    seq![72u8, 101u8, 108u8, 108u8, 111u8, 44u8, 32u8, 119u8, 111u8, 114u8, 108u8, 100u8, 33u8]
}

/// The path of that file.
pub open spec fn greeting_path() -> Seq<char> {
    seq!['/', 't', 'e', 's', 't', '.', 't', 'x', 't']
}

/// A new state: the root directory and one file, `/test.txt`, holding `Hello, world!`.
pub fn op_init_state() -> (state: SkiddoState)
    ensures
        state@ == fresh_entries().insert(greeting_path(), (false, greeting())),
{
    let mut fs = memfs_new();
    let content: Vec<u8> = vec![72, 101, 108, 108, 111, 44, 32, 119, 111, 114, 108, 100, 33];
    let path = "/test.txt";
    proof {
        reveal_strlit("/test.txt");
        assert(path@ == greeting_path());
        assert(last_slash(greeting_path()) == Some(0int)) by {
            reveal_with_fuel(last_slash, 10);
        }
        assert(greeting_path().take(0) == Seq::<char>::empty());
    }
    let _ = memfs_write(&mut fs, path, content.as_slice());
    assert(content@ == greeting());
    SkiddoState { fs }
}

/// What reading `path` gives: its content, when it is a file.
pub open spec fn read_entries(e: FsEntries, path: Seq<char>) -> Option<Seq<u8>> {
    if e.contains_key(path) && !e[path].0 {
        Some(e[path].1)
    } else {
        None
    }
}

/// Creating an empty file at `path`: whether it succeeds, and the entries after.
pub open spec fn create_file_entries(e: FsEntries, path: Seq<char>) -> (bool, FsEntries) {
    if has_parent(e, path) {
        (true, e.insert(path, (false, Seq::empty())))
    } else {
        (false, e)
    }
}

/// Writing `bytes` to `path`: any entry at `path` is removed first, then the file
/// is created with `bytes` if its parent is present. Whether it succeeds, and the
/// entries after (the removal stays when creation fails).
pub open spec fn write_entries(e: FsEntries, path: Seq<char>, bytes: Seq<u8>) -> (bool, FsEntries) {
    let cleared = if e.contains_key(path) {
        e.remove(path)
    } else {
        e
    };
    if has_parent(cleared, path) {
        (true, cleared.insert(path, (false, bytes)))
    } else {
        (false, cleared)
    }
}

/// Copying the file `from` to `to`: the entries after, when it succeeds.
pub open spec fn copy_entries(e: FsEntries, from: Seq<char>, to: Seq<char>) -> Option<FsEntries> {
    if e.contains_key(from) && !e[from].0 && has_parent(e, to) {
        Some(e.insert(to, (false, e[from].1)))
    } else {
        None
    }
}

/// Renaming the file `from` to `to`: the entries after, when it succeeds. It
/// succeeds when copying would; `from` is removed and `to` then holds the
/// content `from` had, so renaming a file onto itself leaves it as it was.
pub open spec fn rename_entries(e: FsEntries, from: Seq<char>, to: Seq<char>) -> Option<FsEntries> {
    if copy_entries(e, from, to) is Some {
        Some(e.remove(from).insert(to, (false, e[from].1)))
    } else {
        None
    }
}

/// Creates an empty file at `path`.
pub fn op_fs_create_file(state: &mut SkiddoState, path: &str) -> (r: Result<(), FsOpError>)
    ensures
        r is Ok == create_file_entries(old(state)@, path@).0,
        final(state)@ == create_file_entries(old(state)@, path@).1,
        r matches Err(e) ==> e is Vfs,
        r is Ok == has_parent(old(state)@, path@),
        r is Ok ==> final(state)@ == old(state)@.insert(path@, (false, Seq::<u8>::empty())),
        r is Err ==> final(state)@ == old(state)@,
{
    proof {
        lemma_create_file(old(state)@, path@, path@);
    }
    let empty: Vec<u8> = Vec::new();
    match memfs_write(&mut state.fs, path, empty.as_slice()) {
        Ok(()) => Ok(()),
        Err(e) => Err(FsOpError::Vfs(e)),
    }
}

/// Reads the whole content of the file at `path`.
pub fn op_fs_read_file(state: &SkiddoState, path: &str) -> (r: Result<Vec<u8>, FsOpError>)
    ensures
        r is Ok == read_entries(state@, path@) is Some,
        r matches Ok(v) ==> read_entries(state@, path@) == Some(v@),
        r matches Err(e) ==> e is Vfs,
{
    match memfs_read(&state.fs, path) {
        Ok(v) => Ok(v),
        Err(e) => Err(FsOpError::Vfs(e)),
    }
}

/// Replaces whatever is at `path` by a file holding `buf`.
pub fn op_fs_write_file(state: &mut SkiddoState, path: &str, buf: &[u8]) -> (r: Result<(), FsOpError>)
    ensures
        r is Ok == write_entries(old(state)@, path@, buf@).0,
        final(state)@ == write_entries(old(state)@, path@, buf@).1,
        r matches Err(e) ==> e is Vfs,
        r is Ok == has_parent(old(state)@, path@),
        r is Ok ==> final(state)@ == old(state)@.insert(path@, (false, buf@)),
        r is Err ==> final(state)@ == old(state)@.remove(path@),
{
    proof {
        lemma_write_file(old(state)@, path@, buf@, path@);
    }
    let present = match memfs_exists(&state.fs, path) {
        Ok(b) => b,
        Err(e) => return Err(FsOpError::Vfs(e)),
    };
    if present {
        match memfs_remove_file(&mut state.fs, path) {
            Ok(()) => {},
            Err(e) => return Err(FsOpError::Vfs(e)),
        }
    }
    match memfs_write(&mut state.fs, path, buf) {
        Ok(()) => Ok(()),
        Err(e) => Err(FsOpError::Vfs(e)),
    }
}

/// Removes the entry at `path`, whatever its kind.
pub fn op_fs_remove_file(state: &mut SkiddoState, path: &str) -> (r: Result<(), FsOpError>)
    ensures
        r is Ok == old(state)@.contains_key(path@),
        r is Ok ==> final(state)@ == old(state)@.remove(path@),
        r is Err ==> final(state)@ == old(state)@,
        r matches Err(e) ==> e is Vfs,
{
    match memfs_remove_file(&mut state.fs, path) {
        Ok(()) => Ok(()),
        Err(e) => Err(FsOpError::Vfs(e)),
    }
}

/// Creates an empty directory at `path`.
pub fn op_fs_create_dir(state: &mut SkiddoState, path: &str) -> (r: Result<(), FsOpError>)
    ensures
        r is Ok == (has_parent(old(state)@, path@) && !old(state)@.contains_key(path@)),
        r is Ok ==> final(state)@ == old(state)@.insert(path@, (true, Seq::<u8>::empty())),
        r is Err ==> final(state)@ == old(state)@,
        r matches Err(e) ==> e is Vfs,
{
    match memfs_create_dir(&mut state.fs, path) {
        Ok(()) => Ok(()),
        Err(e) => Err(FsOpError::Vfs(e)),
    }
}

/// Removes the entry at `path` if it has no children.
pub fn op_fs_remove_dir(state: &mut SkiddoState, path: &str) -> (r: Result<(), FsOpError>)
    ensures
        r is Ok == (old(state)@.contains_key(path@) && children(old(state)@, path@).is_empty()),
        r is Ok ==> final(state)@ == old(state)@.remove(path@),
        r is Err ==> final(state)@ == old(state)@,
        r matches Err(e) ==> e is Vfs,
{
    match memfs_remove_dir(&mut state.fs, path) {
        Ok(()) => Ok(()),
        Err(e) => Err(FsOpError::Vfs(e)),
    }
}

/// The kind and content length of the entry at `path`.
pub fn op_fs_stat(state: &SkiddoState, path: &str) -> (r: Result<SkiddoMetadata, FsOpError>)
    ensures
        r is Ok == state@.contains_key(path@),
        r matches Ok(m) ==> m.is_dir == state@[path@].0 && m.len == state@[path@].1.len(),
        r matches Err(e) ==> e is Vfs,
{
    match memfs_metadata(&state.fs, path) {
        Ok((kind, len)) => Ok(SkiddoMetadata::from_entry(kind, len)),
        Err(e) => Err(FsOpError::Vfs(e)),
    }
}

/// Copies the file `from` to `to`; copying a directory is refused.
pub fn op_fs_copy(state: &mut SkiddoState, from: &str, to: &str) -> (r: Result<(), FsOpError>)
    ensures
        r is Ok == copy_entries(old(state)@, from@, to@) is Some,
        r is Ok ==> final(state)@ == copy_entries(old(state)@, from@, to@)->0,
        r is Err ==> final(state)@ == old(state)@,
        r matches Err(e) ==> (e is CopyDirectory <==> (old(state)@.contains_key(from@)
            && old(state)@[from@].0)),
        r matches Err(e) ==> !(e is RenameDirectory),
{
    let (kind, _len) = match memfs_metadata(&state.fs, from) {
        Ok(m) => m,
        Err(e) => return Err(FsOpError::Vfs(e)),
    };
    match kind {
        EntryKind::File => {
            let content = match memfs_read(&state.fs, from) {
                Ok(c) => c,
                Err(e) => return Err(FsOpError::Vfs(e)),
            };
            match memfs_write(&mut state.fs, to, content.as_slice()) {
                Ok(()) => Ok(()),
                Err(e) => Err(FsOpError::Vfs(e)),
            }
        },
        EntryKind::Directory => Err(FsOpError::CopyDirectory),
    }
}

/// Moves the file `from` to `to`: the destination is created (its parent must
/// be present), `from` is removed, and the destination ends up holding the
/// content `from` had, also when the two are the same path. Renaming a
/// directory is refused.
pub fn op_fs_rename(state: &mut SkiddoState, from: &str, to: &str) -> (r: Result<(), FsOpError>)
    ensures
        r is Ok == rename_entries(old(state)@, from@, to@) is Some,
        r is Ok ==> final(state)@ == rename_entries(old(state)@, from@, to@)->0,
        r is Ok == (old(state)@.contains_key(from@) && !old(state)@[from@].0 && has_parent(
            old(state)@,
            to@,
        )),
        r is Ok ==> final(state)@ == old(state)@.remove(from@).insert(
            to@,
            (false, old(state)@[from@].1),
        ),
        r is Err ==> final(state)@ == old(state)@,
        r matches Err(e) ==> (e is RenameDirectory <==> (old(state)@.contains_key(from@)
            && old(state)@[from@].0)),
        r matches Err(e) ==> !(e is CopyDirectory),
{
    let (kind, _len) = match memfs_metadata(&state.fs, from) {
        Ok(m) => m,
        Err(e) => return Err(FsOpError::Vfs(e)),
    };
    match kind {
        EntryKind::File => {
            let content = match memfs_read(&state.fs, from) {
                Ok(c) => c,
                Err(e) => return Err(FsOpError::Vfs(e)),
            };
            match memfs_write(&mut state.fs, to, content.as_slice()) {
                Ok(()) => {},
                Err(e) => return Err(FsOpError::Vfs(e)),
            }
            match memfs_remove_file(&mut state.fs, from) {
                Ok(()) => {},
                Err(e) => return Err(FsOpError::Vfs(e)),
            }
            let still_there = match memfs_exists(&state.fs, to) {
                Ok(b) => b,
                Err(e) => return Err(FsOpError::Vfs(e)),
            };
            if still_there {
                assert(to@ != from@);
                assert(state@ =~= old(state)@.remove(from@).insert(to@, (false, content@)));
                Ok(())
            } else {
                // `from` and `to` are the same path: it is written back.
                assert(to@ == from@);
                proof {
                    let path = to@;
                    lemma_last_slash_inside(path);
                    let i = last_slash(path)->0;
                    assert(path.take(i).len() < path.len());
                    assert(path.take(i) != path);
                    assert(state@.contains_key(path.take(i)));
                }
                match memfs_write(&mut state.fs, to, content.as_slice()) {
                    Ok(()) => {},
                    Err(e) => return Err(FsOpError::Vfs(e)),
                }
                assert(state@ =~= old(state)@.remove(from@).insert(to@, (false, content@)));
                Ok(())
            }
        },
        EntryKind::Directory => Err(FsOpError::RenameDirectory),
    }
}

/// The names, one per line: joined by `\n`, with no `\n` after the last.
pub open spec fn joined_lines(names: Seq<Seq<char>>) -> Seq<char>
    decreases names.len(),
{
    if names.len() == 0 {
        Seq::empty()
    } else if names.len() == 1 {
        names[0]
    } else {
        joined_lines(names.drop_last()) + seq!['\n'] + names.last()
    }
}

/// Joins `names` with `\n` between each two.
pub fn join_lines(names: &Vec<String>) -> (r: String)
    ensures
        r@ == joined_lines(names@.map_values(|s: String| s@)),
        names@.len() == 0 ==> r@ == Seq::<char>::empty(),
        (names@.len() > 0 && forall|k: int|
            0 <= k < names@.len() ==> !(#[trigger] names@[k])@.contains('\n')) ==> lines_of(r@)
            == names@.map_values(|s: String| s@),
{
    let ghost views = names@.map_values(|s: String| s@);
    let mut r = String::new();
    let newline = "\n";
    proof {
        reveal_strlit("\n");
    }
    let mut i: usize = 0;
    while i < names.len()
        invariant
            0 <= i <= names.len(),
            views == names@.map_values(|s: String| s@),
            newline@ == seq!['\n'],
            r@ == joined_lines(views.take(i as int)),
        decreases names.len() - i,
    {
        if i > 0 {
            r.append(newline);
        }
        r.append(names[i].as_str());
        proof {
            assert(views.take(i + 1).drop_last() =~= views.take(i as int));
            assert(views.take(i + 1).last() == names@[i as int]@);
            if i == 0 {
                assert(views.take(1) =~= seq![names@[0]@]);
            }
        }
        i = i + 1;
    }
    assert(views.take(names.len() as int) =~= views);
    proof {
        if names@.len() > 0 && forall|k: int|
            0 <= k < names@.len() ==> !(#[trigger] names@[k])@.contains('\n') {
            assert forall|k: int| 0 <= k < views.len() implies !(#[trigger] views[k]).contains(
                '\n',
            ) by {
                assert(views[k] == names@[k]@);
            }
            lemma_joined_lines_split(views);
        }
    }
    r
}

/// The names of the children of the directory at `path`, one per line. The
/// order of the lines is the order in which the file system lists them.
pub fn op_fs_read_dir(state: &SkiddoState, path: &str) -> (r: Result<String, FsOpError>)
    ensures
        r is Ok == state@.contains_key(path@),
        r matches Ok(s) ==> exists|names: Seq<Seq<char>>|
            #![trigger joined_lines(names)]
            {
                &&& names.no_duplicates()
                &&& names.to_set() == children(state@, path@)
                &&& s@ == joined_lines(names)
            },
        r matches Ok(s) ==> (children(state@, path@).is_empty() ==> s@ == Seq::<char>::empty()),
        r matches Ok(s) ==> ((!children(state@, path@).is_empty() && forall|n: Seq<char>|
            #[trigger] children(state@, path@).contains(n) ==> !n.contains('\n')) ==> {
            &&& lines_of(s@).no_duplicates()
            &&& lines_of(s@).to_set() == children(state@, path@)
        }),
        r matches Err(e) ==> e is Vfs,
{
    match memfs_read_dir(&state.fs, path) {
        Ok(names) => {
            let listing = join_lines(&names);
            let ghost views = names@.map_values(|s: String| s@);
            assert(listing@ == joined_lines(views));
            proof {
                let kids = children(state@, path@);
                if kids.is_empty() && views.len() > 0 {
                    assert(views.to_set().contains(views[0]));
                    assert(kids.contains(views[0]));
                }
                if !kids.is_empty() && forall|n: Seq<char>|
                    #[trigger] kids.contains(n) ==> !n.contains('\n') {
                    if views.len() == 0 {
                        assert(views.to_set() =~= Set::<Seq<char>>::empty());
                        assert(false);
                    }
                    assert forall|k: int| 0 <= k < views.len() implies !(
                    #[trigger] views[k]).contains('\n') by {
                        assert(views.to_set().contains(views[k]));
                        assert(kids.contains(views[k]));
                    }
                    lemma_joined_lines_split(views);
                }
            }
            Ok(listing)
        },
        Err(e) => Err(FsOpError::Vfs(e)),
    }
}

/// Read-after-write law: once a write to `path` succeeds, reading `path` gives
/// back exactly the bytes written, and every other path reads as before.
pub proof fn lemma_read_after_write(e: FsEntries, path: Seq<char>, bytes: Seq<u8>, other: Seq<char>)
    requires
        write_entries(e, path, bytes).0,
    ensures
        read_entries(write_entries(e, path, bytes).1, path) == Some(bytes),
        other != path ==> read_entries(write_entries(e, path, bytes).1, other) == read_entries(
            e,
            other,
        ),
{
}

/// Copy law: a successful copy leaves the source as it was and makes the
/// destination read as the source; no other path changes.
pub proof fn lemma_copy_duplicates(e: FsEntries, from: Seq<char>, to: Seq<char>, other: Seq<char>)
    requires
        copy_entries(e, from, to) is Some,
    ensures
        read_entries(copy_entries(e, from, to)->0, to) == read_entries(e, from),
        read_entries(copy_entries(e, from, to)->0, from) == read_entries(e, from),
        other != to ==> copy_entries(e, from, to)->0.contains_key(other) == e.contains_key(other),
        other != to ==> read_entries(copy_entries(e, from, to)->0, other) == read_entries(e, other),
{
}

/// Rename law: renaming a file to a different path makes the destination read as
/// the source did, and the source disappears.
pub proof fn lemma_rename_moves(e: FsEntries, from: Seq<char>, to: Seq<char>)
    requires
        rename_entries(e, from, to) is Some,
        from != to,
    ensures
        read_entries(rename_entries(e, from, to)->0, to) == read_entries(e, from),
        !rename_entries(e, from, to)->0.contains_key(from),
{
}

/// Renaming a file onto itself succeeds exactly when copying it onto itself
/// would, and leaves the file system as it was.
pub proof fn lemma_rename_onto_itself(e: FsEntries, path: Seq<char>)
    requires
        rename_entries(e, path, path) is Some,
    ensures
        rename_entries(e, path, path)->0 == e,
{
    assert(rename_entries(e, path, path)->0 =~= e);
}

/// Removing `path` itself never changes whether its parent is present: the part
/// of a path before its last `/` is shorter than the path.
pub proof fn lemma_parent_survives_removal(e: FsEntries, path: Seq<char>)
    ensures
        has_parent(e.remove(path), path) == has_parent(e, path),
{
    lemma_last_slash_inside(path);
    if let Some(i) = last_slash(path) {
        assert(path.take(i).len() < path.len());
        assert(path.take(i) != path);
    }
}

/// Create-file law: creating a file at `path` succeeds exactly when the part of
/// `path` before its last `/` is present, whether or not `path` is present
/// already. On success `path` becomes an empty file (replacing whatever was
/// there) and reads as no bytes, and nothing else changes; on failure nothing
/// changes.
pub proof fn lemma_create_file(e: FsEntries, path: Seq<char>, other: Seq<char>)
    ensures
        create_file_entries(e, path).0 == has_parent(e, path),
        create_file_entries(e, path).0 ==> create_file_entries(e, path).1 == e.insert(
            path,
            (false, Seq::<u8>::empty()),
        ),
        create_file_entries(e, path).0 ==> read_entries(create_file_entries(e, path).1, path)
            == Some(Seq::<u8>::empty()),
        !create_file_entries(e, path).0 ==> create_file_entries(e, path).1 == e,
        other != path ==> create_file_entries(e, path).1.contains_key(other) == e.contains_key(
            other,
        ),
        other != path ==> read_entries(create_file_entries(e, path).1, other) == read_entries(
            e,
            other,
        ),
{
}

/// Write law: writing succeeds exactly when the part of `path` before its last
/// `/` is present, whatever the bytes and whether or not `path` is present. On
/// success `path` is a file holding exactly the bytes; on failure `path` is gone
/// (it was cleared first); no other path changes either way.
pub proof fn lemma_write_file(e: FsEntries, path: Seq<char>, bytes: Seq<u8>, other: Seq<char>)
    ensures
        write_entries(e, path, bytes).0 == has_parent(e, path),
        write_entries(e, path, bytes).0 ==> write_entries(e, path, bytes).1 == e.insert(
            path,
            (false, bytes),
        ),
        !write_entries(e, path, bytes).0 ==> write_entries(e, path, bytes).1 == e.remove(path),
        other != path ==> write_entries(e, path, bytes).1.contains_key(other) == e.contains_key(
            other,
        ),
        other != path ==> read_entries(write_entries(e, path, bytes).1, other) == read_entries(
            e,
            other,
        ),
{
    lemma_parent_survives_removal(e, path);
    if e.contains_key(path) {
        assert(e.remove(path).insert(path, (false, bytes)) =~= e.insert(path, (false, bytes)));
    } else {
        assert(e.remove(path) =~= e);
    }
}

/// Writing the same path with two different contents succeeds or fails alike.
pub proof fn lemma_write_success_ignores_bytes(
    e: FsEntries,
    path: Seq<char>,
    a: Seq<u8>,
    b: Seq<u8>,
)
    ensures
        write_entries(e, path, a).0 == write_entries(e, path, b).0,
{
    lemma_write_file(e, path, a, path);
    lemma_write_file(e, path, b, path);
}

/// Rename law: renaming `from` to `to` succeeds exactly when `from` is a file and
/// the part of `to` before its last `/` is present, whether or not `to` exists
/// already (an existing `to` is replaced). Afterwards `to` holds the content
/// `from` had, `from` is gone unless it is `to`, and no other path changes.
pub proof fn lemma_rename(e: FsEntries, from: Seq<char>, to: Seq<char>, other: Seq<char>)
    ensures
        rename_entries(e, from, to) is Some <==> (e.contains_key(from) && !e[from].0 && has_parent(
            e,
            to,
        )),
        rename_entries(e, from, to) is Some ==> read_entries(rename_entries(e, from, to)->0, to)
            == Some(e[from].1),
        rename_entries(e, from, to) is Some && from != to ==> !rename_entries(
            e,
            from,
            to,
        )->0.contains_key(from),
        rename_entries(e, from, to) is Some && other != from && other != to ==> rename_entries(
            e,
            from,
            to,
        )->0.contains_key(other) == e.contains_key(other),
        rename_entries(e, from, to) is Some && other != from && other != to ==> read_entries(
            rename_entries(e, from, to)->0,
            other,
        ) == read_entries(e, other),
{
}

/// Position of the last `c` in `s`, if any.
pub open spec fn last_index_of(s: Seq<char>, c: char) -> Option<int>
    decreases s.len(),
{
    if s.len() == 0 {
        None
    } else if s.last() == c {
        Some(s.len() - 1)
    } else {
        last_index_of(s.drop_last(), c)
    }
}

/// The last `c` of `s` lies inside it.
pub proof fn lemma_last_index_inside(s: Seq<char>, c: char)
    ensures
        last_index_of(s, c) matches Some(i) ==> 0 <= i < s.len() && s[i] == c,
        last_index_of(s, c) is None ==> !s.contains(c),
    decreases s.len(),
{
    if s.len() > 0 {
        lemma_last_index_inside(s.drop_last(), c);
        if s.last() != c && last_index_of(s, c) is None {
            assert forall|k: int| 0 <= k < s.len() implies s[k] != c by {
                if k < s.len() - 1 {
                    assert(s.drop_last()[k] == s[k]);
                }
            }
        }
    }
}

/// `s` cut at every `\n`: the lines of a text, in order (a text without `\n` is
/// one line).
pub open spec fn lines_of(s: Seq<char>) -> Seq<Seq<char>>
    decreases s.len(),
{
    match last_index_of(s, '\n') {
        None => seq![s],
        Some(i) => {
            if 0 <= i < s.len() {
                lines_of(s.take(i)).push(s.skip(i + 1))
            } else {
                seq![s]
            }
        },
    }
}

/// The last `\n` of `front + "\n" + back` is the one just after `front`, when
/// `back` has none.
proof fn lemma_last_newline_of_join(front: Seq<char>, back: Seq<char>)
    requires
        !back.contains('\n'),
    ensures
        last_index_of(front + seq!['\n'] + back, '\n') == Some(front.len() as int),
    decreases back.len(),
{
    let s = front + seq!['\n'] + back;
    if back.len() == 0 {
        assert(s.last() == '\n');
    } else {
        assert(back[back.len() - 1] == back.last());
        assert(s.last() == back.last());
        assert(!back.drop_last().contains('\n')) by {
            if back.drop_last().contains('\n') {
                let k = choose|k: int| 0 <= k < back.drop_last().len() && back.drop_last()[k] == '\n';
                assert(back[k] == '\n');
            }
        }
        assert(s.drop_last() =~= front + seq!['\n'] + back.drop_last());
        lemma_last_newline_of_join(front, back.drop_last());
    }
}

/// Listing law: joining a non-empty list of names that contain no `\n` gives a
/// text whose lines are exactly those names, in order: one line per name, line
/// `k` being `names[k]`.
pub proof fn lemma_joined_lines_split(names: Seq<Seq<char>>)
    requires
        names.len() > 0,
        forall|k: int| 0 <= k < names.len() ==> !(#[trigger] names[k]).contains('\n'),
    ensures
        lines_of(joined_lines(names)) == names,
        lines_of(joined_lines(names)).len() == names.len(),
        forall|k: int| 0 <= k < names.len() ==> #[trigger] lines_of(joined_lines(names))[k] == names[k],
    decreases names.len(),
{
    if names.len() == 1 {
        lemma_last_index_inside(names[0], '\n');
        assert(lines_of(names[0]) =~= names);
    } else {
        let front = joined_lines(names.drop_last());
        let back = names.last();
        assert(back == names[names.len() - 1]);
        lemma_joined_lines_split(names.drop_last());
        lemma_last_newline_of_join(front, back);
        let s = front + seq!['\n'] + back;
        assert(s.take(front.len() as int) =~= front);
        assert(s.skip(front.len() as int + 1) =~= back);
        assert(lines_of(s) =~= names);
    }
}

/// The listing of no names is empty, and of one name is that name.
pub proof fn lemma_joined_lines_short(names: Seq<Seq<char>>)
    ensures
        names.len() == 0 ==> joined_lines(names) == Seq::<char>::empty(),
        names.len() == 1 ==> joined_lines(names) == names[0],
{
}

/// The last `/` of `parent/name` is the one just after `parent`, when `name` has none.
pub proof fn lemma_last_slash_of_child(parent: Seq<char>, name: Seq<char>)
    requires
        !name.contains('/'),
    ensures
        last_slash(parent + seq!['/'] + name) == Some(parent.len() as int),
        (parent + seq!['/'] + name).take(parent.len() as int) == parent,
    decreases name.len(),
{
    let path = parent + seq!['/'] + name;
    if name.len() == 0 {
        assert(path.last() == '/');
    } else {
        assert(path.last() == name.last());
        assert(name.contains(name.last()) ==> name.last() != '/');
        assert(name[name.len() - 1] == name.last());
        assert(!name.drop_last().contains('/')) by {
            if name.drop_last().contains('/') {
                let k = choose|k: int| 0 <= k < name.drop_last().len() && name.drop_last()[k] == '/';
                assert(name[k] == '/');
            }
        }
        assert(path.drop_last() =~= parent + seq!['/'] + name.drop_last());
        lemma_last_slash_of_child(parent, name.drop_last());
    }
    assert(path.take(parent.len() as int) =~= parent);
}

/// Directory listing law: creating a directory `name` (a name without `/`) under
/// a present directory `parent` succeeds, and afterwards `name` is listed among
/// the children of `parent`.
pub proof fn lemma_created_dir_is_listed(e: FsEntries, parent: Seq<char>, name: Seq<char>)
    requires
        !name.contains('/'),
        e.contains_key(parent),
        !e.contains_key(parent + seq!['/'] + name),
    ensures
        has_parent(e, parent + seq!['/'] + name),
        children(e.insert(parent + seq!['/'] + name, (true, Seq::empty())), parent).contains(name),
{
    lemma_last_slash_of_child(parent, name);
}

} // verus!
