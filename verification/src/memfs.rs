//! The in-memory file system of the `vfs` crate, as the rest of the library sees it.
//!
//! A `MemoryFS` keeps one table from path to entry. Each entry is either a
//! directory or a file with some bytes of content. The functions here are the
//! only places that call into `vfs`; their contracts restate, over
//! [`memfs_entries`], what `vfs::impls::memory` does with that table. Timestamps
//! (creation, modification, access) that the table also records are not modelled.
//! `vfs` changes the table through a shared reference (the table sits behind a
//! lock); the functions here that change it take the file system by `&mut`, so
//! that the change is visible to the verifier. Writing and reading go through a
//! file handle that is a trait object; the call that opens the handle and the
//! write or read through it stand together in one function.

use std::io::Read;
use std::io::Write;
use vfs::FileSystem;
use vfs::MemoryFS;
use vfs::VfsError;
use vfs::VfsFileType;
use vstd::prelude::*;

verus! {

#[verifier::external_type_specification]
#[verifier::external_body]
pub struct ExMemoryFS(MemoryFS);

#[verifier::external_type_specification]
#[verifier::external_body]
pub struct ExVfsError(VfsError);

/// The table of a file system: path to (is it a directory, content bytes).
pub type FsEntries = Map<Seq<char>, (bool, Seq<u8>)>;

/// The entries that an in-memory file system holds, keyed by path.
pub uninterp spec fn memfs_entries(fs: MemoryFS) -> Map<Seq<char>, (bool, Seq<u8>)>;

/// The kind of an entry, as metadata reports it.
#[derive(Debug, PartialEq, Eq, Structural, Clone, Copy)]
pub enum EntryKind {
    File,
    Directory,
}

/// Position of the last `/` in a path, if any.
pub open spec fn last_slash(path: Seq<char>) -> Option<int>
    decreases path.len(),
{
    if path.len() == 0 {
        None
    } else if path.last() == '/' {
        Some(path.len() - 1)
    } else {
        last_slash(path.drop_last())
    }
}

/// The last `/` of a path lies inside it, so the part before it is shorter.
pub proof fn lemma_last_slash_inside(path: Seq<char>)
    ensures
        last_slash(path) matches Some(i) ==> 0 <= i < path.len() && path[i] == '/',
    decreases path.len(),
{
    if path.len() > 0 && path.last() != '/' {
        lemma_last_slash_inside(path.drop_last());
    }
}

/// Whether the part of `path` before its last `/` is present: the condition
/// under which a file or directory may be created at `path`.
pub open spec fn has_parent(entries: FsEntries, path: Seq<char>) -> bool {
    match last_slash(path) {
        Some(i) => entries.contains_key(path.take(i)),
        None => false,
    }
}

/// The names of the direct children of `path`: every `name` without a `/`
/// such that `path/name` is present.
pub open spec fn children(entries: FsEntries, path: Seq<char>) -> Set<Seq<char>> {
    Set::new(
        |name: Seq<char>| !name.contains('/') && entries.contains_key(path + seq!['/'] + name),
    )
}

/// The root directory, the only entry of a new file system.
pub open spec fn fresh_entries() -> FsEntries {
    map![Seq::<char>::empty() => (true, Seq::<u8>::empty())]
}

/// `MemoryFS::new`: a file system that holds only the root directory `""`.
#[verifier::external_body]
pub(crate) fn memfs_new() -> (fs: MemoryFS)
    ensures
        memfs_entries(fs) == fresh_entries(),
{
    MemoryFS::new()
}

/// `FileSystem::exists` on a `MemoryFS`: always `Ok`, telling whether the path
/// is a key of the table.
#[verifier::external_body]
pub(crate) fn memfs_exists(fs: &MemoryFS, path: &str) -> (r: Result<bool, VfsError>)
    ensures
        r is Ok,
        r matches Ok(b) ==> b == memfs_entries(*fs).contains_key(path@),
{
    fs.exists(path)
}

/// `FileSystem::create_file` on a `MemoryFS`, followed by writing `bytes` to the
/// new file and dropping it. Creation fails, changing nothing, unless the part
/// of the path before its last `/` is present; otherwise the path becomes a
/// file holding exactly `bytes` (replacing whatever entry it had). Writing into
/// the in-memory buffer does not fail.
#[verifier::external_body]
pub(crate) fn memfs_write(fs: &mut MemoryFS, path: &str, bytes: &[u8]) -> (r: Result<(), VfsError>)
    ensures
        r is Ok <==> has_parent(memfs_entries(*old(fs)), path@),
        r is Ok ==> memfs_entries(*final(fs)) == memfs_entries(*old(fs)).insert(
            path@,
            (false, bytes@),
        ),
        r is Err ==> memfs_entries(*final(fs)) == memfs_entries(*old(fs)),
{
    let mut file = fs.create_file(path)?;
    file.write_all(bytes)?;
    Ok(())
}

/// `FileSystem::open_file` on a `MemoryFS`, followed by reading the file to its
/// end. Fails unless the path is present and is a file; otherwise gives back the
/// whole content. Only the access time of the entry changes.
#[verifier::external_body]
pub(crate) fn memfs_read(fs: &MemoryFS, path: &str) -> (r: Result<Vec<u8>, VfsError>)
    ensures
        r is Ok <==> (memfs_entries(*fs).contains_key(path@) && !memfs_entries(*fs)[path@].0),
        r matches Ok(v) ==> v@ == memfs_entries(*fs)[path@].1,
{
    let mut file = fs.open_file(path)?;
    let mut buf = Vec::new();
    file.read_to_end(&mut buf)?;
    Ok(buf)
}

/// `FileSystem::metadata` on a `MemoryFS`: fails unless the path is present;
/// otherwise its kind and the length of its content (zero for a directory).
#[verifier::external_body]
pub(crate) fn memfs_metadata(fs: &MemoryFS, path: &str) -> (r: Result<(EntryKind, u64), VfsError>)
    ensures
        r is Ok <==> memfs_entries(*fs).contains_key(path@),
        r matches Ok((kind, len)) ==> {
            &&& (kind == EntryKind::Directory) == memfs_entries(*fs)[path@].0
            &&& len == memfs_entries(*fs)[path@].1.len()
        },
{
    let meta = fs.metadata(path)?;
    let kind = match meta.file_type {
        VfsFileType::File => EntryKind::File,
        VfsFileType::Directory => EntryKind::Directory,
    };
    Ok((kind, meta.len))
}

/// `FileSystem::remove_file` on a `MemoryFS`: fails, changing nothing, unless
/// the path is present; otherwise removes that entry, whatever its kind.
#[verifier::external_body]
pub(crate) fn memfs_remove_file(fs: &mut MemoryFS, path: &str) -> (r: Result<(), VfsError>)
    ensures
        r is Ok <==> memfs_entries(*old(fs)).contains_key(path@),
        r is Ok ==> memfs_entries(*final(fs)) == memfs_entries(*old(fs)).remove(path@),
        r is Err ==> memfs_entries(*final(fs)) == memfs_entries(*old(fs)),
{
    fs.remove_file(path)
}

/// `FileSystem::create_dir` on a `MemoryFS`: fails, changing nothing, unless the
/// part of the path before its last `/` is present and the path itself is not;
/// otherwise the path becomes an empty directory.
#[verifier::external_body]
pub(crate) fn memfs_create_dir(fs: &mut MemoryFS, path: &str) -> (r: Result<(), VfsError>)
    ensures
        r is Ok <==> (has_parent(memfs_entries(*old(fs)), path@) && !memfs_entries(
            *old(fs),
        ).contains_key(path@)),
        r is Ok ==> memfs_entries(*final(fs)) == memfs_entries(*old(fs)).insert(
            path@,
            (true, Seq::<u8>::empty()),
        ),
        r is Err ==> memfs_entries(*final(fs)) == memfs_entries(*old(fs)),
{
    fs.create_dir(path)
}

/// `FileSystem::read_dir` on a `MemoryFS`, collected: fails unless the path is
/// present; otherwise the names of its direct children, each once. The order in
/// which they come depends on how the table's hash map is walked, and is not stated.
#[verifier::external_body]
pub(crate) fn memfs_read_dir(fs: &MemoryFS, path: &str) -> (r: Result<Vec<String>, VfsError>)
    ensures
        r is Ok <==> memfs_entries(*fs).contains_key(path@),
        r matches Ok(v) ==> {
            &&& v@.map_values(|s: String| s@).no_duplicates()
            &&& v@.map_values(|s: String| s@).to_set() == children(memfs_entries(*fs), path@)
        },
{
    Ok(fs.read_dir(path)?.collect())
}

/// `FileSystem::remove_dir` on a `MemoryFS`: fails, changing nothing, unless the
/// path is present and has no direct children; otherwise removes that entry.
#[verifier::external_body]
pub(crate) fn memfs_remove_dir(fs: &mut MemoryFS, path: &str) -> (r: Result<(), VfsError>)
    ensures
        r is Ok <==> (memfs_entries(*old(fs)).contains_key(path@) && children(
            memfs_entries(*old(fs)),
            path@,
        ).is_empty()),
        r is Ok ==> memfs_entries(*final(fs)) == memfs_entries(*old(fs)).remove(path@),
        r is Err ==> memfs_entries(*final(fs)) == memfs_entries(*old(fs)),
{
    fs.remove_dir(path)
}

} // verus!
