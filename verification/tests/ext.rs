use skiddo_bot::ext::{
    join_lines, op_fs_copy, op_fs_create_dir, op_fs_create_file, op_fs_read_dir,
    op_fs_read_file, op_fs_remove_dir, op_fs_remove_file, op_fs_rename, op_fs_stat,
    op_fs_write_file, op_init_state, FsOpError, SkiddoMetadata, SkiddoState,
};
use skiddo_bot::memfs::EntryKind;

fn lines(s: &str) -> Vec<String> {
    let mut v: Vec<String> = s.split('\n').map(|x| x.to_string()).collect();
    v.sort();
    v
}

#[test]
fn init_state_holds_the_greeting() {
    let state = op_init_state();
    assert_eq!(op_fs_read_file(&state, "/test.txt").unwrap(), b"Hello, world!".to_vec());
    assert_eq!(op_fs_read_dir(&state, "").unwrap(), "test.txt");
    assert_eq!(
        op_fs_stat(&state, "/test.txt").unwrap(),
        SkiddoMetadata { is_dir: false, len: 13 }
    );
}

#[test]
fn write_then_read_gives_back_the_bytes() {
    let mut state = op_init_state();
    op_fs_write_file(&mut state, "/a.bin", &[1, 2, 3]).unwrap();
    assert_eq!(op_fs_read_file(&state, "/a.bin").unwrap(), vec![1, 2, 3]);
    op_fs_write_file(&mut state, "/test.txt", b"bye").unwrap();
    assert_eq!(op_fs_read_file(&state, "/test.txt").unwrap(), b"bye".to_vec());
    assert_eq!(op_fs_read_file(&state, "/a.bin").unwrap(), vec![1, 2, 3]);
}

#[test]
fn write_without_parent_fails() {
    let mut state = op_init_state();
    assert!(matches!(
        op_fs_write_file(&mut state, "/missing/a.txt", b"x"),
        Err(FsOpError::Vfs(_))
    ));
    assert!(matches!(op_fs_write_file(&mut state, "nope", b"x"), Err(FsOpError::Vfs(_))));
    assert!(op_fs_read_file(&state, "/missing/a.txt").is_err());
}

#[test]
fn create_file_is_empty() {
    let mut state = op_init_state();
    op_fs_create_file(&mut state, "/e").unwrap();
    assert_eq!(op_fs_read_file(&state, "/e").unwrap(), Vec::<u8>::new());
    assert!(matches!(op_fs_create_file(&mut state, "/no/e"), Err(FsOpError::Vfs(_))));
}

#[test]
fn directories_list_their_children() {
    let mut state = op_init_state();
    op_fs_create_dir(&mut state, "/d").unwrap();
    op_fs_write_file(&mut state, "/d/x", b"1").unwrap();
    op_fs_create_dir(&mut state, "/d/sub").unwrap();
    op_fs_write_file(&mut state, "/d/sub/deep", b"2").unwrap();
    assert_eq!(lines(&op_fs_read_dir(&state, "/d").unwrap()), vec!["sub", "x"]);
    assert_eq!(lines(&op_fs_read_dir(&state, "").unwrap()), vec!["d", "test.txt"]);
    assert_eq!(op_fs_read_dir(&state, "/d/sub/deep").unwrap(), "");
    assert!(matches!(op_fs_read_dir(&state, "/zzz"), Err(FsOpError::Vfs(_))));
    assert!(matches!(op_fs_create_dir(&mut state, "/d"), Err(FsOpError::Vfs(_))));
    assert!(matches!(op_fs_create_dir(&mut state, "/q/r"), Err(FsOpError::Vfs(_))));
    assert_eq!(op_fs_stat(&state, "/d").unwrap(), SkiddoMetadata { is_dir: true, len: 0 });
    assert!(op_fs_read_file(&state, "/d").is_err());
}

#[test]
fn remove_dir_only_when_empty() {
    let mut state = op_init_state();
    op_fs_create_dir(&mut state, "/d").unwrap();
    op_fs_write_file(&mut state, "/d/x", b"1").unwrap();
    assert!(matches!(op_fs_remove_dir(&mut state, "/d"), Err(FsOpError::Vfs(_))));
    op_fs_remove_file(&mut state, "/d/x").unwrap();
    op_fs_remove_dir(&mut state, "/d").unwrap();
    assert!(op_fs_stat(&state, "/d").is_err());
    assert!(matches!(op_fs_remove_dir(&mut state, "/d"), Err(FsOpError::Vfs(_))));
}

#[test]
fn remove_file_missing_fails() {
    let mut state = op_init_state();
    assert!(matches!(op_fs_remove_file(&mut state, "/none"), Err(FsOpError::Vfs(_))));
    op_fs_remove_file(&mut state, "/test.txt").unwrap();
    assert!(op_fs_read_file(&state, "/test.txt").is_err());
}

#[test]
fn copy_duplicates_a_file() {
    let mut state = op_init_state();
    op_fs_copy(&mut state, "/test.txt", "/copy.txt").unwrap();
    assert_eq!(op_fs_read_file(&state, "/copy.txt").unwrap(), b"Hello, world!".to_vec());
    assert_eq!(op_fs_read_file(&state, "/test.txt").unwrap(), b"Hello, world!".to_vec());
    assert!(matches!(op_fs_copy(&mut state, "/none", "/x"), Err(FsOpError::Vfs(_))));
    assert!(matches!(op_fs_copy(&mut state, "/test.txt", "/no/x"), Err(FsOpError::Vfs(_))));
    op_fs_create_dir(&mut state, "/d").unwrap();
    assert!(matches!(op_fs_copy(&mut state, "/d", "/e"), Err(FsOpError::CopyDirectory)));
    assert!(op_fs_stat(&state, "/e").is_err());
}

#[test]
fn rename_moves_a_file() {
    let mut state = op_init_state();
    op_fs_rename(&mut state, "/test.txt", "/moved.txt").unwrap();
    assert_eq!(op_fs_read_file(&state, "/moved.txt").unwrap(), b"Hello, world!".to_vec());
    assert!(op_fs_stat(&state, "/test.txt").is_err());
    op_fs_create_dir(&mut state, "/d").unwrap();
    assert!(matches!(op_fs_rename(&mut state, "/d", "/e"), Err(FsOpError::RenameDirectory)));
    assert!(matches!(op_fs_rename(&mut state, "/none", "/e"), Err(FsOpError::Vfs(_))));
}

#[test]
fn rename_onto_itself_keeps_the_file() {
    let mut state = op_init_state();
    op_fs_rename(&mut state, "/test.txt", "/test.txt").unwrap();
    assert_eq!(op_fs_read_file(&state, "/test.txt").unwrap(), b"Hello, world!".to_vec());
    assert_eq!(op_fs_read_dir(&state, "").unwrap(), "test.txt");
}

#[test]
fn rename_into_a_path_under_the_source() {
    // The destination's parent is checked before the source is removed.
    let mut state = op_init_state();
    op_fs_rename(&mut state, "/test.txt", "/test.txt/inner").unwrap();
    assert!(op_fs_stat(&state, "/test.txt").is_err());
    assert_eq!(
        op_fs_read_file(&state, "/test.txt/inner").unwrap(),
        b"Hello, world!".to_vec()
    );
}

#[test]
fn fresh_state_has_only_root() {
    let state = SkiddoState { fs: vfs::MemoryFS::new() };
    assert_eq!(op_fs_read_dir(&state, "").unwrap(), "");
    assert_eq!(op_fs_stat(&state, "").unwrap(), SkiddoMetadata { is_dir: true, len: 0 });
}

#[test]
fn join_lines_joins_with_newlines() {
    assert_eq!(join_lines(&vec![]), "");
    assert_eq!(join_lines(&vec!["a".to_string()]), "a");
    assert_eq!(
        join_lines(&vec!["a".to_string(), "".to_string(), "c".to_string()]),
        "a\n\nc"
    );
}

#[test]
fn metadata_from_entry() {
    assert_eq!(
        SkiddoMetadata::from_entry(EntryKind::Directory, 0),
        SkiddoMetadata { is_dir: true, len: 0 }
    );
    assert_eq!(
        SkiddoMetadata::from_entry(EntryKind::File, 5),
        SkiddoMetadata { is_dir: false, len: 5 }
    );
}
