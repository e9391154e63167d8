use cairn::access::{
    as_file_kind, check_access, decode_open_flags, read_size, FileKind, FsError, OpenMode, ROOT_INO,
};
use cairn::tracer_fs::{dir_page, open_mutation, InodeAttributes, Mutation, SetattrAction, TracerFS};

fn record(ino: u64, mode: u32, path: &str) -> InodeAttributes {
    InodeAttributes::from_stat(ino, 1000, 100, mode, (10, 5), (20, 6), 42, 1, 4096, 8, 0, path.to_string())
        .unwrap()
}

fn table() -> TracerFS {
    let mut fs = TracerFS::new("/back".to_string());
    fs.insert(record(2, 0o040755, "/back"));
    fs.insert(record(11, 0o100644, "/back/a.txt"));
    fs.insert(record(12, 0o040700, "/back/dir"));
    fs.insert(record(13, 0o120777, "/back/link"));
    fs
}

#[test]
fn access_existence_check_always_succeeds() {
    assert!(check_access(0, 0, 0, 500, 500, 0));
}

#[test]
fn access_uses_owner_group_and_other_bits() {
    // rw-r-----
    assert!(check_access(1000, 100, 0o640, 1000, 5, 4 | 2));
    assert!(!check_access(1000, 100, 0o640, 1000, 5, 1));
    assert!(check_access(1000, 100, 0o640, 7, 100, 4));
    assert!(!check_access(1000, 100, 0o640, 7, 100, 2));
    assert!(!check_access(1000, 100, 0o640, 7, 8, 4));
    assert!(check_access(1000, 100, 0o644, 7, 8, 4));
}

#[test]
fn root_needs_an_execute_bit_to_execute() {
    assert!(check_access(1000, 100, 0o600, 0, 0, 4 | 2));
    assert!(!check_access(1000, 100, 0o600, 0, 0, 1));
    assert!(check_access(1000, 100, 0o610, 0, 0, 1));
    assert!(check_access(1000, 100, 0o601, 0, 0, 1 | 4));
}

#[test]
fn open_flags_are_decoded() {
    assert_eq!(decode_open_flags(0), Ok(OpenMode { access_mask: 4, read: true, write: false }));
    assert_eq!(decode_open_flags(0x20), Ok(OpenMode { access_mask: 1, read: true, write: false }));
    assert_eq!(decode_open_flags(1), Ok(OpenMode { access_mask: 2, read: false, write: true }));
    assert_eq!(decode_open_flags(2 | 0o1000), Ok(OpenMode { access_mask: 6, read: true, write: true }));
    assert_eq!(decode_open_flags(3), Err(FsError::InvalidArgument));
    assert_eq!(decode_open_flags(0o1000), Err(FsError::AccessDenied));
}

#[test]
fn file_kinds_from_mode_bits() {
    assert_eq!(as_file_kind(0o100644), Some(FileKind::File));
    assert_eq!(as_file_kind(0o040755), Some(FileKind::Directory));
    assert_eq!(as_file_kind(0o120777), Some(FileKind::Symlink));
    assert_eq!(as_file_kind(0o010644), None);
    assert_eq!(as_file_kind(0o140755), None);
}

#[test]
fn reads_are_clamped_to_the_file_end() {
    assert_eq!(read_size(100, 1000, 0), 100);
    assert_eq!(read_size(100, 1000, 950), 50);
    assert_eq!(read_size(100, 1000, 1000), 0);
    assert_eq!(read_size(100, 1000, 5000), 0);
    assert_eq!(read_size(100, 1000, -1), 0);
    // a read of what was just written at an offset gets all of it back
    let (offset, written): (i64, u32) = (300, 25);
    assert_eq!(read_size(written, (offset as u64) + written as u64, offset), written);
}

#[test]
fn records_keep_their_backing_inode_numbers() {
    let fs = table();
    // the backing root sits under the reserved root inode
    assert_eq!(fs.getattr(ROOT_INO).unwrap().ino, 2);
    assert!(fs.getattr(2).is_err());
    assert_eq!(fs.getattr(11).unwrap().real_path, "/back/a.txt");
    assert_eq!(fs.getattr(11).unwrap().kind, FileKind::File);
    assert_eq!(fs.getattr(99).unwrap_err(), FsError::NotFound);
    assert_eq!(fs.root(), "/back");
}

#[test]
fn paths_resolve_through_the_parent() {
    let fs = table();
    assert_eq!(fs.get_path(ROOT_INO, "x.txt"), Ok("/back/x.txt".to_string()));
    assert_eq!(fs.get_path(12, "y"), Ok("/back/dir/y".to_string()));
    assert_eq!(fs.get_path(77, "y"), Err(FsError::NotFound));
}

#[test]
fn failed_changes_leave_the_table_alone() {
    let mut fs = table();
    assert_eq!(fs.handle_metadata_on_change(Err(FsError::Io(5))).unwrap_err(), FsError::Io(5));
    assert_eq!(fs.getattr(11).unwrap().len, 42);
    let mut fresh = record(11, 0o100644, "/back/a.txt");
    fresh.len = 7;
    assert_eq!(fs.handle_metadata_on_change(Ok(fresh)).unwrap().len, 7);
    assert_eq!(fs.getattr(11).unwrap().len, 7);
}

#[test]
fn rename_keeps_the_inode_under_the_new_path() {
    let mut fs = table();
    let moved = record(11, 0o100644, "/back/dir/b.txt");
    let reply = fs.handle_metadata_on_change(Ok(moved)).unwrap();
    assert_eq!(reply.ino, 11);
    assert_eq!(fs.getattr(11).unwrap().real_path, "/back/dir/b.txt");
}

#[test]
fn removal_needs_success_and_metadata() {
    let mut fs = table();
    assert_eq!(fs.handle_metadata_on_removal(Ok(11), Err(FsError::Io(13))), Err(FsError::Io(13)));
    assert!(fs.getattr(11).is_ok());
    assert_eq!(fs.handle_metadata_on_removal(Err(FsError::NotFound), Ok(())), Err(FsError::NotFound));
    assert!(fs.getattr(11).is_ok());
    assert_eq!(fs.handle_metadata_on_removal(Ok(11), Ok(())), Ok(()));
    assert_eq!(fs.getattr(11).unwrap_err(), FsError::NotFound);
}

#[test]
fn setattr_picks_the_first_given_change() {
    let fs = table();
    let (action, path) = fs.setattr_plan(11, 1000, Some(0o600), Some(1), None, Some(3), None, None).unwrap();
    assert!(matches!(action, SetattrAction::Chmod(0o600)));
    assert_eq!(path, "/back/a.txt");
    assert_eq!(action.mutation(), Some(Mutation::Chmod));
    let (action, _) = fs.setattr_plan(11, 5, None, None, Some(9), Some(3), None, None).unwrap();
    assert!(matches!(action, SetattrAction::Chown(None, Some(9))));
    let (action, _) = fs.setattr_plan(11, 5, None, None, None, Some(3), None, None).unwrap();
    assert!(matches!(action, SetattrAction::Truncate(3)));
    let (action, _) = fs.setattr_plan(11, 5, None, None, None, None, Some(99), None).unwrap();
    assert!(matches!(action, SetattrAction::SetTimes(99, 20)));
    assert_eq!(action.mutation(), Some(Mutation::Utime));
    let (action, _) = fs.setattr_plan(11, 5, None, None, None, None, None, Some(77)).unwrap();
    assert!(matches!(action, SetattrAction::SetTimes(10, 77)));
    let (action, _) = fs.setattr_plan(11, 5, None, None, None, None, None, None).unwrap();
    assert!(matches!(action, SetattrAction::Unchanged));
    assert_eq!(action.mutation(), None);
}

#[test]
fn chmod_by_a_stranger_is_refused() {
    let fs = table();
    assert!(matches!(
        fs.setattr_plan(11, 5, Some(0o777), None, None, None, None, None),
        Err(FsError::PermissionDenied)
    ));
    assert!(fs.setattr_plan(11, 0, Some(0o777), None, None, None, None, None).is_ok());
    assert!(matches!(
        fs.setattr_plan(404, 0, Some(0o777), None, None, None, None, None),
        Err(FsError::NotFound)
    ));
}

#[test]
fn open_checks_flags_then_inode_then_kind() {
    let fs = table();
    assert_eq!(fs.open_plan(11, 1), Ok(("/back/a.txt".to_string(), false, true)));
    assert_eq!(fs.open_plan(11, 0), Ok(("/back/a.txt".to_string(), true, false)));
    assert_eq!(fs.open_plan(404, 3), Err(FsError::InvalidArgument));
    assert_eq!(fs.open_plan(404, 0), Err(FsError::NotFound));
    assert_eq!(fs.open_plan(12, 0), Err(FsError::IsADirectory));
    assert_eq!(fs.opendir_plan(12, 0), Ok(("/back/dir".to_string(), true, false)));
    assert_eq!(fs.opendir_plan(11, 0), Err(FsError::NotADirectory));
}

#[test]
fn kind_checks_of_read_readdir_and_readlink() {
    let fs = table();
    assert_eq!(fs.read_plan(11), Ok("/back/a.txt".to_string()));
    assert_eq!(fs.read_plan(12), Err(FsError::IsADirectory));
    assert_eq!(fs.readdir_plan(12), Ok("/back/dir".to_string()));
    assert_eq!(fs.readdir_plan(11), Err(FsError::NotADirectory));
    assert_eq!(fs.readlink_plan(13), Ok("/back/link".to_string()));
    assert_eq!(fs.readlink_plan(11), Err(FsError::InvalidArgument));
    assert_eq!(fs.readlink_plan(404), Err(FsError::NotFound));
    assert_eq!(fs.path_of(12), Ok("/back/dir".to_string()));
}

#[test]
fn mknod_rejects_other_kinds_and_existing_names() {
    let fs = table();
    assert_eq!(fs.mknod_plan(ROOT_INO, "n", 0o100644, false), Ok("/back/n".to_string()));
    assert_eq!(fs.mknod_plan(ROOT_INO, "n", 0o010644, false), Err(FsError::Unsupported));
    assert_eq!(fs.mknod_plan(ROOT_INO, "n", 0o100644, true), Err(FsError::AlreadyExists));
    assert_eq!(fs.mknod_plan(404, "n", 0o100644, false), Err(FsError::NotFound));
}

#[test]
fn access_request_uses_the_record() {
    let fs = table();
    assert_eq!(fs.access(11, 1000, 1, 4 | 2), Ok(()));
    assert_eq!(fs.access(11, 7, 7, 2), Err(FsError::AccessDenied));
    assert_eq!(fs.access(404, 7, 7, 0), Err(FsError::NotFound));
}

#[test]
fn mutations_carry_op_codes_and_labels() {
    assert_eq!(Mutation::Rename.op_code(), 'm');
    assert_eq!(Mutation::Unlink.op_code(), 'd');
    assert_eq!(Mutation::Statfs.op_code(), 'q');
    assert_eq!(Mutation::Utime.op_code(), 't');
    assert_eq!(Mutation::OpenRead.op_code(), 'r');
    assert_eq!(Mutation::OpenWrite.op_code(), 'w');
    assert_eq!(Mutation::OpenWrite.label(), "open");
    assert_eq!(open_mutation(true), Mutation::OpenWrite);
    assert_eq!(open_mutation(false), Mutation::OpenRead);
    assert_eq!(Mutation::Truncate.label(), "truncate");
}

#[test]
fn unsupported_stat_modes_give_no_record() {
    assert!(InodeAttributes::from_stat(5, 0, 0, 0o020644, (0, 0), (0, 0), 0, 1, 0, 0, 0, "/dev/x".to_string())
        .is_none());
}

#[test]
fn directory_pages_resume_after_each_entry() {
    assert_eq!(dir_page(3, 0), vec![(0, 1), (1, 2), (2, 3)]);
    assert_eq!(dir_page(3, 2), vec![(2, 3)]);
    assert_eq!(dir_page(3, 3), vec![]);
    assert_eq!(dir_page(3, 9), vec![]);
    assert_eq!(dir_page(2, -4), vec![(0, 1), (1, 2)]);
}
