//! The pure decisions of the interception layer: permission checks, open-flag
//! decoding, file kinds from mode bits, and read clamping.
use vstd::prelude::*;

verus! {

/// Access-check bits, as POSIX numbers them.
pub const F_OK: i32 = 0;
pub const X_OK: i32 = 1;
pub const W_OK: i32 = 2;
pub const R_OK: i32 = 4;

/// Open flags, with Linux's values.
pub const O_ACCMODE: i32 = 3;
pub const O_RDONLY: i32 = 0;
pub const O_WRONLY: i32 = 1;
pub const O_RDWR: i32 = 2;
pub const O_TRUNC: i32 = 0o1000;
/// Set by the kernel on the open that an `exec` makes.
pub const FMODE_EXEC: i32 = 0x20;

/// File-type bits of a mode, with Linux's values.
pub const S_IFMT: u32 = 0o170000;
pub const S_IFREG: u32 = 0o100000;
pub const S_IFLNK: u32 = 0o120000;
pub const S_IFDIR: u32 = 0o040000;

/// The inode number that the kernel gives the root of a mount.
pub const ROOT_INO: u64 = 1;

#[derive(Clone, Copy, Debug, PartialEq, Eq, Structural)]
pub enum FileKind {
    File,
    Directory,
    Symlink,
}

/// The failures of a filesystem request, each answered with one POSIX error code.
#[derive(Clone, Copy, Debug, PartialEq, Eq, Structural)]
pub enum FsError {
    /// Unknown inode or missing path (`ENOENT`).
    NotFound,
    /// An ownership or root check failed (`EPERM`).
    PermissionDenied,
    /// The permission bits do not allow the access (`EACCES`).
    AccessDenied,
    /// A bad flag combination or a request on the wrong kind of file (`EINVAL`).
    InvalidArgument,
    /// A file request on a directory (`EISDIR`).
    IsADirectory,
    /// A directory request on something else (`ENOTDIR`).
    NotADirectory,
    /// A node kind that is not implemented (`ENOSYS`).
    Unsupported,
    /// The name already resolves (`EEXIST`).
    AlreadyExists,
    /// Any other failure of the backing store, with its error number.
    Io(i32),
}

/// The 3-bit permission window that applies to a requester: the owner's bits
/// when it owns the file, else the group's when it is in the file's group,
/// else the others'.
pub open spec fn permission_window(file_uid: u32, file_gid: u32, file_mode: u32, uid: u32, gid: u32) -> u32 {
    if uid == file_uid {
        (file_mode >> 6u32) & 7u32
    } else if gid == file_gid {
        (file_mode >> 3u32) & 7u32
    } else {
        file_mode & 7u32
    }
}

/// Whether the access bits `mask` are granted. An existence check always is;
/// root gets every bit but execute, which needs an execute bit somewhere in
/// the mode; anyone else gets the bits of the window that applies to it.
pub open spec fn access_granted(
    file_uid: u32,
    file_gid: u32,
    file_mode: u32,
    uid: u32,
    gid: u32,
    mask: i32,
) -> bool {
    if mask == F_OK {
        true
    } else if uid == 0 {
        mask & X_OK == 0 || file_mode & 0o111u32 != 0
    } else {
        mask >= 0 && (mask as u32) & !permission_window(file_uid, file_gid, file_mode, uid, gid) == 0
    }
}

/// Checks the access bits `mask` of a requester against a file's owner, group and mode.
pub fn check_access(file_uid: u32, file_gid: u32, file_mode: u32, uid: u32, gid: u32, access_mask: i32) -> (r:
    bool)
    ensures
        r == access_granted(file_uid, file_gid, file_mode, uid, gid, access_mask),
{
    if access_mask == F_OK {
        return true;
    }
    if uid == 0 {
        return access_mask & X_OK == 0 || file_mode & 0o111u32 != 0;
    }
    let window = if uid == file_uid {
        (file_mode >> 6u32) & 7u32
    } else if gid == file_gid {
        (file_mode >> 3u32) & 7u32
    } else {
        file_mode & 7u32
    };
    access_mask >= 0 && (access_mask as u32) & !window == 0
}

/// What an open's flags ask for: the access bits to check, and whether the
/// file is read and written.
#[derive(Clone, Copy, Debug, PartialEq, Eq, Structural)]
pub struct OpenMode {
    pub access_mask: i32,
    pub read: bool,
    pub write: bool,
}

/// The decoding of open flags: exactly one access mode must be given; a
/// read-only open may not truncate; an open for `exec` checks the execute bit.
pub open spec fn open_mode_spec(flags: i32) -> Result<OpenMode, FsError> {
    let acc = flags & O_ACCMODE;
    if acc == O_RDONLY {
        if flags & O_TRUNC != 0 {
            Err(FsError::AccessDenied)
        } else if flags & FMODE_EXEC != 0 {
            Ok(OpenMode { access_mask: X_OK, read: true, write: false })
        } else {
            Ok(OpenMode { access_mask: R_OK, read: true, write: false })
        }
    } else if acc == O_WRONLY {
        Ok(OpenMode { access_mask: W_OK, read: false, write: true })
    } else if acc == O_RDWR {
        Ok(OpenMode { access_mask: R_OK | W_OK, read: true, write: true })
    } else {
        Err(FsError::InvalidArgument)
    }
}

/// Decodes the access-mode part of open flags.
pub fn decode_open_flags(flags: i32) -> (r: Result<OpenMode, FsError>)
    ensures
        r == open_mode_spec(flags),
{
    let acc = flags & O_ACCMODE;
    if acc == O_RDONLY {
        if flags & O_TRUNC != 0 {
            Err(FsError::AccessDenied)
        } else if flags & FMODE_EXEC != 0 {
            Ok(OpenMode { access_mask: X_OK, read: true, write: false })
        } else {
            Ok(OpenMode { access_mask: R_OK, read: true, write: false })
        }
    } else if acc == O_WRONLY {
        Ok(OpenMode { access_mask: W_OK, read: false, write: true })
    } else if acc == O_RDWR {
        Ok(OpenMode { access_mask: R_OK | W_OK, read: true, write: true })
    } else {
        Err(FsError::InvalidArgument)
    }
}

/// The kind of file that a mode's type bits give, where it is one that the
/// filesystem serves.
pub open spec fn kind_of_mode(mode: u32) -> Option<FileKind> {
    let t = mode & S_IFMT;
    if t == S_IFREG {
        Some(FileKind::File)
    } else if t == S_IFLNK {
        Some(FileKind::Symlink)
    } else if t == S_IFDIR {
        Some(FileKind::Directory)
    } else {
        None
    }
}

/// The file kind of a mode: regular file, symlink or directory; `None` for any other.
pub fn as_file_kind(mode: u32) -> (r: Option<FileKind>)
    ensures
        r == kind_of_mode(mode),
{
    let t = mode & S_IFMT;
    if t == S_IFREG {
        Some(FileKind::File)
    } else if t == S_IFLNK {
        Some(FileKind::Symlink)
    } else if t == S_IFDIR {
        Some(FileKind::Directory)
    } else {
        None
    }
}

/// How many bytes a read of `size` bytes at `offset` returns from a file of
/// `file_size` bytes: what remains after the offset, at most `size`.
pub open spec fn read_len(size: u32, file_size: u64, offset: i64) -> u32 {
    if offset < 0 || offset >= file_size {
        0
    } else if file_size - offset < size {
        (file_size - offset) as u32
    } else {
        size
    }
}

/// Clamps a read to the end of the file; a read near or past the end is short, not an error.
pub fn read_size(size: u32, file_size: u64, offset: i64) -> (r: u32)
    ensures
        r == read_len(size, file_size, offset),
        r <= size,
{
    if offset < 0 || offset as u64 >= file_size {
        0
    } else if file_size - (offset as u64) < size as u64 {
        (file_size - (offset as u64)) as u32
    } else {
        size
    }
}

/// What a write leaves readable: once `n` bytes are written at `offset`, the
/// file holds at least `offset + n` bytes, and a read of `n` bytes there
/// returns all of them.
pub proof fn lemma_read_after_write_is_whole(n: u32, offset: i64, file_size: u64)
    requires
        offset >= 0,
        file_size >= offset + n,
    ensures
        read_len(n, file_size, offset) == n,
{
}

} // verus!
