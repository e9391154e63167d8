//! The inode table of the pass-through filesystem, and the decisions that each
//! filesystem request takes over it. The caller performs the real operation on
//! the backing store and hands back what it observed; the table only ever
//! holds metadata that was read back from the backing store.
use vstd::prelude::*;
use std::collections::BTreeMap;
use crate::access::{
    access_granted, as_file_kind, check_access, decode_open_flags, kind_of_mode, open_mode_spec,
    FileKind, FsError, S_IFDIR, S_IFLNK, S_IFMT, S_IFREG, ROOT_INO,
};

verus! {

broadcast use vstd::std_specs::btree::group_btree_axioms;

/// The attributes of one inode, and the real path that backs it.
#[derive(Debug)]
pub struct InodeAttributes {
    /// The backing store's own inode number: never allocated here.
    pub ino: u64,
    pub uid: u32,
    pub gid: u32,
    pub mode: u32,
    /// Seconds and nanoseconds since the Unix epoch.
    pub atime: (i64, u32),
    pub mtime: (i64, u32),
    pub kind: FileKind,
    pub len: u64,
    pub nlinks: u64,
    pub blksize: u64,
    pub blocks: u64,
    pub rdev: u64,
    pub real_path: String,
}

impl InodeAttributes {
    /// Builds the record of a stat result; `None` where the mode's type is not
    /// one that the filesystem serves.
    pub fn from_stat(
        ino: u64,
        uid: u32,
        gid: u32,
        mode: u32,
        atime: (i64, u32),
        mtime: (i64, u32),
        len: u64,
        nlinks: u64,
        blksize: u64,
        blocks: u64,
        rdev: u64,
        real_path: String,
    ) -> (r: Option<InodeAttributes>)
        ensures
            r is None <==> kind_of_mode(mode) is None,
            r matches Some(a) ==> a == (InodeAttributes {
                ino,
                uid,
                gid,
                mode,
                atime,
                mtime,
                kind: kind_of_mode(mode)->0,
                len,
                nlinks,
                blksize,
                blocks,
                rdev,
                real_path,
            }),
    {
        match as_file_kind(mode) {
            None => None,
            Some(kind) => Some(
                InodeAttributes {
                    ino,
                    uid,
                    gid,
                    mode,
                    atime,
                    mtime,
                    kind,
                    len,
                    nlinks,
                    blksize,
                    blocks,
                    rdev,
                    real_path,
                },
            ),
        }
    }

    /// A copy of the record.
    pub fn duplicate(&self) -> (r: InodeAttributes)
        ensures
            r == *self,
    {
        InodeAttributes {
            ino: self.ino,
            uid: self.uid,
            gid: self.gid,
            mode: self.mode,
            atime: self.atime,
            mtime: self.mtime,
            kind: self.kind,
            len: self.len,
            nlinks: self.nlinks,
            blksize: self.blksize,
            blocks: self.blocks,
            rdev: self.rdev,
            real_path: self.real_path.clone(),
        }
    }
}

/// Relies on `Path::join`: the path of `name` inside the directory `base`.
pub uninterp spec fn joined_path(base: Seq<char>, name: Seq<char>) -> Seq<char>;

/// Relies on `std::path::Path::join`, read back as a `String`: the result
/// depends on the two paths alone. Both are UTF-8, so the joined path is too.
#[verifier::external_body]
fn join_path(base: &str, name: &str) -> (r: String)
    ensures
        r@ == joined_path(base@, name@),
{
    std::path::Path::new(base).join(name).to_string_lossy().into_owned()
}

/// The in-memory inode table of the filesystem, and the root of the backing tree.
pub struct TracerFS {
    root: String,
    attrs: BTreeMap<u64, InodeAttributes>,
}

/// The key under which a record is kept: the reserved root inode for the
/// backing root, the backing store's inode number for anything else.
pub open spec fn key_of(root: Seq<char>, a: InodeAttributes) -> u64 {
    if a.real_path@ == root {
        ROOT_INO
    } else {
        a.ino
    }
}

/// A request's effect on the backing store, for the trace: its op code and
/// the name that the trace line gives it.
#[derive(Clone, Copy, Debug, PartialEq, Eq, Structural)]
pub enum Mutation {
    Chmod,
    Chown,
    Truncate,
    Utime,
    Mknod,
    Mkdir,
    Unlink,
    Rmdir,
    Symlink,
    Rename,
    Link,
    OpenRead,
    OpenWrite,
    Statfs,
}

/// The op code of each traced request: `w` for writes and creations, `t` for
/// time changes, `d` for deletions, `m` for moves, `r` for reads, `q` for queries.
pub open spec fn op_code_of(m: Mutation) -> char {
    match m {
        Mutation::Chmod | Mutation::Chown | Mutation::Truncate | Mutation::Mknod | Mutation::Mkdir
        | Mutation::Symlink | Mutation::Link | Mutation::OpenWrite => 'w',
        Mutation::Utime => 't',
        Mutation::Unlink | Mutation::Rmdir => 'd',
        Mutation::Rename => 'm',
        Mutation::OpenRead => 'r',
        Mutation::Statfs => 'q',
    }
}

impl Mutation {
    pub fn op_code(&self) -> (r: char)
        ensures
            r == op_code_of(*self),
    {
        match self {
            Mutation::Chmod | Mutation::Chown | Mutation::Truncate | Mutation::Mknod
            | Mutation::Mkdir | Mutation::Symlink | Mutation::Link | Mutation::OpenWrite => 'w',
            Mutation::Utime => 't',
            Mutation::Unlink | Mutation::Rmdir => 'd',
            Mutation::Rename => 'm',
            Mutation::OpenRead => 'r',
            Mutation::Statfs => 'q',
        }
    }

    /// The name of the request in the trace line.
    pub fn label(&self) -> (r: &'static str)
        ensures
            r@ == (match *self {
                Mutation::Chmod => "chmod"@,
                Mutation::Chown => "chown"@,
                Mutation::Truncate => "truncate"@,
                Mutation::Utime => "utime"@,
                Mutation::Mknod => "mknod"@,
                Mutation::Mkdir => "mkdir"@,
                Mutation::Unlink => "unlink"@,
                Mutation::Rmdir => "rmdir"@,
                Mutation::Symlink => "symlink"@,
                Mutation::Rename => "rename"@,
                Mutation::Link => "link"@,
                Mutation::OpenRead | Mutation::OpenWrite => "open"@,
                Mutation::Statfs => "statfs"@,
            }),
    {
        match self {
            Mutation::Chmod => "chmod",
            Mutation::Chown => "chown",
            Mutation::Truncate => "truncate",
            Mutation::Utime => "utime",
            Mutation::Mknod => "mknod",
            Mutation::Mkdir => "mkdir",
            Mutation::Unlink => "unlink",
            Mutation::Rmdir => "rmdir",
            Mutation::Symlink => "symlink",
            Mutation::Rename => "rename",
            Mutation::Link => "link",
            Mutation::OpenRead | Mutation::OpenWrite => "open",
            Mutation::Statfs => "statfs",
        }
    }
}

/// The traced request of a successful open: a write where the file was opened
/// for writing, a read otherwise.
pub fn open_mutation(write: bool) -> (r: Mutation)
    ensures
        r == (if write {
            Mutation::OpenWrite
        } else {
            Mutation::OpenRead
        }),
{
    if write {
        Mutation::OpenWrite
    } else {
        Mutation::OpenRead
    }
}

/// What a `setattr` request does: the first of its attributes that is given
/// decides, in this order: mode, owner, size, access time, modify time.
#[derive(Clone, Copy, Debug, PartialEq, Eq, Structural)]
pub enum SetattrAction {
    Chmod(u32),
    Chown(Option<u32>, Option<u32>),
    Truncate(u64),
    /// New access and modify times, in seconds.
    SetTimes(i64, i64),
    /// Nothing to change: the current attributes are the reply.
    Unchanged,
}

pub open spec fn setattr_spec(
    a: InodeAttributes,
    req_uid: u32,
    mode: Option<u32>,
    uid: Option<u32>,
    gid: Option<u32>,
    size: Option<u64>,
    atime: Option<i64>,
    mtime: Option<i64>,
) -> Result<SetattrAction, FsError> {
    if mode is Some {
        if req_uid != 0 && req_uid != a.uid {
            Err(FsError::PermissionDenied)
        } else {
            Ok(SetattrAction::Chmod(mode->0))
        }
    } else if uid is Some || gid is Some {
        Ok(SetattrAction::Chown(uid, gid))
    } else if size is Some {
        Ok(SetattrAction::Truncate(size->0))
    } else if atime is Some {
        Ok(SetattrAction::SetTimes(atime->0, a.mtime.0))
    } else if mtime is Some {
        Ok(SetattrAction::SetTimes(a.atime.0, mtime->0))
    } else {
        Ok(SetattrAction::Unchanged)
    }
}

impl SetattrAction {
    /// The traced request that the action makes, if any.
    pub fn mutation(&self) -> (r: Option<Mutation>)
        ensures
            r == (match *self {
                SetattrAction::Chmod(_) => Some(Mutation::Chmod),
                SetattrAction::Chown(_, _) => Some(Mutation::Chown),
                SetattrAction::Truncate(_) => Some(Mutation::Truncate),
                SetattrAction::SetTimes(_, _) => Some(Mutation::Utime),
                SetattrAction::Unchanged => None,
            }),
    {
        match self {
            SetattrAction::Chmod(_) => Some(Mutation::Chmod),
            SetattrAction::Chown(_, _) => Some(Mutation::Chown),
            SetattrAction::Truncate(_) => Some(Mutation::Truncate),
            SetattrAction::SetTimes(_, _) => Some(Mutation::Utime),
            SetattrAction::Unchanged => None,
        }
    }
}

/// Whether a mknod mode asks for a node kind that the filesystem creates.
pub open spec fn creatable_mode(mode: u32) -> bool {
    let t = mode & S_IFMT;
    t == S_IFREG || t == S_IFLNK || t == S_IFDIR
}

impl View for TracerFS {
    type V = Map<u64, InodeAttributes>;

    closed spec fn view(&self) -> Map<u64, InodeAttributes> {
        self.attrs@
    }
}

impl TracerFS {
    /// The root of the backing tree.
    pub closed spec fn root_view(&self) -> Seq<char> {
        self.root@
    }

    pub fn root(&self) -> (r: &String)
        ensures
            r@ == self.root_view(),
    {
        &self.root
    }

    /// Every record sits under the backing store's inode number of its path,
    /// but the backing root's, which sits under the reserved root inode.
    pub closed spec fn wf(&self) -> bool {
        forall|k: u64| #[trigger]
            self@.contains_key(k) ==> k == key_of(self.root@, self@[k]) && (k == self@[k].ino
                || (k == ROOT_INO && self@[k].real_path@ == self.root@))
    }

    pub fn new(root: String) -> (r: TracerFS)
        ensures
            r.root_view() == root@,
            r@ == Map::<u64, InodeAttributes>::empty(),
            r.wf(),
    {
        TracerFS { root, attrs: BTreeMap::new() }
    }

    fn key_for(&self, a: &InodeAttributes) -> (k: u64)
        ensures
            k == key_of(self.root_view(), *a),
    {
        if a.real_path == self.root {
            ROOT_INO
        } else {
            a.ino
        }
    }

    /// Puts a record read from the backing store in the table, under its key.
    pub fn insert(&mut self, a: InodeAttributes)
        requires
            old(self).wf(),
        ensures
            final(self).wf(),
            final(self).root_view() == old(self).root_view(),
            final(self)@ == old(self)@.insert(key_of(old(self).root_view(), a), a),
    {
        let k = self.key_for(&a);
        self.attrs.insert(k, a);
        proof {
            assert forall|j: u64| #[trigger] self@.contains_key(j) implies j == key_of(
                self.root@,
                self@[j],
            ) && (j == self@[j].ino || (j == ROOT_INO && self@[j].real_path@ == self.root@)) by {
                if j != k {
                    assert(old(self)@.contains_key(j));
                }
            }
        }
    }

    /// The record of an inode, if the table holds one.
    pub fn get(&self, ino: u64) -> (r: Option<&InodeAttributes>)
        ensures
            r matches Some(a) ==> self@.contains_key(ino) && self@[ino] == *a,
            r is None ==> !self@.contains_key(ino),
    {
        self.attrs.get(&ino)
    }

    /// Takes an inode's record out of the table.
    pub fn remove(&mut self, ino: u64)
        requires
            old(self).wf(),
        ensures
            final(self).wf(),
            final(self).root_view() == old(self).root_view(),
            final(self)@ == old(self)@.remove(ino),
    {
        self.attrs.remove(&ino);
        proof {
            assert forall|j: u64| #[trigger] self@.contains_key(j) implies j == key_of(
                self.root@,
                self@[j],
            ) && (j == self@[j].ino || (j == ROOT_INO && self@[j].real_path@ == self.root@)) by {
                assert(old(self)@.contains_key(j));
            }
        }
    }

    /// The record of an inode, or `NotFound`.
    pub fn getattr(&self, ino: u64) -> (r: Result<InodeAttributes, FsError>)
        ensures
            r matches Ok(a) ==> self@.contains_key(ino) && self@[ino] == a,
            r is Err ==> !self@.contains_key(ino) && r == Err::<InodeAttributes, FsError>(
                FsError::NotFound,
            ),
    {
        match self.attrs.get(&ino) {
            Some(a) => Ok(a.duplicate()),
            None => Err(FsError::NotFound),
        }
    }

    /// The backing path of `name` inside the directory `parent`.
    pub fn get_path(&self, parent: u64, name: &str) -> (r: Result<String, FsError>)
        ensures
            r matches Ok(p) ==> self@.contains_key(parent) && p@ == joined_path(
                self@[parent].real_path@,
                name@,
            ),
            r is Err ==> !self@.contains_key(parent) && r == Err::<String, FsError>(
                FsError::NotFound,
            ),
    {
        match self.attrs.get(&parent) {
            Some(a) => Ok(join_path(a.real_path.as_str(), name)),
            None => Err(FsError::NotFound),
        }
    }

    /// Settles a request that changed the backing store, given the outcome of
    /// the change followed by a fresh stat of the path it touched: on success
    /// the fresh record goes in the table and is the reply; on failure the
    /// table is left as it was.
    pub fn handle_metadata_on_change(&mut self, outcome: Result<InodeAttributes, FsError>) -> (r:
        Result<InodeAttributes, FsError>)
        requires
            old(self).wf(),
        ensures
            final(self).wf(),
            final(self).root_view() == old(self).root_view(),
            outcome matches Ok(a) ==> r == outcome && final(self)@ == old(self)@.insert(
                key_of(old(self).root_view(), a),
                a,
            ),
            outcome is Err ==> r == outcome && final(self)@ == old(self)@,
    {
        match outcome {
            Ok(a) => {
                let reply = a.duplicate();
                self.insert(a);
                Ok(reply)
            },
            Err(e) => Err(e),
        }
    }

    /// Settles a removal, given the inode number that a stat read before the
    /// removal, and the outcome of the removal: only a confirmed removal of a
    /// known inode takes its record out.
    pub fn handle_metadata_on_removal(
        &mut self,
        metadata: Result<u64, FsError>,
        result: Result<(), FsError>,
    ) -> (r: Result<(), FsError>)
        requires
            old(self).wf(),
        ensures
            final(self).wf(),
            final(self).root_view() == old(self).root_view(),
            result matches Err(e) ==> r == Err::<(), FsError>(e) && final(self)@ == old(self)@,
            result is Ok ==> match metadata {
                Ok(ino) => r is Ok && final(self)@ == old(self)@.remove(ino),
                Err(e) => r == Err::<(), FsError>(e) && final(self)@ == old(self)@,
            },
    {
        match result {
            Err(e) => Err(e),
            Ok(()) => match metadata {
                Ok(ino) => {
                    self.remove(ino);
                    Ok(())
                },
                Err(e) => Err(e),
            },
        }
    }

    /// Decides a `setattr` request: which change it makes to which path. A
    /// mode change by anyone but root or the owner is refused before any change.
    pub fn setattr_plan(
        &self,
        ino: u64,
        req_uid: u32,
        mode: Option<u32>,
        uid: Option<u32>,
        gid: Option<u32>,
        size: Option<u64>,
        atime: Option<i64>,
        mtime: Option<i64>,
    ) -> (r: Result<(SetattrAction, String), FsError>)
        ensures
            !self@.contains_key(ino) ==> r == Err::<(SetattrAction, String), FsError>(
                FsError::NotFound,
            ),
            self@.contains_key(ino) ==> match setattr_spec(
                self@[ino],
                req_uid,
                mode,
                uid,
                gid,
                size,
                atime,
                mtime,
            ) {
                Ok(action) => (r matches Ok(p) && p.0 == action && p.1 == self@[ino].real_path),
                Err(e) => r == Err::<(SetattrAction, String), FsError>(e),
            },
    {
        let a = match self.attrs.get(&ino) {
            Some(a) => a,
            None => return Err(FsError::NotFound),
        };
        let action = if let Some(m) = mode {
            if req_uid != 0 && req_uid != a.uid {
                return Err(FsError::PermissionDenied);
            }
            SetattrAction::Chmod(m)
        } else if uid.is_some() || gid.is_some() {
            SetattrAction::Chown(uid, gid)
        } else if let Some(s) = size {
            SetattrAction::Truncate(s)
        } else if let Some(t) = atime {
            SetattrAction::SetTimes(t, a.mtime.0)
        } else if let Some(t) = mtime {
            SetattrAction::SetTimes(a.atime.0, t)
        } else {
            SetattrAction::Unchanged
        };
        Ok((action, a.real_path.clone()))
    }

    /// The record of an inode of the given kind: `NotFound` for an unknown
    /// inode, `wrong` for another kind.
    fn of_kind(&self, ino: u64, kind: FileKind, wrong: FsError) -> (r: Result<&InodeAttributes, FsError>)
        ensures
            !self@.contains_key(ino) ==> r == Err::<&InodeAttributes, FsError>(FsError::NotFound),
            self@.contains_key(ino) && self@[ino].kind != kind ==> r == Err::<
                &InodeAttributes,
                FsError,
            >(wrong),
            self@.contains_key(ino) && self@[ino].kind == kind ==> (r matches Ok(a) && *a
                == self@[ino]),
    {
        match self.attrs.get(&ino) {
            None => Err(FsError::NotFound),
            Some(a) => {
                if a.kind == kind {
                    Ok(a)
                } else {
                    Err(wrong)
                }
            },
        }
    }

    /// Decides an `open`: the flags must name exactly one access mode, and the
    /// inode must be a known regular file. Gives the path and how to open it.
    pub fn open_plan(&self, ino: u64, flags: i32) -> (r: Result<(String, bool, bool), FsError>)
        ensures
            open_mode_spec(flags) matches Err(e) ==> r == Err::<(String, bool, bool), FsError>(e),
            open_mode_spec(flags) matches Ok(m) ==> {
                &&& !self@.contains_key(ino) ==> r == Err::<(String, bool, bool), FsError>(
                    FsError::NotFound,
                )
                &&& self@.contains_key(ino) && self@[ino].kind != FileKind::File ==> r == Err::<
                    (String, bool, bool),
                    FsError,
                >(FsError::IsADirectory)
                &&& self@.contains_key(ino) && self@[ino].kind == FileKind::File ==> r == Ok::<
                    (String, bool, bool),
                    FsError,
                >((self@[ino].real_path, m.read, m.write))
            },
    {
        let m = decode_open_flags(flags)?;
        let a = self.of_kind(ino, FileKind::File, FsError::IsADirectory)?;
        Ok((a.real_path.clone(), m.read, m.write))
    }

    /// Decides an `opendir`: as `open`, for a known directory.
    pub fn opendir_plan(&self, ino: u64, flags: i32) -> (r: Result<(String, bool, bool), FsError>)
        ensures
            open_mode_spec(flags) matches Err(e) ==> r == Err::<(String, bool, bool), FsError>(e),
            open_mode_spec(flags) matches Ok(m) ==> {
                &&& !self@.contains_key(ino) ==> r == Err::<(String, bool, bool), FsError>(
                    FsError::NotFound,
                )
                &&& self@.contains_key(ino) && self@[ino].kind != FileKind::Directory ==> r
                    == Err::<(String, bool, bool), FsError>(FsError::NotADirectory)
                &&& self@.contains_key(ino) && self@[ino].kind == FileKind::Directory ==> r == Ok::<
                    (String, bool, bool),
                    FsError,
                >((self@[ino].real_path, m.read, m.write))
            },
    {
        let m = decode_open_flags(flags)?;
        let a = self.of_kind(ino, FileKind::Directory, FsError::NotADirectory)?;
        Ok((a.real_path.clone(), m.read, m.write))
    }

    /// The path to read from: the inode must be a known regular file.
    pub fn read_plan(&self, ino: u64) -> (r: Result<String, FsError>)
        ensures
            !self@.contains_key(ino) ==> r == Err::<String, FsError>(FsError::NotFound),
            self@.contains_key(ino) && self@[ino].kind != FileKind::File ==> r == Err::<
                String,
                FsError,
            >(FsError::IsADirectory),
            self@.contains_key(ino) && self@[ino].kind == FileKind::File ==> r == Ok::<
                String,
                FsError,
            >(self@[ino].real_path),
    {
        let a = self.of_kind(ino, FileKind::File, FsError::IsADirectory)?;
        Ok(a.real_path.clone())
    }

    /// The directory to list: the inode must be a known directory.
    pub fn readdir_plan(&self, ino: u64) -> (r: Result<String, FsError>)
        ensures
            !self@.contains_key(ino) ==> r == Err::<String, FsError>(FsError::NotFound),
            self@.contains_key(ino) && self@[ino].kind != FileKind::Directory ==> r == Err::<
                String,
                FsError,
            >(FsError::NotADirectory),
            self@.contains_key(ino) && self@[ino].kind == FileKind::Directory ==> r == Ok::<
                String,
                FsError,
            >(self@[ino].real_path),
    {
        let a = self.of_kind(ino, FileKind::Directory, FsError::NotADirectory)?;
        Ok(a.real_path.clone())
    }

    /// The link to read: the inode must be a known symlink.
    pub fn readlink_plan(&self, ino: u64) -> (r: Result<String, FsError>)
        ensures
            !self@.contains_key(ino) ==> r == Err::<String, FsError>(FsError::NotFound),
            self@.contains_key(ino) && self@[ino].kind != FileKind::Symlink ==> r == Err::<
                String,
                FsError,
            >(FsError::InvalidArgument),
            self@.contains_key(ino) && self@[ino].kind == FileKind::Symlink ==> r == Ok::<
                String,
                FsError,
            >(self@[ino].real_path),
    {
        let a = self.of_kind(ino, FileKind::Symlink, FsError::InvalidArgument)?;
        Ok(a.real_path.clone())
    }

    /// The backing path of a known inode, or `NotFound`.
    pub fn path_of(&self, ino: u64) -> (r: Result<String, FsError>)
        ensures
            !self@.contains_key(ino) ==> r == Err::<String, FsError>(FsError::NotFound),
            self@.contains_key(ino) ==> r == Ok::<String, FsError>(self@[ino].real_path),
    {
        match self.attrs.get(&ino) {
            Some(a) => Ok(a.real_path.clone()),
            None => Err(FsError::NotFound),
        }
    }

    /// Decides a `mknod`: the parent must be known, the node kind one that is
    /// created, and the name must not resolve yet (`name_exists` is what a
    /// stat of the path found). Gives the path to create.
    pub fn mknod_plan(&self, parent: u64, name: &str, mode: u32, name_exists: bool) -> (r: Result<
        String,
        FsError,
    >)
        ensures
            !self@.contains_key(parent) ==> r == Err::<String, FsError>(FsError::NotFound),
            self@.contains_key(parent) && !creatable_mode(mode) ==> r == Err::<String, FsError>(
                FsError::Unsupported,
            ),
            self@.contains_key(parent) && creatable_mode(mode) && name_exists ==> r == Err::<
                String,
                FsError,
            >(FsError::AlreadyExists),
            self@.contains_key(parent) && creatable_mode(mode) && !name_exists ==> (r matches Ok(p)
                && p@ == joined_path(self@[parent].real_path@, name@)),
    {
        let path = self.get_path(parent, name)?;
        let t = mode & S_IFMT;
        if t != S_IFREG && t != S_IFLNK && t != S_IFDIR {
            return Err(FsError::Unsupported);
        }
        if name_exists {
            return Err(FsError::AlreadyExists);
        }
        Ok(path)
    }

    /// Decides an `access` request from the inode's owner, group and mode.
    pub fn access(&self, ino: u64, req_uid: u32, req_gid: u32, mask: i32) -> (r: Result<(), FsError>)
        ensures
            !self@.contains_key(ino) ==> r == Err::<(), FsError>(FsError::NotFound),
            self@.contains_key(ino) ==> (r is Ok <==> access_granted(
                self@[ino].uid,
                self@[ino].gid,
                self@[ino].mode,
                req_uid,
                req_gid,
                mask,
            )),
            self@.contains_key(ino) && r is Err ==> r == Err::<(), FsError>(FsError::AccessDenied),
    {
        match self.attrs.get(&ino) {
            None => Err(FsError::NotFound),
            Some(a) => {
                if check_access(a.uid, a.gid, a.mode, req_uid, req_gid, mask) {
                    Ok(())
                } else {
                    Err(FsError::AccessDenied)
                }
            },
        }
    }
}

/// Where a directory reply that resumes at `offset` starts in a listing of `n`
/// entries.
pub open spec fn page_start(n: nat, offset: int) -> nat {
    if offset < 0 {
        0
    } else if offset > n {
        n
    } else {
        offset as nat
    }
}

/// The entries that a directory reply resuming at `offset` holds, from a
/// listing of `n` entries: each position from the resumption point on, with
/// the offset at which a later reply resumes after it.
pub fn dir_page(n: usize, offset: i64) -> (r: Vec<(usize, i64)>)
    requires
        n < i64::MAX,
    ensures
        r@.len() == n - page_start(n as nat, offset as int),
        forall|k: int|
            0 <= k < r@.len() ==> #[trigger] r@[k] == (
                (page_start(n as nat, offset as int) + k) as usize,
                (page_start(n as nat, offset as int) + k + 1) as i64,
            ),
{
    let start: usize = if offset < 0 {
        0
    } else if offset as u64 > n as u64 {
        n
    } else {
        offset as usize
    };
    let mut r: Vec<(usize, i64)> = Vec::new();
    let mut i = start;
    while i < n
        invariant
            start == page_start(n as nat, offset as int),
            start <= i <= n < i64::MAX,
            r@.len() == i - start,
            forall|k: int|
                0 <= k < r@.len() ==> #[trigger] r@[k] == ((start + k) as usize, (start + k + 1) as i64),
        decreases n - i,
    {
        r.push((i, (i + 1) as i64));
        i = i + 1;
    }
    r
}

/// Every record of a well-formed table carries the inode number it is kept
/// under, which is the backing store's own; only the backing root's record
/// sits under the reserved root inode instead.
pub proof fn lemma_record_ids(fs: TracerFS, k: u64)
    requires
        fs.wf(),
        fs@.contains_key(k),
    ensures
        fs@[k].ino == k || (k == ROOT_INO && fs@[k].real_path@ == fs.root_view()),
        k == key_of(fs.root_view(), fs@[k]),
{
}

/// After a rename, settling it with the fresh stat of the new path leaves the
/// moved inode's record under the same inode number, backed by the new path.
pub proof fn lemma_rename_moves_record(fs: TracerFS, fs2: TracerFS, a: InodeAttributes, ino: u64)
    requires
        fs.wf(),
        a.ino == ino,
        a.real_path@ != fs.root_view(),
        fs2.root_view() == fs.root_view(),
        fs2@ == fs@.insert(key_of(fs.root_view(), a), a),
    ensures
        fs2@.contains_key(ino),
        fs2@[ino].ino == ino,
        fs2@[ino].real_path == a.real_path,
{
}

} // verus!
