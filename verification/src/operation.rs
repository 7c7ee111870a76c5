//! What the kernel asks, and what it is answered.

use vstd::prelude::*;

use crate::clock::Timespec;
use crate::file::{FileAttr, FileType};
use crate::github_api::{Blob, Tree};

verus! {

/// A request of the kernel, and who is behind it.
#[derive(Debug, PartialEq, Eq)]
pub struct Message {
    pub unique: u64,
    pub uid: u32,
    pub gid: u32,
    pub pid: u32,
    pub operation: Operation,
}

impl Message {
    /// The request `operation` of the process `pid`, which runs for the user `uid` and the group
    /// `gid`.
    pub fn new(unique: u64, uid: u32, gid: u32, pid: u32, operation: Operation) -> (message: Message)
        ensures
            message == (Message { unique, uid, gid, pid, operation }),
    {
        Message { unique, uid, gid, pid, operation }
    }
}

/// What the kernel asks for.
#[derive(Debug, PartialEq, Eq)]
pub enum Operation {
    Lookup { parent: u64, name: Vec<u8> },
    Forget { ino: u64, nlookup: u64 },
    Getattr { ino: u64 },
    Setattr { ino: u64, change: AttrChange },
    Readlink { ino: u64 },
    Mknod { parent: u64, name: Vec<u8>, mode: u32, rdev: u32 },
    Mkdir { parent: u64, name: Vec<u8>, mode: u32 },
    Unlink { parent: u64, name: Vec<u8> },
    Rmdir { parent: u64, name: Vec<u8> },
    Symlink { parent: u64, name: Vec<u8>, link: Vec<u8> },
    Rename { parent: u64, name: Vec<u8>, newparent: u64, newname: Vec<u8> },
    Link { ino: u64, newparent: u64, newname: Vec<u8> },
    Open { ino: u64, flags: u32 },
    Read { ino: u64, fh: u64, offset: i64, size: u32 },
    Write { ino: u64, fh: u64, offset: i64, data: Vec<u8>, flags: u32 },
    Flush { ino: u64, fh: u64, lock_owner: u64 },
    Release { ino: u64, fh: u64, flags: u32, lock_owner: u64, flush: bool },
    Fsync { ino: u64, fh: u64, datasync: bool },
    Opendir { ino: u64, flags: u32 },
    Readdir { ino: u64, fh: u64, offset: i64 },
    Releasedir { ino: u64, fh: u64, flags: u32 },
    Fsyncdir { ino: u64, fh: u64, datasync: bool },
    Statfs { ino: u64 },
    Setxattr { ino: u64, name: Vec<u8>, value: Vec<u8>, flags: u32, position: u32 },
    Getxattr { ino: u64, name: Vec<u8>, size: u32 },
    Listxattr { ino: u64, size: u32 },
    Removexattr { ino: u64, name: Vec<u8> },
    Access { ino: u64, mask: u32 },
    Create { parent: u64, name: Vec<u8>, mode: u32, flags: u32 },
    Getlk { ino: u64, fh: u64, lock_owner: u64, start: u64, end: u64, typ: u32, pid: u32 },
    Setlk {
        ino: u64,
        fh: u64,
        lock_owner: u64,
        start: u64,
        end: u64,
        typ: u32,
        pid: u32,
        sleep: bool,
    },
    Bmap { ino: u64, blocksize: u32, idx: u64 },
}

/// Which attributes of a file to change, and to what.
#[derive(Debug, Clone, Copy, PartialEq, Eq)]
pub struct AttrChange {
    pub mode: Option<u32>,
    pub uid: Option<u32>,
    pub gid: Option<u32>,
    pub size: Option<u64>,
    pub atime: Option<Timespec>,
    pub mtime: Option<Timespec>,
    pub fh: Option<u64>,
    pub crtime: Option<Timespec>,
    pub chgtime: Option<Timespec>,
    pub bkuptime: Option<Timespec>,
    pub flags: Option<u32>,
}

/// Why the kernel is refused what it asked for.
#[derive(Debug, Clone, Copy, PartialEq, Eq, Structural)]
pub enum Errno {
    ENOENT,
    ENOSYS,
}

/// An entry of a directory, and where a later listing goes on after it.
#[derive(Debug, PartialEq, Eq)]
pub struct DirectoryEntry {
    pub ino: u64,
    pub next: u64,
    pub kind: FileType,
    pub name: Vec<u8>,
}

/// The view of `DirectoryEntry`.
#[verifier::ext_equal]
pub struct EntryView {
    pub ino: u64,
    pub next: int,
    pub kind: FileType,
    pub name: Seq<u8>,
}

impl View for DirectoryEntry {
    type V = EntryView;

    open spec fn view(&self) -> EntryView {
        EntryView { ino: self.ino, next: self.next as int, kind: self.kind, name: self.name@ }
    }
}

/// What the kernel is answered.  A `ttl` says how long it may rely on what it is told.
#[derive(Debug, PartialEq, Eq)]
pub enum Reply {
    /// The request needs no answer.
    Nothing,
    Error(Errno),
    /// The request was carried out.
    Done,
    Entry { ttl: Timespec, attr: FileAttr, generation: u64 },
    Attr { ttl: Timespec, attr: FileAttr },
    Opened { fh: u64, flags: u32 },
    Created { ttl: Timespec, attr: FileAttr, generation: u64, fh: u64, flags: u32 },
    Data(Vec<u8>),
    Written(u32),
    Directory(Vec<DirectoryEntry>),
    Statfs {
        blocks: u64,
        bfree: u64,
        bavail: u64,
        files: u64,
        ffree: u64,
        bsize: u32,
        namelen: u32,
        frsize: u32,
    },
}

/// What to do with the entries of a directory once they are known.
#[derive(Debug, PartialEq, Eq)]
pub enum DirectoryUse {
    Lookup { parent: u64, name: Vec<u8> },
    Readdir { ino: u64, offset: i64 },
}

impl DirectoryUse {
    /// The directory whose entries are needed.
    pub open spec fn directory(self) -> u64 {
        match self {
            DirectoryUse::Lookup { parent, name: _ } => parent,
            DirectoryUse::Readdir { ino, offset: _ } => ino,
        }
    }
}

/// What to do with the content of a file once it is at hand.
#[derive(Debug, PartialEq, Eq)]
pub enum ContentUse {
    Read { offset: i64, size: u32 },
    Write { ino: u64, offset: i64, data: Vec<u8> },
    Setattr { ino: u64, change: AttrChange },
}

/// How far a request has come.
#[allow(inconsistent_fields)]
#[derive(Debug, PartialEq, Eq)]
pub enum Step {
    /// The request is over.
    Finished(Reply),
    /// An empty content is to be kept under `key`; then the request is over.
    StoreEmpty { key: u128, reply: Reply },
    /// The entries of the directory `ino`, which are on their way, are to be waited for.
    AwaitDirectory { ino: u64, then: DirectoryUse },
    /// The content of the file `ino`, which is on its way, is to be waited for and to be kept under
    /// `key`; then it is to be used.
    AwaitFile { ino: u64, key: u128, then: ContentUse },
    /// The content that is kept under `key` is to be used.
    UseContent { key: u128, then: ContentUse },
}

/// A transfer from GitHub that is to be started: for which file or directory, and of what.
#[derive(Debug, PartialEq, Eq)]
pub enum Fetch {
    File { ino: u64, blob: Blob },
    Directory { ino: u64, tree: Tree },
}

/// Why a request could not be answered.
#[derive(Debug, Clone, Copy, PartialEq, Eq, Structural)]
pub enum HandlerError {
    /// There is no such directory.
    NoSuchDirectory,
}

} // verus!
