//! Files and their attributes.

use vstd::prelude::*;

use crate::clock::Timespec;

verus! {

/// The kinds of files that the kernel knows.
#[derive(Debug, Clone, Copy, PartialEq, Eq, Structural)]
pub enum FileType {
    NamedPipe,
    CharDevice,
    BlockDevice,
    Directory,
    RegularFile,
    Symlink,
    Socket,
}

/// The attributes of a file, as they are told to the kernel.
#[derive(Debug, Clone, Copy, PartialEq, Eq, Structural)]
pub struct FileAttr {
    pub ino: u64,
    pub size: u64,
    pub blocks: u64,
    pub atime: Timespec,
    pub mtime: Timespec,
    pub ctime: Timespec,
    pub crtime: Timespec,
    pub kind: FileType,
    pub perm: u16,
    pub nlink: u32,
    pub uid: u32,
    pub gid: u32,
    pub rdev: u32,
    pub flags: u32,
}

/// The attributes of a file, as they are kept.
#[derive(Debug, Clone, Copy, PartialEq, Eq, Structural)]
pub struct EditableFileAttr {
    /// Inode number
    pub ino: u64,
    /// Size in bytes
    pub size: u64,
    /// Size in blocks
    pub blocks: u64,
    /// Time of last access
    pub atime: Timespec,
    /// Time of last modification
    pub mtime: Timespec,
    /// Time of last change
    pub ctime: Timespec,
    /// Time of creation (macOS only)
    pub crtime: Timespec,
    /// Kind of file (directory, file, pipe, etc)
    pub kind: FileType,
    /// Permissions
    pub perm: u16,
    /// Number of hard links
    pub nlink: u32,
    /// User id
    pub uid: u32,
    /// Group id
    pub gid: u32,
    /// Rdev
    pub rdev: u32,
    /// Flags (macOS only, see chflags(2))
    pub flags: u32,
}

impl EditableFileAttr {
    /// The attributes of a file that was made at `time`.
    pub open spec fn made_at(
        ino: u64,
        size: u64,
        kind: FileType,
        perm: u16,
        uid: u32,
        gid: u32,
        time: Timespec,
    ) -> EditableFileAttr {
        EditableFileAttr {
            ino,
            size,
            blocks: 0,
            atime: time,
            mtime: time,
            ctime: time,
            crtime: time,
            kind,
            perm,
            nlink: 0,
            uid,
            gid,
            rdev: 0,
            flags: 0,
        }
    }

    /// The attributes as they are told to the kernel.
    pub open spec fn told(self) -> FileAttr {
        FileAttr {
            ino: self.ino,
            size: self.size,
            blocks: self.blocks,
            atime: self.atime,
            mtime: self.mtime,
            ctime: self.ctime,
            crtime: self.crtime,
            kind: self.kind,
            perm: self.perm,
            nlink: self.nlink,
            uid: self.uid,
            gid: self.gid,
            rdev: self.rdev,
            flags: self.flags,
        }
    }

    /// Notes an access.
    pub fn update_atime(&mut self, time: Timespec)
        ensures
            *final(self) == (EditableFileAttr { atime: time, ..*old(self) }),
    {
        self.atime = time;
    }

    /// Notes a modification.
    pub fn update_mtime(&mut self, time: Timespec)
        ensures
            *final(self) == (EditableFileAttr { mtime: time, ..*old(self) }),
    {
        self.mtime = time;
    }

    /// Notes a change.
    pub fn update_ctime(&mut self, time: Timespec)
        ensures
            *final(self) == (EditableFileAttr { ctime: time, ..*old(self) }),
    {
        self.ctime = time;
    }
}

/// Where the content of a file is.
#[derive(Debug)]
pub enum GitHubFileData {
    /// In the content cache, under this key.
    Raw(u128),
    /// On its way from this address.
    FetchingGitHubFile(String),
    /// The entries of this directory are on their way from this address.
    FetchingGitHubDirectory(String),
    /// There is none, as for a directory whose entries are known.
    Nothing,
}

/// The view of `GitHubFileData`.
pub enum DataView {
    Raw(u128),
    FetchingGitHubFile(Seq<char>),
    FetchingGitHubDirectory(Seq<char>),
    Nothing,
}

impl View for GitHubFileData {
    type V = DataView;

    open spec fn view(&self) -> DataView {
        match *self {
            GitHubFileData::Raw(key) => DataView::Raw(key),
            GitHubFileData::FetchingGitHubFile(url) => DataView::FetchingGitHubFile(url@),
            GitHubFileData::FetchingGitHubDirectory(url) => DataView::FetchingGitHubDirectory(url@),
            GitHubFileData::Nothing => DataView::Nothing,
        }
    }
}

/// A file or a directory.
#[derive(Debug)]
pub struct FileData {
    pub parent: u64,
    pub attr: EditableFileAttr,
    pub name: Vec<u8>,
    pub data: GitHubFileData,
    pub lookup_count: usize,
    pub removed: bool,
}

/// The view of `FileData`.
#[verifier::ext_equal]
pub struct FileView {
    pub parent: u64,
    pub attr: EditableFileAttr,
    pub name: Seq<u8>,
    pub data: DataView,
    pub lookup_count: usize,
    pub removed: bool,
}

impl View for FileData {
    type V = FileView;

    open spec fn view(&self) -> FileView {
        FileView {
            parent: self.parent,
            attr: self.attr,
            name: self.name@,
            data: self.data@,
            lookup_count: self.lookup_count,
            removed: self.removed,
        }
    }
}

impl FileView {
    /// A file that nobody has looked up yet.
    pub open spec fn made(
        parent: u64,
        attr: EditableFileAttr,
        name: Seq<u8>,
        data: DataView,
    ) -> FileView {
        FileView { parent, attr, name, data, lookup_count: 0, removed: false }
    }

    /// The empty file that `create_empty_file` makes.
    pub open spec fn empty_file(
        ino: u64,
        parent: u64,
        uid: u32,
        gid: u32,
        name: Seq<u8>,
        key: u128,
        time: Timespec,
    ) -> FileView {
        FileView::made(
            parent,
            EditableFileAttr::made_at(ino, 0, FileType::RegularFile, 0o664, uid, gid, time),
            name,
            DataView::Raw(key),
        )
    }

    /// The directory that `create_directory` makes.
    pub open spec fn directory(
        ino: u64,
        parent: u64,
        uid: u32,
        gid: u32,
        name: Seq<u8>,
        time: Timespec,
    ) -> FileView {
        FileView::made(
            parent,
            EditableFileAttr::made_at(ino, 0, FileType::Directory, 0o775, uid, gid, time),
            name,
            DataView::Nothing,
        )
    }

    /// The file that `create_github_file` makes.
    pub open spec fn github_file(
        ino: u64,
        size: u64,
        parent: u64,
        uid: u32,
        gid: u32,
        name: Seq<u8>,
        url: Seq<char>,
        time: Timespec,
    ) -> FileView {
        FileView::made(
            parent,
            EditableFileAttr::made_at(ino, size, FileType::RegularFile, 0o444, uid, gid, time),
            name,
            DataView::FetchingGitHubFile(url),
        )
    }

    /// The directory that `create_github_directory` makes.
    pub open spec fn github_directory(
        ino: u64,
        parent: u64,
        uid: u32,
        gid: u32,
        name: Seq<u8>,
        url: Seq<char>,
        time: Timespec,
    ) -> FileView {
        FileView::made(
            parent,
            EditableFileAttr::made_at(ino, 0, FileType::Directory, 0o555, uid, gid, time),
            name,
            DataView::FetchingGitHubDirectory(url),
        )
    }
}

impl FileData {
    /// The attributes, as they are told to the kernel.
    pub fn attr(&self) -> (attr: FileAttr)
        ensures
            attr == self.attr.told(),
    {
        FileAttr {
            ino: self.attr.ino,
            size: self.attr.size,
            blocks: self.attr.blocks,
            atime: self.attr.atime,
            mtime: self.attr.mtime,
            ctime: self.attr.ctime,
            crtime: self.attr.crtime,
            kind: self.attr.kind,
            perm: self.attr.perm,
            nlink: self.attr.nlink,
            uid: self.attr.uid,
            gid: self.attr.gid,
            rdev: self.attr.rdev,
            flags: self.attr.flags,
        }
    }
}

/// An empty file, made at `time`, whose content is kept under `key`.
pub fn create_empty_file(
    ino: u64,
    parent: u64,
    uid: u32,
    gid: u32,
    name: Vec<u8>,
    key: u128,
    time: Timespec,
) -> (file: FileData)
    ensures
        file@ == FileView::empty_file(ino, parent, uid, gid, name@, key, time),
{
    FileData {
        parent,
        attr: EditableFileAttr {
            ino,
            size: 0,
            blocks: 0,
            atime: time,
            mtime: time,
            ctime: time,
            crtime: time,
            kind: FileType::RegularFile,
            perm: 0o664,
            nlink: 0,
            uid,
            gid,
            rdev: 0,
            flags: 0,
        },
        name,
        data: GitHubFileData::Raw(key),
        lookup_count: 0,
        removed: false,
    }
}

/// An empty directory, made at `time`.
pub fn create_directory(
    ino: u64,
    parent: u64,
    uid: u32,
    gid: u32,
    name: Vec<u8>,
    time: Timespec,
) -> (file: FileData)
    ensures
        file@ == FileView::directory(ino, parent, uid, gid, name@, time),
{
    FileData {
        parent,
        attr: EditableFileAttr {
            ino,
            size: 0,
            blocks: 0,
            atime: time,
            mtime: time,
            ctime: time,
            crtime: time,
            kind: FileType::Directory,
            perm: 0o775,
            nlink: 0,
            uid,
            gid,
            rdev: 0,
            flags: 0,
        },
        name,
        data: GitHubFileData::Nothing,
        lookup_count: 0,
        removed: false,
    }
}

/// A file of the repository, made at `time`, whose content is on its way from `url`.
pub fn create_github_file(
    ino: u64,
    size: u64,
    parent: u64,
    uid: u32,
    gid: u32,
    name: Vec<u8>,
    url: String,
    time: Timespec,
) -> (file: FileData)
    ensures
        file@ == FileView::github_file(ino, size, parent, uid, gid, name@, url@, time),
{
    FileData {
        parent,
        attr: EditableFileAttr {
            ino,
            size,
            blocks: 0,
            atime: time,
            mtime: time,
            ctime: time,
            crtime: time,
            kind: FileType::RegularFile,
            perm: 0o444,
            nlink: 0,
            uid,
            gid,
            rdev: 0,
            flags: 0,
        },
        name,
        data: GitHubFileData::FetchingGitHubFile(url),
        lookup_count: 0,
        removed: false,
    }
}

/// A directory of the repository, made at `time`, whose entries are on their way from `url`.
pub fn create_github_directory(
    ino: u64,
    parent: u64,
    uid: u32,
    gid: u32,
    name: Vec<u8>,
    url: String,
    time: Timespec,
) -> (file: FileData)
    ensures
        file@ == FileView::github_directory(ino, parent, uid, gid, name@, url@, time),
{
    FileData {
        parent,
        attr: EditableFileAttr {
            ino,
            size: 0,
            blocks: 0,
            atime: time,
            mtime: time,
            ctime: time,
            crtime: time,
            kind: FileType::Directory,
            perm: 0o555,
            nlink: 0,
            uid,
            gid,
            rdev: 0,
            flags: 0,
        },
        name,
        data: GitHubFileData::FetchingGitHubDirectory(url),
        lookup_count: 0,
        removed: false,
    }
}

} // verus!
