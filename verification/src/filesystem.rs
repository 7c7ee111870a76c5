//! The inode table: what it holds, and how each request changes it.

use std::collections::hash_map::Entry;
use std::collections::{HashMap, HashSet};

use vstd::prelude::*;

use crate::clock::{time_now, Timespec};
use crate::file::{
    create_directory, create_empty_file, create_github_directory, DataView, EditableFileAttr,
    FileData, FileType, FileView, GitHubFileData,
};
use crate::operation::{Errno, Reply};

verus! {

broadcast use vstd::std_specs::hash::group_hash_axioms;

/// The number of the root directory.
pub const ROOT: u64 = 1;

/// The inode table: the files by their numbers, and which of them are listed in which directory.
/// The next file to be made gets the number `inode_max`.
pub struct FileSystemData {
    pub files: HashMap<u64, FileData>,
    pub children: HashMap<u64, HashSet<u64>>,
    pub inode_max: u64,
}

/// The view of `FileSystemData`.
#[verifier::ext_equal]
pub struct FsView {
    pub files: Map<u64, FileView>,
    pub children: Map<u64, Set<u64>>,
    pub inode_max: u64,
}

impl View for FileSystemData {
    type V = FsView;

    open spec fn view(&self) -> FsView {
        FsView {
            files: self.files@.map_values(|f: FileData| f@),
            children: self.children@.map_values(|s: HashSet<u64>| s@),
            inode_max: self.inode_max,
        }
    }
}

/// Whether a file is the table's own, not one of the repository that has yet to arrive.
pub open spec fn is_local(data: DataView) -> bool {
    data is Raw || data is Nothing
}

impl FsView {
    /// The numbers that are listed in a directory, including those of files that are gone.
    pub open spec fn children_of(self, ino: u64) -> Set<u64> {
        if self.children.contains_key(ino) {
            self.children[ino]
        } else {
            Set::empty()
        }
    }

    /// Whether `ino` is listed in `parent`.
    pub open spec fn listed(self, parent: u64, ino: u64) -> bool {
        self.children_of(parent).contains(ino)
    }

    /// Whether `ino` is a file in `parent` with the name `name`.
    pub open spec fn named(self, parent: u64, name: Seq<u8>, ino: u64) -> bool {
        &&& self.listed(parent, ino)
        &&& self.files.contains_key(ino)
        &&& self.files[ino].name == name
    }

    /// Whether a search for `name` in `parent` may end with `found`: with some file of that name,
    /// or with none where there is none.
    pub open spec fn finds(self, parent: u64, name: Seq<u8>, found: Option<u64>) -> bool {
        match found {
            Some(ino) => self.named(parent, name, ino),
            None => forall|ino: u64| !#[trigger] self.named(parent, name, ino),
        }
    }

    /// The table is sound: there is a root directory, it is listed nowhere, each file knows its own
    /// number and is listed in its parent and nowhere else, and no number from `inode_max` on has
    /// been given away.
    pub open spec fn well_formed(self) -> bool {
        &&& self.files.contains_key(ROOT)
        &&& self.inode_max > ROOT
        &&& forall|ino: u64| #[trigger]
            self.files.contains_key(ino) ==> self.files[ino].attr.ino == ino && ino
                < self.inode_max
        &&& forall|parent: u64, ino: u64| #[trigger]
            self.listed(parent, ino) ==> ino < self.inode_max && ino != ROOT && (
            self.files.contains_key(ino) ==> self.files[ino].parent == parent)
        &&& forall|ino: u64| #[trigger]
            self.files.contains_key(ino) && ino != ROOT ==> self.listed(self.files[ino].parent, ino)
    }

    /// The table of a repository whose root directory, made at `time`, is on its way from `url`:
    /// there is nothing else yet, and numbers are given away from 2 on.
    pub open spec fn of_repository(url: Seq<char>, time: Timespec) -> FsView {
        FsView {
            files: map![ROOT => FileView::github_directory(ROOT, 0, 0, 0, Seq::empty(), url, time)],
            children: map![ROOT => Set::empty()],
            inode_max: 2,
        }
    }

    /// The table with `file` under the number `ino`.
    pub open spec fn with_file(self, ino: u64, file: FileView) -> FsView {
        FsView { files: self.files.insert(ino, file), ..self }
    }

    /// The table with other attributes for `ino`.
    pub open spec fn with_attr(self, ino: u64, attr: EditableFileAttr) -> FsView {
        self.with_file(ino, FileView { attr, ..self.files[ino] })
    }

    /// The table without the file `ino`.
    pub open spec fn without(self, ino: u64) -> FsView {
        FsView { files: self.files.remove(ino), ..self }
    }

    /// The table after `ino`, if it is there, was modified at `time`.
    pub open spec fn touched(self, ino: u64, time: Timespec) -> FsView {
        if self.files.contains_key(ino) {
            self.with_attr(
                ino,
                EditableFileAttr { mtime: time, ctime: time, ..self.files[ino].attr },
            )
        } else {
            self
        }
    }

    /// The table with `ino` listed in `parent`.
    pub open spec fn adopted(self, parent: u64, ino: u64) -> FsView {
        FsView {
            children: self.children.insert(parent, self.children_of(parent).insert(ino)),
            ..self
        }
    }

    /// The table with `ino` no longer listed in `parent`.
    pub open spec fn disowned(self, parent: u64, ino: u64) -> FsView {
        if self.children.contains_key(parent) {
            FsView {
                children: self.children.insert(parent, self.children[parent].remove(ino)),
                ..self
            }
        } else {
            self
        }
    }

    /// The table with `file` as a new file in `parent`, which is modified at `time`.
    pub open spec fn with_new(self, parent: u64, file: FileView, time: Timespec) -> FsView {
        FsView {
            files: self.files.insert(self.inode_max, file),
            inode_max: (self.inode_max + 1) as u64,
            ..self
        }.touched(parent, time).adopted(parent, self.inode_max)
    }

    /// The answer to a question for the attributes of `ino`.
    pub open spec fn getattr(self, ino: u64) -> Reply {
        if self.files.contains_key(ino) {
            Reply::Attr { ttl: Timespec::seconds(1), attr: self.files[ino].attr.told() }
        } else {
            Reply::Error(Errno::ENOSYS)
        }
    }

    /// What becomes of a request to make a directory: the table and the answer.
    pub open spec fn mkdir(
        self,
        parent: u64,
        name: Seq<u8>,
        uid: u32,
        gid: u32,
        created: Timespec,
        time: Timespec,
    ) -> (FsView, Reply) {
        let file = FileView::directory(self.inode_max, parent, uid, gid, name, created);
        (
            self.with_new(parent, file, time),
            Reply::Entry { ttl: Timespec::seconds(1), attr: file.attr.told(), generation: 0 },
        )
    }

    /// What becomes of a request to make an empty file with its content under `key`.
    pub open spec fn create(
        self,
        parent: u64,
        name: Seq<u8>,
        uid: u32,
        gid: u32,
        flags: u32,
        key: u128,
        created: Timespec,
        time: Timespec,
    ) -> (FsView, Reply) {
        let file = FileView::empty_file(self.inode_max, parent, uid, gid, name, key, created);
        (
            self.with_new(parent, file, time),
            Reply::Created {
                ttl: Timespec::seconds(1),
                attr: file.attr.told(),
                generation: 0,
                fh: 0,
                flags,
            },
        )
    }

    /// What becomes of a request to remove a file from `parent`, where the search for it has ended
    /// with `found`.
    pub open spec fn unlink(self, parent: u64, found: Option<u64>, time: Timespec) -> (FsView, Reply) {
        match found {
            Some(ino) if is_local(self.files[ino].data) && self.files[ino].attr.kind
                == FileType::RegularFile => (self.without(ino).touched(parent, time), Reply::Done),
            _ => (self, Reply::Error(Errno::ENOSYS)),
        }
    }

    /// What becomes of a request to remove a directory from `parent`, where the search for it has
    /// ended with `found`.
    pub open spec fn rmdir(self, parent: u64, found: Option<u64>, time: Timespec) -> (FsView, Reply) {
        match found {
            Some(ino) if self.files[ino].data is Nothing && self.files[ino].attr.kind
                == FileType::Directory => (self.without(ino).touched(parent, time), Reply::Done),
            _ => (self, Reply::Error(Errno::ENOSYS)),
        }
    }

    /// What becomes of a request to move a file from `parent` to `newparent` under the name
    /// `newname`, where the search for it has ended with `found`.
    pub open spec fn rename(
        self,
        parent: u64,
        found: Option<u64>,
        newparent: u64,
        newname: Seq<u8>,
        time: Timespec,
    ) -> (FsView, Reply) {
        match found {
            Some(ino) if is_local(self.files[ino].data) => {
                let noted = self.touched(parent, time).touched(newparent, time);
                let file = noted.files[ino];
                let moved = noted.with_file(
                    ino,
                    FileView {
                        parent: newparent,
                        name: newname,
                        attr: EditableFileAttr { ctime: time, ..file.attr },
                        ..file
                    },
                );
                (moved.disowned(parent, ino).adopted(newparent, ino), Reply::Done)
            },
            _ => (self, Reply::Error(Errno::ENOSYS)),
        }
    }
}

/// Whether two names are the same.
fn same_name(a: &Vec<u8>, b: &Vec<u8>) -> (same: bool)
    ensures
        same == (a@ == b@),
{
    let same = *a == *b;
    assert(same ==> a@ =~= b@);
    same
}

impl FileSystemData {
    /// The table is sound.
    pub open spec fn well_formed(self) -> bool {
        self@.well_formed()
    }

    /// A table of these files, with these directories, that gives away the numbers from 2 on.
    pub fn new(files: HashMap<u64, FileData>, children: HashMap<u64, HashSet<u64>>) -> (data: Self)
        ensures
            data == (FileSystemData { files, children, inode_max: 2 }),
    {
        FileSystemData { files, children, inode_max: 2 }
    }

    /// The table of a repository whose root directory, made at `time`, is on its way from `url`.
    pub fn of_repository_at(url: String, time: Timespec) -> (data: Self)
        ensures
            data.well_formed(),
            data@ == FsView::of_repository(url@, time),
    {
        let name: Vec<u8> = Vec::new();
        let root = create_github_directory(ROOT, 0, 0, 0, name, url, time);
        let mut files: HashMap<u64, FileData> = HashMap::new();
        files.insert(ROOT, root);
        let mut children: HashMap<u64, HashSet<u64>> = HashMap::new();
        children.insert(ROOT, HashSet::new());
        let data = FileSystemData::new(files, children);
        assert(data@ =~= FsView::of_repository(url@, time));
        data
    }

    /// The table of a repository whose root directory is on its way from `url`.
    pub fn of_repository(url: String) -> (data: Self)
        ensures
            data.well_formed(),
            exists|time: Timespec|
                time.valid() && data@ == #[trigger] FsView::of_repository(url@, time),
    {
        let time = time_now();
        FileSystemData::of_repository_at(url, time)
    }

    /// Notes a modification of `ino`, if it is there.
    fn touch(&mut self, ino: u64, time: Timespec)
        ensures
            final(self)@ == old(self)@.touched(ino, time),
    {
        let ghost before = *self;
        match self.files.entry(ino) {
            Entry::Occupied(entry) => {
                let file = entry.into_mut();
                file.attr.update_mtime(time);
                file.attr.update_ctime(time);
            },
            Entry::Vacant(_) => {},
        }
        assert(self@ =~= before@.touched(ino, time));
    }

    /// Lists `ino` in `parent`.
    pub(crate) fn adopt(&mut self, parent: u64, ino: u64)
        ensures
            final(self)@ == old(self)@.adopted(parent, ino),
    {
        let ghost before = *self;
        self.children.entry(parent).or_insert(HashSet::new()).insert(ino);
        assert(self@ =~= before@.adopted(parent, ino));
    }

    /// Takes `ino` off the list of `parent`.
    fn disown(&mut self, parent: u64, ino: u64)
        ensures
            final(self)@ == old(self)@.disowned(parent, ino),
    {
        let ghost before = *self;
        match self.children.entry(parent) {
            Entry::Occupied(entry) => {
                entry.into_mut().remove(&ino);
            },
            Entry::Vacant(_) => {},
        }
        assert(self@ =~= before@.disowned(parent, ino));
    }

    /// Gives the next number to `file` and lists it in `parent`.
    fn insert_new(&mut self, parent: u64, file: FileData, time: Timespec)
        requires
            old(self).inode_max < u64::MAX,
        ensures
            final(self)@ == old(self)@.with_new(parent, file@, time),
    {
        let ghost before = *self;
        let ino = self.inode_max;
        self.inode_max = ino + 1;
        self.files.insert(ino, file);
        assert(self@ =~= FsView {
            files: before@.files.insert(ino, file@),
            inode_max: (ino + 1) as u64,
            ..before@
        });
        self.touch(parent, time);
        self.adopt(parent, ino);
    }

    /// Looks for a file with the name `name` in `parent`.
    pub fn find_child(&self, parent: u64, name: &Vec<u8>) -> (found: Option<u64>)
        ensures
            self@.finds(parent, name@, found),
    {
        match self.children.get(&parent) {
            Some(inos) => {
                assert(inos@ == self@.children_of(parent));
                for ino in iter: inos.iter()
                    invariant
                        inos@ == self@.children_of(parent),
                        iter.seq().unref().to_set() == inos@,
                        forall|j: int|
                            0 <= j < iter.index() ==> !self@.named(
                                parent,
                                name@,
                                *(#[trigger] iter.seq()[j]),
                            ),
                {
                    assert(inos@.contains(*ino)) by {
                        assert(iter.seq().unref()[iter.index() as int] == *ino);
                    }
                    if let Some(file) = self.files.get(ino) {
                        if same_name(&file.name, name) {
                            return Some(*ino);
                        }
                    }
                }
                None
            },
            None => None,
        }
    }

    /// The attributes of `ino`.
    pub fn getattr(&self, ino: u64) -> (reply: Reply)
        ensures
            reply == self@.getattr(ino),
    {
        match self.files.get(&ino) {
            Some(file) => Reply::Attr { ttl: Timespec::new(1, 0), attr: file.attr() },
            None => Reply::Error(Errno::ENOSYS),
        }
    }

    /// Makes a directory in `parent`: it is made at `created`, and `parent` is modified at `time`.
    pub fn mkdir_at(
        &mut self,
        parent: u64,
        name: Vec<u8>,
        uid: u32,
        gid: u32,
        created: Timespec,
        time: Timespec,
    ) -> (reply: Reply)
        requires
            old(self).well_formed(),
            old(self).inode_max < u64::MAX,
        ensures
            final(self).well_formed(),
            (final(self)@, reply) == old(self)@.mkdir(parent, name@, uid, gid, created, time),
    {
        let file = create_directory(self.inode_max, parent, uid, gid, name, created);
        let reply = Reply::Entry { ttl: Timespec::new(1, 0), attr: file.attr(), generation: 0 };
        proof {
            lemma_with_new_well_formed(self@, parent, file@, time);
        }
        self.insert_new(parent, file, time);
        reply
    }

    /// Makes a directory in `parent`.
    pub fn mkdir(&mut self, parent: u64, name: Vec<u8>, uid: u32, gid: u32) -> (reply: Reply)
        requires
            old(self).well_formed(),
            old(self).inode_max < u64::MAX,
        ensures
            final(self).well_formed(),
            exists|created: Timespec, time: Timespec|
                created.valid() && time.valid() && (final(self)@, reply) == #[trigger] old(self)@.mkdir(
                    parent,
                    name@,
                    uid,
                    gid,
                    created,
                    time,
                ),
    {
        let created = time_now();
        let time = time_now();
        self.mkdir_at(parent, name, uid, gid, created, time)
    }

    /// Makes an empty file in `parent`, with its content under `key`: it is made at `created`, and
    /// `parent` is modified at `time`.
    pub fn create_at(
        &mut self,
        parent: u64,
        name: Vec<u8>,
        uid: u32,
        gid: u32,
        flags: u32,
        key: u128,
        created: Timespec,
        time: Timespec,
    ) -> (reply: Reply)
        requires
            old(self).well_formed(),
            old(self).inode_max < u64::MAX,
        ensures
            final(self).well_formed(),
            (final(self)@, reply) == old(self)@.create(
                parent,
                name@,
                uid,
                gid,
                flags,
                key,
                created,
                time,
            ),
    {
        let file = create_empty_file(self.inode_max, parent, uid, gid, name, key, created);
        let reply = Reply::Created {
            ttl: Timespec::new(1, 0),
            attr: file.attr(),
            generation: 0,
            fh: 0,
            flags,
        };
        proof {
            lemma_with_new_well_formed(self@, parent, file@, time);
        }
        self.insert_new(parent, file, time);
        reply
    }

    /// Removes a file from `parent`, which is modified at `time`.
    pub fn unlink_at(&mut self, parent: u64, name: &Vec<u8>, time: Timespec) -> (reply: Reply)
        requires
            old(self).well_formed(),
        ensures
            final(self).well_formed(),
            exists|found: Option<u64>| #[trigger]
                old(self)@.finds(parent, name@, found) && (final(self)@, reply) == old(
                    self,
                )@.unlink(parent, found, time),
    {
        let found = self.find_child(parent, name);
        let ghost before = *self;
        if let Some(ino) = found {
            if let Some(file) = self.files.get(&ino) {
                let local = match file.data {
                    GitHubFileData::Raw(_) => true,
                    GitHubFileData::Nothing => true,
                    _ => false,
                };
                if local && file.attr.kind == FileType::RegularFile {
                    self.files.remove(&ino);
                    assert(self@ =~= before@.without(ino));
                    self.touch(parent, time);
                    proof {
                        lemma_without_well_formed(before@, ino);
                        lemma_touched_well_formed(before@.without(ino), parent, time);
                    }
                    return Reply::Done;
                }
            }
        }
        Reply::Error(Errno::ENOSYS)
    }

    /// Removes a file from `parent`.
    pub fn unlink(&mut self, parent: u64, name: &Vec<u8>) -> (reply: Reply)
        requires
            old(self).well_formed(),
        ensures
            final(self).well_formed(),
            exists|found: Option<u64>, time: Timespec|
                time.valid() && old(self)@.finds(parent, name@, found) && (final(self)@, reply) == #[trigger] old(
                    self,
                )@.unlink(parent, found, time),
    {
        let time = time_now();
        self.unlink_at(parent, name, time)
    }

    /// Removes a directory from `parent`, which is modified at `time`.
    pub fn rmdir_at(&mut self, parent: u64, name: &Vec<u8>, time: Timespec) -> (reply: Reply)
        requires
            old(self).well_formed(),
        ensures
            final(self).well_formed(),
            exists|found: Option<u64>| #[trigger]
                old(self)@.finds(parent, name@, found) && (final(self)@, reply) == old(
                    self,
                )@.rmdir(parent, found, time),
    {
        let found = self.find_child(parent, name);
        let ghost before = *self;
        if let Some(ino) = found {
            if let Some(file) = self.files.get(&ino) {
                let nothing = match file.data {
                    GitHubFileData::Nothing => true,
                    _ => false,
                };
                if nothing && file.attr.kind == FileType::Directory {
                    self.files.remove(&ino);
                    assert(self@ =~= before@.without(ino));
                    self.touch(parent, time);
                    proof {
                        lemma_without_well_formed(before@, ino);
                        lemma_touched_well_formed(before@.without(ino), parent, time);
                    }
                    return Reply::Done;
                }
            }
        }
        Reply::Error(Errno::ENOSYS)
    }

    /// Removes a directory from `parent`.
    pub fn rmdir(&mut self, parent: u64, name: &Vec<u8>) -> (reply: Reply)
        requires
            old(self).well_formed(),
        ensures
            final(self).well_formed(),
            exists|found: Option<u64>, time: Timespec|
                time.valid() && old(self)@.finds(parent, name@, found) && (final(self)@, reply) == #[trigger] old(
                    self,
                )@.rmdir(parent, found, time),
    {
        let time = time_now();
        self.rmdir_at(parent, name, time)
    }

    /// Moves a file from `parent` to `newparent` under the name `newname`; both are modified at
    /// `time`.
    pub fn rename_at(
        &mut self,
        parent: u64,
        name: &Vec<u8>,
        newparent: u64,
        newname: Vec<u8>,
        time: Timespec,
    ) -> (reply: Reply)
        requires
            old(self).well_formed(),
        ensures
            final(self).well_formed(),
            exists|found: Option<u64>| #[trigger]
                old(self)@.finds(parent, name@, found) && (final(self)@, reply) == old(
                    self,
                )@.rename(parent, found, newparent, newname@, time),
    {
        let found = self.find_child(parent, name);
        let ghost before = *self;
        if let Some(ino) = found {
            if let Some(file) = self.files.get(&ino) {
                let local = match file.data {
                    GitHubFileData::Raw(_) => true,
                    GitHubFileData::Nothing => true,
                    _ => false,
                };
                if local {
                    self.touch(parent, time);
                    self.touch(newparent, time);
                    let ghost noted = *self;
                    assert(noted@.files.contains_key(ino));
                    assert(noted.files@.contains_key(ino));
                    match self.files.entry(ino) {
                        Entry::Occupied(entry) => {
                            let file = entry.into_mut();
                            file.attr.update_ctime(time);
                            file.parent = newparent;
                            file.name = newname;
                        },
                        Entry::Vacant(_) => {},
                    }
                    let ghost moved = FileView {
                        parent: newparent,
                        name: newname@,
                        attr: EditableFileAttr { ctime: time, ..noted@.files[ino].attr },
                        ..noted@.files[ino]
                    };
                    assert(self@.files[ino] =~= moved);
                    assert(self@.files =~= noted@.files.insert(ino, moved));
                    assert(self@ =~= noted@.with_file(ino, moved));
                    self.disown(parent, ino);
                    self.adopt(newparent, ino);
                    proof {
                        lemma_rename_well_formed(before@, parent, ino, newparent, newname@, time);
                    }
                    return Reply::Done;
                }
            }
        }
        Reply::Error(Errno::ENOSYS)
    }

    /// Moves a file from `parent` to `newparent` under the name `newname`.
    pub fn rename(&mut self, parent: u64, name: &Vec<u8>, newparent: u64, newname: Vec<u8>) -> (reply:
        Reply)
        requires
            old(self).well_formed(),
        ensures
            final(self).well_formed(),
            exists|found: Option<u64>, time: Timespec|
                time.valid() && old(self)@.finds(parent, name@, found) && (final(self)@, reply) == #[trigger] old(
                    self,
                )@.rename(parent, found, newparent, newname@, time),
    {
        let time = time_now();
        self.rename_at(parent, name, newparent, newname, time)
    }
}

/// What is changed of a file keeps the table sound, as long as it keeps its number and its parent.
pub(crate) proof fn lemma_with_file_well_formed(fs: FsView, ino: u64, file: FileView)
    requires
        fs.well_formed(),
        fs.files.contains_key(ino),
        file.attr.ino == ino,
        file.parent == fs.files[ino].parent,
    ensures
        fs.with_file(ino, file).well_formed(),
{
    let after = fs.with_file(ino, file);
    assert forall|p: u64, c: u64| #[trigger] after.listed(p, c) implies fs.listed(p, c) by {}
    assert forall|c: u64| #[trigger] after.files.contains_key(c) && c != ROOT implies after.listed(
        after.files[c].parent,
        c,
    ) by {
        assert(fs.listed(fs.files[c].parent, c));
    }
}

/// A modification keeps the table sound.
proof fn lemma_touched_well_formed(fs: FsView, ino: u64, time: Timespec)
    requires
        fs.well_formed(),
    ensures
        fs.touched(ino, time).well_formed(),
{
    if fs.files.contains_key(ino) {
        lemma_with_file_well_formed(fs, ino, fs.touched(ino, time).files[ino]);
    }
}

/// Removing a file other than the root keeps the table sound.
proof fn lemma_without_well_formed(fs: FsView, ino: u64)
    requires
        fs.well_formed(),
        ino != ROOT,
    ensures
        fs.without(ino).well_formed(),
{
    let after = fs.without(ino);
    assert forall|p: u64, c: u64| #[trigger] after.listed(p, c) implies fs.listed(p, c) by {}
    assert forall|c: u64| #[trigger] after.files.contains_key(c) && c != ROOT implies after.listed(
        after.files[c].parent,
        c,
    ) by {
        assert(fs.listed(fs.files[c].parent, c));
    }
}

/// A new file keeps the table sound.
proof fn lemma_with_new_well_formed(fs: FsView, parent: u64, file: FileView, time: Timespec)
    requires
        fs.well_formed(),
        fs.inode_max < u64::MAX,
        file.parent == parent,
        file.attr.ino == fs.inode_max,
    ensures
        fs.with_new(parent, file, time).well_formed(),
{
    let ino = fs.inode_max;
    let after = fs.with_new(parent, file, time);
    assert forall|p: u64, c: u64| #[trigger] after.listed(p, c) implies fs.listed(p, c) || (p == parent
        && c == ino) by {}
    assert forall|c: u64| #[trigger] after.files.contains_key(c) && c != ROOT implies after.listed(
        after.files[c].parent,
        c,
    ) by {
        if c != ino {
            assert(fs.files.contains_key(c));
            assert(fs.listed(fs.files[c].parent, c));
        }
    }
    assert(after.listed(parent, ino));
}

/// Moving a file keeps the table sound.
proof fn lemma_rename_well_formed(
    fs: FsView,
    parent: u64,
    ino: u64,
    newparent: u64,
    newname: Seq<u8>,
    time: Timespec,
)
    requires
        fs.well_formed(),
        fs.listed(parent, ino),
        fs.files.contains_key(ino),
    ensures
        fs.rename(parent, Some(ino), newparent, newname, time).0.well_formed(),
{
    let noted = fs.touched(parent, time).touched(newparent, time);
    lemma_touched_well_formed(fs, parent, time);
    lemma_touched_well_formed(fs.touched(parent, time), newparent, time);
    let after = fs.rename(parent, Some(ino), newparent, newname, time).0;
    if is_local(fs.files[ino].data) {
        assert forall|p: u64, c: u64| #[trigger] after.listed(p, c) implies (c != ino && noted.listed(
            p,
            c,
        )) || (c == ino && p == newparent) by {
            if c == ino && p != newparent {
                assert(noted.listed(p, c));
            }
        }
        assert forall|c: u64| #[trigger] after.files.contains_key(c) && c != ROOT implies after.listed(
            after.files[c].parent,
            c,
        ) by {
            if c != ino {
                assert(noted.files.contains_key(c));
                assert(noted.listed(noted.files[c].parent, c));
            }
        }
    }
}

} // verus!
