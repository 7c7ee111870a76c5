//! The content and the attributes of files: how they are read and changed.

use std::collections::hash_map::Entry;

use vstd::prelude::*;

use crate::clock::{time_now, Timespec};
use crate::content::{read_content, resize_content, write_content};
use crate::content_key::uuid_new_v4;
use crate::file::{DataView, EditableFileAttr, FileView, GitHubFileData};
use crate::filesystem::{FileSystemData, FsView};
use crate::operation::{AttrChange, ContentUse, Errno, Reply, Step};

verus! {

use crate::content::{end_of, overwritten, range_of, resized};
use crate::content_key::is_random_key;
use crate::filesystem::lemma_with_file_well_formed;

broadcast use vstd::std_specs::hash::group_hash_axioms;

/// `given`, or `kept` where nothing is given.
pub open spec fn given_or<T>(given: Option<T>, kept: T) -> T {
    match given {
        Some(value) => value,
        None => kept,
    }
}

impl EditableFileAttr {
    /// The attributes after a change at `time`, where `size` is the new size of the content if that
    /// is changed too.
    pub open spec fn changed(self, change: AttrChange, size: Option<u64>, time: Timespec) -> Self {
        EditableFileAttr {
            perm: match change.mode {
                Some(mode) => mode as u16,
                None => self.perm,
            },
            uid: given_or(change.uid, self.uid),
            gid: given_or(change.gid, self.gid),
            size: given_or(size, self.size),
            atime: given_or(change.atime, self.atime),
            mtime: given_or(
                change.mtime,
                if size is Some {
                    time
                } else {
                    self.mtime
                },
            ),
            crtime: given_or(change.crtime, self.crtime),
            flags: given_or(change.flags, self.flags),
            ctime: time,
            ..self
        }
    }

    /// Changes what `change` says, and notes at `time` that it did.  `size` is the new size of the
    /// content if that is changed too.
    pub(crate) fn change(&mut self, change: &AttrChange, size: Option<u64>, time: Timespec)
        ensures
            *final(self) == old(self).changed(*change, size, time),
    {
        if let Some(n) = change.mode {
            self.perm = #[verifier::truncate] (n as u16);
        }
        if let Some(n) = change.uid {
            self.uid = n;
        }
        if let Some(n) = change.gid {
            self.gid = n;
        }
        if let Some(n) = size {
            self.size = n;
            self.update_mtime(time);
        }
        if let Some(n) = change.atime {
            self.update_atime(n);
        }
        if let Some(n) = change.mtime {
            self.update_mtime(n);
        }
        if let Some(n) = change.crtime {
            self.crtime = n;
        }
        if let Some(n) = change.flags {
            self.flags = n;
        }
        self.update_ctime(time);
    }
}

impl ContentUse {
    /// Whether the machine can hold what becomes of the content.
    pub open spec fn fits(self) -> bool {
        match self {
            ContentUse::Read { offset: _, size: _ } => true,
            ContentUse::Write { ino: _, offset, data } => 0 <= offset && end_of(
                offset as int,
                data@,
            ) <= isize::MAX,
            ContentUse::Setattr { ino: _, change } => given_or(change.size, 0) <= isize::MAX,
        }
    }
}

impl FsView {
    /// Whether there is a file `ino` with a content of its own.
    pub open spec fn has_content(self, ino: u64) -> bool {
        self.files.contains_key(ino) && self.files[ino].data is Raw
    }

    /// Whether the content of the file `ino` is on its way.
    pub open spec fn awaits_content(self, ino: u64) -> bool {
        self.files.contains_key(ino) && self.files[ino].data is FetchingGitHubFile
    }

    /// The key of the content of the file `ino`.
    pub open spec fn key_of(self, ino: u64) -> u128 {
        self.files[ino].data->Raw_0
    }

    /// What becomes of a request to change attributes of `ino`: the table and the next step.
    pub open spec fn setattr(self, ino: u64, change: AttrChange, time: Timespec) -> (FsView, Step) {
        if !self.files.contains_key(ino) {
            (self, Step::Finished(Reply::Error(Errno::ENOSYS)))
        } else if self.has_content(ino) && change.size is Some && change.size
            != Some(self.files[ino].attr.size) {
            (
                self,
                Step::UseContent {
                    key: self.key_of(ino),
                    then: ContentUse::Setattr { ino, change },
                },
            )
        } else {
            let attr = self.files[ino].attr.changed(change, None, time);
            (
                self.with_attr(ino, attr),
                Step::Finished(Reply::Attr { ttl: Timespec::seconds(1), attr: attr.told() }),
            )
        }
    }

    /// What becomes of a request that needs the content of `ino`: the table and the next step.  A
    /// content that is on its way is to be kept under `key`.
    pub open spec fn asks_content(self, ino: u64, key: u128, then: ContentUse) -> (FsView, Step) {
        if self.awaits_content(ino) {
            (
                self.with_file(ino, FileView { data: DataView::Raw(key), ..self.files[ino] }),
                Step::AwaitFile { ino, key, then },
            )
        } else if self.has_content(ino) {
            (self, Step::UseContent { key: self.key_of(ino), then })
        } else {
            (self, Step::Finished(Reply::Error(Errno::ENOSYS)))
        }
    }

    /// Whether a request that needs the content of `ino` may end in the table `after` with `step`:
    /// a content that is on its way gets a random key.
    pub open spec fn may_ask_content(
        self,
        ino: u64,
        then: ContentUse,
        after: FsView,
        step: Step,
    ) -> bool {
        exists|key: u128|
            (after, step) == #[trigger] self.asks_content(ino, key, then) && (self.awaits_content(ino)
                ==> is_random_key(key))
    }

    /// The attributes of `ino` after `data` was written at `time` to its content, of which `len`
    /// bytes were there, at `offset`.
    pub open spec fn attr_written(
        self,
        ino: u64,
        len: nat,
        offset: int,
        data: Seq<u8>,
        time: Timespec,
    ) -> EditableFileAttr {
        let attr = self.files[ino].attr;
        EditableFileAttr {
            mtime: time,
            ctime: time,
            size: if len < end_of(offset, data) {
                end_of(offset, data) as u64
            } else {
                attr.size
            },
            ..attr
        }
    }

    /// Whether the use of `content` at `time` ends in the table `after` and the content `left`, and
    /// is answered with `reply`.
    pub open spec fn uses_content(
        self,
        then: ContentUse,
        content: Seq<u8>,
        time: Timespec,
        after: FsView,
        left: Seq<u8>,
        reply: Reply,
    ) -> bool {
        match then {
            ContentUse::Read { offset, size } => {
                &&& after == self
                &&& left == content
                &&& reply matches Reply::Data(data) && data@ == range_of(
                    content,
                    offset as int,
                    size as int,
                )
            },
            ContentUse::Write { ino, offset, data } => if self.has_content(ino) {
                &&& after == self.with_attr(
                    ino,
                    self.attr_written(ino, content.len(), offset as int, data@, time),
                )
                &&& left == overwritten(content, offset as int, data@)
                &&& reply == Reply::Written(data@.len() as u32)
            } else {
                &&& after == self
                &&& left == content
                &&& reply == Reply::Error(Errno::ENOSYS)
            },
            ContentUse::Setattr { ino, change } => if self.has_content(ino) && change.size is Some {
                let attr = self.files[ino].attr.changed(change, change.size, time);
                &&& after == self.with_attr(ino, attr)
                &&& left == resized(content, change.size->0 as nat)
                &&& reply == (Reply::Attr { ttl: Timespec::seconds(1), attr: attr.told() })
            } else {
                &&& after == self
                &&& left == content
                &&& reply == Reply::Error(Errno::ENOSYS)
            },
        }
    }
}

impl FileSystemData {
    /// The key of the content of `ino`, if it has one of its own.
    fn content_key(&self, ino: u64) -> (key: Option<u128>)
        ensures
            key == (if self@.has_content(ino) {
                Some(self@.key_of(ino))
            } else {
                None
            }),
    {
        match self.files.get(&ino) {
            Some(file) => match file.data {
                GitHubFileData::Raw(key) => Some(key),
                _ => None,
            },
            None => None,
        }
    }

    /// Whether the content of `ino` is on its way.
    fn awaits_content(&self, ino: u64) -> (awaits: bool)
        ensures
            awaits == self@.awaits_content(ino),
    {
        match self.files.get(&ino) {
            Some(file) => match file.data {
                GitHubFileData::FetchingGitHubFile(_) => true,
                _ => false,
            },
            None => false,
        }
    }

    /// Changes attributes of `ino` at `time`, or asks for its content where that is to be resized.
    pub fn setattr_at(&mut self, ino: u64, change: AttrChange, time: Timespec) -> (step: Step)
        requires
            old(self).well_formed(),
        ensures
            final(self).well_formed(),
            (final(self)@, step) == old(self)@.setattr(ino, change, time),
    {
        let key = self.content_key(ino);
        let size = match self.files.get(&ino) {
            Some(file) => file.attr.size,
            None => return Step::Finished(Reply::Error(Errno::ENOSYS)),
        };
        if let (Some(key), Some(n)) = (key, change.size) {
            if n != size {
                return Step::UseContent { key, then: ContentUse::Setattr { ino, change } };
            }
        }
        let reply = self.change_attr(ino, &change, None, time);
        Step::Finished(reply)
    }

    /// Changes attributes of a file.
    fn change_attr(&mut self, ino: u64, change: &AttrChange, size: Option<u64>, time: Timespec) -> (reply:
        Reply)
        requires
            old(self).well_formed(),
            old(self)@.files.contains_key(ino),
        ensures
            final(self).well_formed(),
            ({
                let attr = old(self)@.files[ino].attr.changed(*change, size, time);
                &&& final(self)@ == old(self)@.with_attr(ino, attr)
                &&& reply == (Reply::Attr { ttl: Timespec::seconds(1), attr: attr.told() })
            }),
    {
        let ghost before = *self;
        let reply = match self.files.entry(ino) {
            Entry::Occupied(entry) => {
                let file = entry.into_mut();
                file.attr.change(change, size, time);
                Reply::Attr { ttl: Timespec::new(1, 0), attr: file.attr() }
            },
            Entry::Vacant(_) => Reply::Error(Errno::ENOSYS),
        };
        proof {
            let attr = before@.files[ino].attr.changed(*change, size, time);
            assert(self@ =~= before@.with_attr(ino, attr));
            lemma_with_file_well_formed(before@, ino, self@.files[ino]);
        }
        reply
    }

    /// Changes attributes of `ino`, or asks for its content where that is to be resized.
    pub fn setattr(&mut self, ino: u64, change: AttrChange) -> (step: Step)
        requires
            old(self).well_formed(),
        ensures
            final(self).well_formed(),
            exists|time: Timespec|
                time.valid() && (final(self)@, step) == #[trigger] old(self)@.setattr(ino, change, time),
    {
        let time = time_now();
        self.setattr_at(ino, change, time)
    }

    /// Asks for the content of `ino`.  If it is on its way, it is to be kept under `key`.
    pub fn ask_content_at(&mut self, ino: u64, key: u128, then: ContentUse) -> (step: Step)
        requires
            old(self).well_formed(),
        ensures
            final(self).well_formed(),
            (final(self)@, step) == old(self)@.asks_content(ino, key, then),
    {
        let ghost before = *self;
        if self.awaits_content(ino) {
            match self.files.entry(ino) {
                Entry::Occupied(entry) => {
                    entry.into_mut().data = GitHubFileData::Raw(key);
                },
                Entry::Vacant(_) => {},
            }
            proof {
                assert(self@ =~= before@.asks_content(ino, key, then).0);
                lemma_with_file_well_formed(before@, ino, self@.files[ino]);
            }
            Step::AwaitFile { ino, key, then }
        } else {
            match self.content_key(ino) {
                Some(key) => Step::UseContent { key, then },
                None => Step::Finished(Reply::Error(Errno::ENOSYS)),
            }
        }
    }

    /// Asks for the content of `ino`.  If it is on its way, it gets a random key.
    pub fn ask_content(&mut self, ino: u64, then: ContentUse) -> (step: Step)
        requires
            old(self).well_formed(),
        ensures
            final(self).well_formed(),
            old(self)@.may_ask_content(ino, then, final(self)@, step),
    {
        let key = if self.awaits_content(ino) {
            uuid_new_v4()
        } else {
            0
        };
        self.ask_content_at(ino, key, then)
    }

    /// Uses the content of a file at `time`.
    pub fn use_content_at(&mut self, then: ContentUse, content: &mut Vec<u8>, time: Timespec) -> (reply:
        Reply)
        requires
            old(self).well_formed(),
            then.fits(),
        ensures
            final(self).well_formed(),
            old(self)@.uses_content(
                then,
                old(content)@,
                time,
                final(self)@,
                final(content)@,
                reply,
            ),
    {
        let ghost before = *self;
        let ghost held = content@;
        match then {
            ContentUse::Read { offset, size } => Reply::Data(read_content(content, offset, size)),
            ContentUse::Write { ino, offset, data } => {
                if self.content_key(ino).is_none() {
                    return Reply::Error(Errno::ENOSYS);
                }
                let grown = write_content(content, offset, &data);
                match self.files.entry(ino) {
                    Entry::Occupied(entry) => {
                        let file = entry.into_mut();
                        file.attr.update_mtime(time);
                        file.attr.update_ctime(time);
                        if grown {
                            file.attr.size = content.len() as u64;
                        }
                    },
                    Entry::Vacant(_) => {},
                }
                proof {
                    let attr = before@.attr_written(ino, held.len(), offset as int, data@, time);
                    assert(self@ =~= before@.with_attr(ino, attr));
                    lemma_with_file_well_formed(before@, ino, self@.files[ino]);
                }
                Reply::Written(#[verifier::truncate] (data.len() as u32))
            },
            ContentUse::Setattr { ino, change } => {
                match (self.content_key(ino), change.size) {
                    (Some(_), Some(size)) => {
                        resize_content(content, size);
                        self.change_attr(ino, &change, Some(size), time)
                    },
                    _ => Reply::Error(Errno::ENOSYS),
                }
            },
        }
    }

    /// Uses the content of a file.
    pub fn use_content(&mut self, then: ContentUse, content: &mut Vec<u8>) -> (reply: Reply)
        requires
            old(self).well_formed(),
            then.fits(),
        ensures
            final(self).well_formed(),
            exists|time: Timespec|
                time.valid() && #[trigger] old(self)@.uses_content(
                    then,
                    old(content)@,
                    time,
                    final(self)@,
                    final(content)@,
                    reply,
                ),
    {
        let time = time_now();
        self.use_content_at(then, content, time)
    }

    /// Makes an empty file in `parent`.
    pub fn create(&mut self, parent: u64, name: Vec<u8>, uid: u32, gid: u32, flags: u32) -> (step: Step)
        requires
            old(self).well_formed(),
            old(self).inode_max < u64::MAX,
        ensures
            final(self).well_formed(),
            step matches Step::StoreEmpty { key, reply } && is_random_key(key) && exists|
                created: Timespec,
                time: Timespec,
            |
                created.valid() && time.valid() && (final(self)@, reply) == #[trigger] old(self)@.create(
                    parent,
                    name@,
                    uid,
                    gid,
                    flags,
                    key,
                    created,
                    time,
                ),
    {
        let key = uuid_new_v4();
        let created = time_now();
        let time = time_now();
        let reply = self.create_at(parent, name, uid, gid, flags, key, created, time);
        Step::StoreEmpty { key, reply }
    }
}

} // verus!
