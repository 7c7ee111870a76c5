//! The requests of the kernel, from their arrival to their answer.

use vstd::prelude::*;

use crate::clock::{time_now, Timespec};
use crate::directory::is_upward;
use crate::filesystem::{FileSystemData, FsView, ROOT};
use crate::github_api::TreeItem;
use crate::operation::{
    ContentUse, DirectoryUse, Errno, Fetch, HandlerError, Message, Operation, Reply, Step,
};

verus! {

use crate::clock::all_valid;
use crate::content_key::is_random_key;
use crate::directory::{item_fetches, upward};

broadcast use vstd::std_specs::hash::group_hash_axioms;

/// The answer to a request for which the table is not needed, if it is one.
pub open spec fn at_once(operation: Operation) -> Option<Reply> {
    match operation {
        Operation::Open { ino: _, flags } | Operation::Opendir { ino: _, flags } => Some(
            Reply::Opened { fh: 0, flags },
        ),
        Operation::Forget { .. } => Some(Reply::Nothing),
        Operation::Flush { .. }
        | Operation::Release { .. }
        | Operation::Releasedir { .. }
        | Operation::Access { .. } => Some(Reply::Done),
        Operation::Statfs { .. } => Some(
            Reply::Statfs {
                blocks: 0,
                bfree: 0,
                bavail: 0,
                files: 0,
                ffree: 0,
                bsize: 512,
                namelen: 255,
                frsize: 0,
            },
        ),
        Operation::Readlink { .. }
        | Operation::Mknod { .. }
        | Operation::Symlink { .. }
        | Operation::Link { .. }
        | Operation::Fsync { .. }
        | Operation::Fsyncdir { .. }
        | Operation::Setxattr { .. }
        | Operation::Getxattr { .. }
        | Operation::Listxattr { .. }
        | Operation::Removexattr { .. }
        | Operation::Getlk { .. }
        | Operation::Setlk { .. }
        | Operation::Bmap { .. } => Some(Reply::Error(Errno::ENOSYS)),
        _ => None,
    }
}

impl FsView {
    /// Whether the use of a directory whose entries are known may end in the table `after` and be
    /// answered with `reply`.
    pub open spec fn uses_directory(self, then: DirectoryUse, after: FsView, reply: Reply) -> bool {
        match then {
            DirectoryUse::Lookup { parent, name } => exists|found: Option<u64>| #[trigger]
                self.finds(parent, name@, found) && (after, reply) == self.looked_up(found),
            DirectoryUse::Readdir { ino, offset } => exists|time: Timespec|
                time.valid() && #[trigger] self.reads_directory(ino, offset as int, time, after, reply),
        }
    }

    /// Whether a request that has waited for the entries of `directory`, which are `items`, may end in
    /// the table `after` and be answered with `reply`.
    pub open spec fn goes_on(
        self,
        directory: u64,
        items: Seq<TreeItem>,
        uid: u32,
        gid: u32,
        then: DirectoryUse,
        after: FsView,
        reply: Reply,
    ) -> bool {
        exists|loaded: FsView| #[trigger]
            self.may_load(directory, items, uid, gid, loaded) && loaded.uses_directory(
                then,
                after,
                reply,
            )
    }

    /// Whether a request that needs the entries of a directory may end in the table `after` with
    /// the result `result`: the entries are waited for if they are on their way, and only then.
    pub open spec fn asks_directory(
        self,
        then: DirectoryUse,
        after: FsView,
        result: Result<Step, HandlerError>,
    ) -> bool {
        let ino = then.directory();
        if !self.files.contains_key(ino) {
            after == self && result == Err::<Step, HandlerError>(HandlerError::NoSuchDirectory)
        } else if self.awaits_entries(ino) {
            after == self.opened(ino) && result == Ok::<Step, HandlerError>(
                Step::AwaitDirectory { ino, then },
            )
        } else {
            result matches Ok(Step::Finished(reply)) && self.uses_directory(then, after, reply)
        }
    }

    /// Whether `message` may end in the table `after` with the result `result`.
    pub open spec fn handles(
        self,
        message: Message,
        after: FsView,
        result: Result<Step, HandlerError>,
    ) -> bool {
        match message.operation {
            Operation::Lookup { parent, name } => if parent == ROOT && name@ == upward() {
                &&& after == self
                &&& result == Ok::<Step, HandlerError>(Step::Finished(self.root_entry()))
            } else {
                self.asks_directory(DirectoryUse::Lookup { parent, name }, after, result)
            },
            Operation::Readdir { ino, fh: _, offset } => self.asks_directory(
                DirectoryUse::Readdir { ino, offset },
                after,
                result,
            ),
            Operation::Getattr { ino } => {
                &&& after == self
                &&& result == Ok::<Step, HandlerError>(Step::Finished(self.getattr(ino)))
            },
            Operation::Setattr { ino, change } => result matches Ok(step) && exists|time: Timespec|
                time.valid() && (after, step) == #[trigger] self.setattr(ino, change, time),
            Operation::Mkdir { parent, name, mode: _ } => result matches Ok(Step::Finished(reply))
                && exists|created: Timespec, time: Timespec|
                created.valid() && time.valid() && (after, reply) == #[trigger] self.mkdir(
                    parent,
                    name@,
                    message.uid,
                    message.gid,
                    created,
                    time,
                ),
            Operation::Create { parent, name, mode: _, flags } => result matches Ok(
                Step::StoreEmpty { key, reply },
            ) && is_random_key(key) && exists|created: Timespec, time: Timespec|
                created.valid() && time.valid() && (after, reply) == #[trigger] self.create(
                    parent,
                    name@,
                    message.uid,
                    message.gid,
                    flags,
                    key,
                    created,
                    time,
                ),
            Operation::Unlink { parent, name } => result matches Ok(Step::Finished(reply))
                && exists|found: Option<u64>, time: Timespec|
                time.valid() && self.finds(parent, name@, found) && (after, reply) == #[trigger] self.unlink(
                    parent,
                    found,
                    time,
                ),
            Operation::Rmdir { parent, name } => result matches Ok(Step::Finished(reply))
                && exists|found: Option<u64>, time: Timespec|
                time.valid() && self.finds(parent, name@, found) && (after, reply) == #[trigger] self.rmdir(
                    parent,
                    found,
                    time,
                ),
            Operation::Rename { parent, name, newparent, newname } => result matches Ok(
                Step::Finished(reply),
            ) && exists|found: Option<u64>, time: Timespec|
                time.valid() && self.finds(parent, name@, found) && (after, reply) == #[trigger] self.rename(
                    parent,
                    found,
                    newparent,
                    newname@,
                    time,
                ),
            Operation::Read { ino, fh: _, offset, size } => result matches Ok(step)
                && self.may_ask_content(ino, ContentUse::Read { offset, size }, after, step),
            Operation::Write { ino, fh: _, offset, data, flags: _ } => result matches Ok(step)
                && self.may_ask_content(ino, ContentUse::Write { ino, offset, data }, after, step),
            other => {
                &&& after == self
                &&& result == Ok::<Step, HandlerError>(Step::Finished(at_once(other)->0))
            },
        }
    }

    /// The answer to a request that can be given without changing the table, if it is one.
    pub open spec fn by_looking(self, operation: Operation) -> Option<Reply> {
        match operation {
            Operation::Getattr { ino } => Some(self.getattr(ino)),
            Operation::Lookup { parent, name } if parent == ROOT && name@ == upward() => Some(
                self.root_entry(),
            ),
            _ => None,
        }
    }

    /// The answer to a request for the directory that the root is in, which is the root.
    pub open spec fn root_entry(self) -> Reply {
        Reply::Entry {
            ttl: Timespec::seconds(1),
            attr: self.files[ROOT].attr.told(),
            generation: 0,
        }
    }
}

/// Answers a request for which the table is not needed, if it is one.
pub fn answer_at_once(operation: &Operation) -> (reply: Option<Reply>)
    ensures
        reply == at_once(*operation),
{
    match operation {
        Operation::Open { ino: _, flags } => Some(Reply::Opened { fh: 0, flags: *flags }),
        Operation::Opendir { ino: _, flags } => Some(Reply::Opened { fh: 0, flags: *flags }),
        Operation::Forget { .. } => Some(Reply::Nothing),
        Operation::Flush { .. } => Some(Reply::Done),
        Operation::Release { .. } => Some(Reply::Done),
        Operation::Releasedir { .. } => Some(Reply::Done),
        Operation::Access { .. } => Some(Reply::Done),
        Operation::Statfs { .. } => Some(
            Reply::Statfs {
                blocks: 0,
                bfree: 0,
                bavail: 0,
                files: 0,
                ffree: 0,
                bsize: 512,
                namelen: 255,
                frsize: 0,
            },
        ),
        Operation::Readlink { .. } => Some(Reply::Error(Errno::ENOSYS)),
        Operation::Mknod { .. } => Some(Reply::Error(Errno::ENOSYS)),
        Operation::Symlink { .. } => Some(Reply::Error(Errno::ENOSYS)),
        Operation::Link { .. } => Some(Reply::Error(Errno::ENOSYS)),
        Operation::Fsync { .. } => Some(Reply::Error(Errno::ENOSYS)),
        Operation::Fsyncdir { .. } => Some(Reply::Error(Errno::ENOSYS)),
        Operation::Setxattr { .. } => Some(Reply::Error(Errno::ENOSYS)),
        Operation::Getxattr { .. } => Some(Reply::Error(Errno::ENOSYS)),
        Operation::Listxattr { .. } => Some(Reply::Error(Errno::ENOSYS)),
        Operation::Removexattr { .. } => Some(Reply::Error(Errno::ENOSYS)),
        Operation::Getlk { .. } => Some(Reply::Error(Errno::ENOSYS)),
        Operation::Setlk { .. } => Some(Reply::Error(Errno::ENOSYS)),
        Operation::Bmap { .. } => Some(Reply::Error(Errno::ENOSYS)),
        _ => None,
    }
}

impl FileSystemData {
    /// Answers a request for the directory that the root is in.
    fn root_entry(&self) -> (reply: Reply)
        requires
            self.well_formed(),
        ensures
            reply == self@.root_entry(),
    {
        let file = self.files.get(&ROOT).unwrap();
        Reply::Entry { ttl: Timespec::new(1, 0), attr: file.attr(), generation: 0 }
    }

    /// Answers a request that does not change the table, if it is one.
    pub fn answer_by_looking(&self, operation: &Operation) -> (reply: Option<Reply>)
        requires
            self.well_formed(),
        ensures
            reply == self@.by_looking(*operation),
    {
        match operation {
            Operation::Getattr { ino } => Some(self.getattr(*ino)),
            Operation::Lookup { parent, name } => {
                if *parent == ROOT && is_upward(name) {
                    Some(self.root_entry())
                } else {
                    None
                }
            },
            _ => None,
        }
    }

    /// Uses a directory whose entries are known.
    pub fn use_directory(&mut self, then: DirectoryUse) -> (reply: Reply)
        requires
            old(self).well_formed(),
        ensures
            final(self).well_formed(),
            old(self)@.uses_directory(then, final(self)@, reply),
    {
        match then {
            DirectoryUse::Lookup { parent, name } => self.lookup_loaded(parent, &name),
            DirectoryUse::Readdir { ino, offset } => {
                let time = time_now();
                self.readdir_loaded_at(ino, offset, time)
            },
        }
    }

    /// Uses a directory, or tells that its entries are to be waited for.
    pub fn ask_directory(&mut self, then: DirectoryUse) -> (result: Result<Step, HandlerError>)
        requires
            old(self).well_formed(),
        ensures
            final(self).well_formed(),
            old(self)@.asks_directory(then, final(self)@, result),
    {
        let ino = match then {
            DirectoryUse::Lookup { parent, name: _ } => parent,
            DirectoryUse::Readdir { ino, offset: _ } => ino,
        };
        if !self.files.contains_key(&ino) {
            return Err(HandlerError::NoSuchDirectory);
        }
        if self.open_directory(ino) {
            Ok(Step::AwaitDirectory { ino, then })
        } else {
            let reply = self.use_directory(then);
            Ok(Step::Finished(reply))
        }
    }

    /// Goes on with a request that has waited for the entries of `directory`, which are `items`:
    /// tells which transfers to start, and the answer.
    pub fn entries_arrived(
        &mut self,
        directory: u64,
        items: Vec<TreeItem>,
        uid: u32,
        gid: u32,
        then: DirectoryUse,
    ) -> (result: (Vec<Fetch>, Reply))
        requires
            old(self).well_formed(),
            old(self).inode_max + items@.len() <= u64::MAX,
        ensures
            final(self).well_formed(),
            result.0@ == item_fetches(items@, old(self).inode_max),
            old(self)@.goes_on(directory, items@, uid, gid, then, final(self)@, result.1),
            exists|times: Seq<Timespec>|
                times.len() == items@.len() && all_valid(times) && (#[trigger] old(self)@.loaded(
                    directory,
                    items@,
                    uid,
                    gid,
                    times,
                )).uses_directory(then, final(self)@, result.1),
    {
        let fetches = self.load_directory(directory, items, uid, gid);
        let reply = self.use_directory(then);
        (fetches, reply)
    }
}

/// Takes a request as far as it goes without waiting.
pub fn message_handler_inner(message: Message, resources: &mut FileSystemData) -> (result: Result<
    Step,
    HandlerError,
>)
    requires
        old(resources).well_formed(),
        message.operation is Mkdir || message.operation is Create ==> old(resources).inode_max
            < u64::MAX,
    ensures
        final(resources).well_formed(),
        old(resources)@.handles(message, final(resources)@, result),
{
    let Message { unique: _, uid, gid, pid: _, operation } = message;
    let step = match operation {
        Operation::Lookup { parent, name } => {
            if parent == ROOT && is_upward(&name) {
                Step::Finished(resources.root_entry())
            } else {
                return resources.ask_directory(DirectoryUse::Lookup { parent, name });
            }
        },
        Operation::Readdir { ino, fh: _, offset } => {
            return resources.ask_directory(DirectoryUse::Readdir { ino, offset });
        },
        Operation::Getattr { ino } => Step::Finished(resources.getattr(ino)),
        Operation::Setattr { ino, change } => resources.setattr(ino, change),
        Operation::Mkdir { parent, name, mode: _ } => Step::Finished(
            resources.mkdir(parent, name, uid, gid),
        ),
        Operation::Create { parent, name, mode: _, flags } => resources.create(
            parent,
            name,
            uid,
            gid,
            flags,
        ),
        Operation::Unlink { parent, name } => Step::Finished(resources.unlink(parent, &name)),
        Operation::Rmdir { parent, name } => Step::Finished(resources.rmdir(parent, &name)),
        Operation::Rename { parent, name, newparent, newname } => Step::Finished(
            resources.rename(parent, &name, newparent, newname),
        ),
        Operation::Read { ino, fh: _, offset, size } => resources.ask_content(
            ino,
            ContentUse::Read { offset, size },
        ),
        Operation::Write { ino, fh: _, offset, data, flags: _ } => resources.ask_content(
            ino,
            ContentUse::Write { ino, offset, data },
        ),
        other => Step::Finished(answer_at_once(&other).unwrap()),
    };
    Ok(step)
}

} // verus!
