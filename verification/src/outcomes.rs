//! What each request comes to, said of the files, the names, the attributes and the bytes themselves.

use vstd::prelude::*;

use crate::clock::Timespec;
use crate::file::{DataView, EditableFileAttr, FileAttr, FileType, GitHubFileData};
use crate::filesystem::{FileSystemData, FsView};
use crate::github_api::TreeItem;
use crate::operation::{
    AttrChange, ContentUse, DirectoryEntry, DirectoryUse, Errno, Fetch, HandlerError, Message,
    Operation, Reply, Step,
};

verus! {

use crate::content_key::is_random_key;
use crate::clock::all_valid;
use crate::directory::{item_fetches, item_file, lemma_loaded_well_formed, listing_from, numbered};
use vstd::utf8::encode_utf8;

/// Whether `child` is on the list of `directory`.
pub open spec fn lists_child(fs: FsView, directory: u64, child: u64) -> bool {
    fs.children.contains_key(directory) && fs.children[directory].contains(child)
}

/// Whether `ino` is a file in `directory`, and its name is `name`.
pub open spec fn bears(fs: FsView, directory: u64, name: Seq<u8>, ino: u64) -> bool {
    lists_child(fs, directory, ino) && fs.files.contains_key(ino) && fs.files[ino].name == name
}

/// Whether `ino` is the one file in `directory` whose name is `name`.
pub open spec fn alone_bears(fs: FsView, directory: u64, name: Seq<u8>, ino: u64) -> bool {
    &&& bears(fs, directory, name, ino)
    &&& forall|other: u64| #[trigger] bears(fs, directory, name, other) ==> other == ino
}

/// Whether no file in `directory` has the name `name`.
pub open spec fn nobody_bears(fs: FsView, directory: u64, name: Seq<u8>) -> bool {
    forall|ino: u64| !#[trigger] bears(fs, directory, name, ino)
}

/// Whether `told` says of each attribute what is kept in `kept`.
pub open spec fn tells_all(told: FileAttr, kept: EditableFileAttr) -> bool {
    &&& told.ino == kept.ino
    &&& told.size == kept.size
    &&& told.blocks == kept.blocks
    &&& told.atime == kept.atime
    &&& told.mtime == kept.mtime
    &&& told.ctime == kept.ctime
    &&& told.crtime == kept.crtime
    &&& told.kind == kept.kind
    &&& told.perm == kept.perm
    &&& told.nlink == kept.nlink
    &&& told.uid == kept.uid
    &&& told.gid == kept.gid
    &&& told.rdev == kept.rdev
    &&& told.flags == kept.flags
}

/// Whether the request ended with `reply`.
pub open spec fn ended_with(result: Result<Step, HandlerError>, reply: Reply) -> bool {
    result == Ok::<Step, HandlerError>(Step::Finished(reply))
}

/// Whether nothing but the file `ino` may differ between two tables.
pub open spec fn differ_in_one_file(before: FsView, after: FsView, ino: u64) -> bool {
    &&& after.children == before.children
    &&& after.inode_max == before.inode_max
    &&& forall|k: u64| after.files.contains_key(k) <==> before.files.contains_key(k)
    &&& forall|k: u64|
        k != ino && #[trigger] after.files.contains_key(k) ==> after.files[k] == before.files[k]
}

/// A read is answered with the bytes that stand at its offset: as many as were asked for, or all that
/// follow where there are fewer; with none where the offset is not in the content.  It changes
/// nothing.
pub proof fn law_read_gives_the_bytes(
    fs: FsView,
    offset: i64,
    size: u32,
    content: Seq<u8>,
    time: Timespec,
    after: FsView,
    left: Seq<u8>,
    reply: Reply,
)
    requires
        fs.uses_content(ContentUse::Read { offset, size }, content, time, after, left, reply),
    ensures
        after == fs,
        left == content,
        reply is Data,
        0 <= offset < content.len() ==> reply->Data_0@.len() == (if size < content.len() - offset {
            size as int
        } else {
            content.len() - offset
        }),
        !(0 <= offset < content.len()) ==> reply->Data_0@.len() == 0,
        forall|i: int|
            0 <= i < reply->Data_0@.len() ==> #[trigger] reply->Data_0@[i] == content[offset + i],
        offset == 0 && content.len() <= size ==> reply->Data_0@ == content,
{
    if offset == 0 && content.len() <= size {
        assert(reply->Data_0@ =~= content);
    }
}

/// Two reads that follow each other give together what one read of both gives.
pub proof fn law_reads_join(
    fs: FsView,
    offset: i64,
    first: u32,
    second: u32,
    content: Seq<u8>,
    time: Timespec,
    a: (FsView, Seq<u8>, Reply),
    b: (FsView, Seq<u8>, Reply),
    both: (FsView, Seq<u8>, Reply),
)
    requires
        0 <= offset,
        offset + first <= i64::MAX,
        first + second <= u32::MAX,
        fs.uses_content(ContentUse::Read { offset, size: first }, content, time, a.0, a.1, a.2),
        fs.uses_content(
            ContentUse::Read { offset: (offset + first) as i64, size: second },
            content,
            time,
            b.0,
            b.1,
            b.2,
        ),
        fs.uses_content(
            ContentUse::Read { offset, size: (first + second) as u32 },
            content,
            time,
            both.0,
            both.1,
            both.2,
        ),
    ensures
        a.2->Data_0@ + b.2->Data_0@ == both.2->Data_0@,
{
    assert(a.2->Data_0@ + b.2->Data_0@ =~= both.2->Data_0@);
}

/// A write to a file with a content puts its bytes at its offset and leaves all others where they
/// are; where it goes beyond the end the content grows, and what lies between is zero.  The file's
/// size follows the content only where it grew, its times are those of the write, and nothing else
/// of it, and no other file, is changed.
pub proof fn law_write_puts_the_bytes(
    fs: FsView,
    ino: u64,
    offset: i64,
    data: Vec<u8>,
    content: Seq<u8>,
    time: Timespec,
    after: FsView,
    left: Seq<u8>,
    reply: Reply,
)
    requires
        fs.uses_content(ContentUse::Write { ino, offset, data }, content, time, after, left, reply),
        fs.files.contains_key(ino),
        fs.files[ino].data is Raw,
        0 <= offset,
        offset + data@.len() <= isize::MAX,
    ensures
        reply == Reply::Written(data@.len() as u32),
        left.len() == (if content.len() < offset + data@.len() {
            offset + data@.len()
        } else {
            content.len() as int
        }),
        forall|i: int| 0 <= i < data@.len() ==> #[trigger] left[offset + i] == data@[i],
        forall|i: int|
            0 <= i < left.len() && !(offset <= i < offset + data@.len()) ==> #[trigger] left[i] == (
            if i < content.len() {
                content[i]
            } else {
                0u8
            }),
        differ_in_one_file(fs, after, ino),
        after.files[ino].name == fs.files[ino].name,
        after.files[ino].parent == fs.files[ino].parent,
        after.files[ino].data == fs.files[ino].data,
        after.files[ino].lookup_count == fs.files[ino].lookup_count,
        after.files[ino].removed == fs.files[ino].removed,
        after.files[ino].attr.size == (if content.len() < offset + data@.len() {
            offset + data@.len()
        } else {
            fs.files[ino].attr.size as int
        }),
        after.files[ino].attr.mtime == time,
        after.files[ino].attr.ctime == time,
        after.files[ino].attr == (EditableFileAttr {
            size: after.files[ino].attr.size,
            mtime: time,
            ctime: time,
            ..fs.files[ino].attr
        }),
{
}

/// A write or a resizing is refused, and changes nothing, where there is no file with a content.
pub proof fn law_no_content_no_change(
    fs: FsView,
    ino: u64,
    then: ContentUse,
    content: Seq<u8>,
    time: Timespec,
    after: FsView,
    left: Seq<u8>,
    reply: Reply,
)
    requires
        fs.uses_content(then, content, time, after, left, reply),
        match then {
            ContentUse::Read { offset: _, size: _ } => false,
            ContentUse::Write { ino: of, offset: _, data: _ } => of == ino,
            ContentUse::Setattr { ino: of, change: _ } => of == ino,
        },
        !(fs.files.contains_key(ino) && fs.files[ino].data is Raw),
    ensures
        after == fs,
        left == content,
        reply == Reply::Error(Errno::ENOSYS),
{
}

/// What becomes of each attribute in a change, but for the size and the time of the last
/// modification.
pub open spec fn follows_change(
    old_attr: EditableFileAttr,
    change: AttrChange,
    new_attr: EditableFileAttr,
) -> bool {
    &&& new_attr.ino == old_attr.ino
    &&& new_attr.blocks == old_attr.blocks
    &&& new_attr.kind == old_attr.kind
    &&& new_attr.nlink == old_attr.nlink
    &&& new_attr.rdev == old_attr.rdev
    &&& change.mode matches Some(mode) ==> new_attr.perm == mode as u16
    &&& change.mode is None ==> new_attr.perm == old_attr.perm
    &&& change.uid matches Some(uid) ==> new_attr.uid == uid
    &&& change.uid is None ==> new_attr.uid == old_attr.uid
    &&& change.gid matches Some(gid) ==> new_attr.gid == gid
    &&& change.gid is None ==> new_attr.gid == old_attr.gid
    &&& change.atime matches Some(atime) ==> new_attr.atime == atime
    &&& change.atime is None ==> new_attr.atime == old_attr.atime
    &&& change.crtime matches Some(crtime) ==> new_attr.crtime == crtime
    &&& change.crtime is None ==> new_attr.crtime == old_attr.crtime
    &&& change.flags matches Some(flags) ==> new_attr.flags == flags
    &&& change.flags is None ==> new_attr.flags == old_attr.flags
}

/// A resizing keeps the start of the content, as far as there is one and room for it, and fills up
/// with zeros.  The file gets the size that was asked for and the other attributes that were given,
/// and no other file is changed.
pub proof fn law_resize_keeps_the_bytes(
    fs: FsView,
    ino: u64,
    change: AttrChange,
    size: u64,
    content: Seq<u8>,
    time: Timespec,
    after: FsView,
    left: Seq<u8>,
    reply: Reply,
)
    requires
        fs.uses_content(ContentUse::Setattr { ino, change }, content, time, after, left, reply),
        fs.files.contains_key(ino),
        fs.files[ino].data is Raw,
        change.size == Some(size),
    ensures
        left.len() == size,
        forall|i: int|
            0 <= i < left.len() ==> #[trigger] left[i] == (if i < content.len() {
                content[i]
            } else {
                0u8
            }),
        differ_in_one_file(fs, after, ino),
        after.files[ino].name == fs.files[ino].name,
        after.files[ino].parent == fs.files[ino].parent,
        after.files[ino].data == fs.files[ino].data,
        after.files[ino].lookup_count == fs.files[ino].lookup_count,
        after.files[ino].removed == fs.files[ino].removed,
        follows_change(fs.files[ino].attr, change, after.files[ino].attr),
        after.files[ino].attr.size == size,
        change.mtime matches Some(mtime) ==> after.files[ino].attr.mtime == mtime,
        change.mtime is None ==> after.files[ino].attr.mtime == time,
        after.files[ino].attr.ctime == time,
        reply matches Reply::Attr { ttl, attr } && ttl.sec == 1 && ttl.nsec == 0 && tells_all(
            attr,
            after.files[ino].attr,
        ),
{
}

/// A question for the attributes of a file is answered with all of them; of what is not there, it is
/// refused.
pub proof fn law_getattr_tells_the_attributes(
    fs: FsView,
    message: Message,
    ino: u64,
    after: FsView,
    result: Result<Step, HandlerError>,
)
    requires
        message.operation == (Operation::Getattr { ino }),
        fs.handles(message, after, result),
    ensures
        after == fs,
        fs.files.contains_key(ino) ==> (result matches Ok(Step::Finished(Reply::Attr { ttl, attr }))
            && ttl.sec == 1 && ttl.nsec == 0 && tells_all(attr, fs.files[ino].attr)),
        !fs.files.contains_key(ino) ==> ended_with(result, Reply::Error(Errno::ENOSYS)),
{
}

/// A change of attributes sets what was given and notes the time, unless it asks for a new size of a
/// file with a content: then it asks for that content.  The size of what has no content of its own
/// stays.  Of what is not there, it is refused.
pub proof fn law_setattr_changes_what_is_given(
    fs: FsView,
    message: Message,
    ino: u64,
    change: AttrChange,
    after: FsView,
    result: Result<Step, HandlerError>,
)
    requires
        message.operation == (Operation::Setattr { ino, change }),
        fs.handles(message, after, result),
    ensures
        !fs.files.contains_key(ino) ==> after == fs && ended_with(
            result,
            Reply::Error(Errno::ENOSYS),
        ),
        fs.files.contains_key(ino) ==> {
            let file = fs.files[ino];
            let resizes = file.data is Raw && change.size is Some && change.size->0 != file.attr.size;
            &&& resizes ==> after == fs && result == Ok::<Step, HandlerError>(
                Step::UseContent {
                    key: file.data->Raw_0,
                    then: ContentUse::Setattr { ino, change },
                },
            )
            &&& !resizes ==> {
                let new_attr = after.files[ino].attr;
                &&& differ_in_one_file(fs, after, ino)
                &&& after.files[ino].name == file.name
                &&& after.files[ino].parent == file.parent
                &&& after.files[ino].data == file.data
                &&& after.files[ino].lookup_count == file.lookup_count
                &&& after.files[ino].removed == file.removed
                &&& follows_change(file.attr, change, new_attr)
                &&& new_attr.size == file.attr.size
                &&& change.mtime matches Some(mtime) ==> new_attr.mtime == mtime
                &&& change.mtime is None ==> new_attr.mtime == file.attr.mtime
                &&& 0 <= new_attr.ctime.nsec < 1_000_000_000
                &&& result matches Ok(Step::Finished(Reply::Attr { ttl, attr })) && ttl.sec == 1
                    && ttl.nsec == 0 && tells_all(attr, new_attr)
            }
        },
{
}

/// What a directory that is modified keeps: all but the times of its last modification and change.
pub open spec fn only_touched(fs: FsView, after: FsView, ino: u64) -> bool {
    &&& after.files[ino].name == fs.files[ino].name
    &&& after.files[ino].parent == fs.files[ino].parent
    &&& after.files[ino].data == fs.files[ino].data
    &&& after.files[ino].lookup_count == fs.files[ino].lookup_count
    &&& after.files[ino].removed == fs.files[ino].removed
    &&& after.files[ino].attr.mtime == after.files[ino].attr.ctime
    &&& 0 <= after.files[ino].attr.mtime.nsec < 1_000_000_000
    &&& after.files[ino].attr == (EditableFileAttr {
        mtime: after.files[ino].attr.mtime,
        ctime: after.files[ino].attr.ctime,
        ..fs.files[ino].attr
    })
}

/// Whether `after` is `fs` with one more file, under the next number and listed in `parent`, which is
/// modified if it is there.
pub open spec fn has_one_more(fs: FsView, after: FsView, parent: u64) -> bool {
    let ino = fs.inode_max;
    &&& after.inode_max == fs.inode_max + 1
    &&& !fs.files.contains_key(ino)
    &&& forall|k: u64| #[trigger]
        after.files.contains_key(k) <==> k == ino || fs.files.contains_key(k)
    &&& forall|k: u64| #[trigger]
        fs.files.contains_key(k) && k != parent ==> after.files[k] == fs.files[k]
    &&& fs.files.contains_key(parent) ==> only_touched(fs, after, parent)
    &&& forall|directory: u64, child: u64| #[trigger]
        lists_child(after, directory, child) <==> lists_child(fs, directory, child) || (directory
            == parent && child == ino)
}

/// Whether `attr` are those of a file that was made just now.
pub open spec fn just_made(
    attr: EditableFileAttr,
    ino: u64,
    size: u64,
    kind: FileType,
    perm: u16,
    uid: u32,
    gid: u32,
) -> bool {
    &&& attr.ino == ino
    &&& attr.size == size
    &&& attr.kind == kind
    &&& attr.perm == perm
    &&& attr.uid == uid
    &&& attr.gid == gid
    &&& attr.blocks == 0
    &&& attr.nlink == 0
    &&& attr.rdev == 0
    &&& attr.flags == 0
    &&& attr.atime == attr.crtime
    &&& attr.mtime == attr.crtime
    &&& attr.ctime == attr.crtime
    &&& 0 <= attr.crtime.nsec < 1_000_000_000
}

/// A request for a directory makes an empty one under the given name, which belongs to who asked for
/// it, and is answered with its attributes.
pub proof fn law_mkdir_makes_a_directory(
    fs: FsView,
    message: Message,
    parent: u64,
    name: Vec<u8>,
    mode: u32,
    after: FsView,
    result: Result<Step, HandlerError>,
)
    requires
        fs.well_formed(),
        fs.inode_max < u64::MAX,
        parent != fs.inode_max,
        message.operation == (Operation::Mkdir { parent, name, mode }),
        fs.handles(message, after, result),
    ensures
        has_one_more(fs, after, parent),
        ({
            let ino = fs.inode_max;
            let file = after.files[ino];
            &&& bears(after, parent, name@, ino)
            &&& file.parent == parent
            &&& file.data == DataView::Nothing
            &&& file.lookup_count == 0
            &&& !file.removed
            &&& just_made(
                file.attr,
                ino,
                0,
                FileType::Directory,
                0o775,
                message.uid,
                message.gid,
            )
            &&& result matches Ok(Step::Finished(Reply::Entry { ttl, attr, generation })) && ttl.sec
                == 1 && ttl.nsec == 0 && generation == 0 && tells_all(attr, file.attr)
        }),
{
}

/// A request for a file makes an empty one under the given name, which belongs to who asked for it;
/// its content is to be kept under a random key, and it is answered with its attributes and the flags
/// that were asked for.
pub proof fn law_create_makes_a_file(
    fs: FsView,
    message: Message,
    parent: u64,
    name: Vec<u8>,
    mode: u32,
    flags: u32,
    after: FsView,
    result: Result<Step, HandlerError>,
)
    requires
        fs.well_formed(),
        fs.inode_max < u64::MAX,
        parent != fs.inode_max,
        message.operation == (Operation::Create { parent, name, mode, flags }),
        fs.handles(message, after, result),
    ensures
        has_one_more(fs, after, parent),
        ({
            let ino = fs.inode_max;
            let file = after.files[ino];
            &&& bears(after, parent, name@, ino)
            &&& file.parent == parent
            &&& file.data is Raw
            &&& is_random_key(file.data->Raw_0)
            &&& file.lookup_count == 0
            &&& !file.removed
            &&& just_made(
                file.attr,
                ino,
                0,
                FileType::RegularFile,
                0o664,
                message.uid,
                message.gid,
            )
            &&& result matches Ok(
                Step::StoreEmpty {
                    key,
                    reply: Reply::Created { ttl, attr, generation, fh, flags: given },
                },
            ) && key == file.data->Raw_0 && ttl.sec == 1 && ttl.nsec == 0 && generation == 0 && fh == 0
                && given == flags && tells_all(attr, file.attr)
        }),
{
}

/// Whether `after` is `fs` without the file `ino`; the directory that it was in is modified if it is
/// there.
pub open spec fn has_one_less(fs: FsView, after: FsView, parent: u64, ino: u64) -> bool {
    &&& after.inode_max == fs.inode_max
    &&& after.children == fs.children
    &&& forall|k: u64| #[trigger]
        after.files.contains_key(k) <==> k != ino && fs.files.contains_key(k)
    &&& forall|k: u64| #[trigger]
        after.files.contains_key(k) && k != parent ==> after.files[k] == fs.files[k]
    &&& after.files.contains_key(parent) ==> only_touched(fs, after, parent)
}

/// Whether `ino` is a file that is not still on its way.
pub open spec fn is_removable_file(fs: FsView, ino: u64) -> bool {
    &&& fs.files[ino].data is Raw || fs.files[ino].data is Nothing
    &&& fs.files[ino].attr.kind == FileType::RegularFile
}

/// Whether `ino` is a directory whose entries are known.
pub open spec fn is_removable_directory(fs: FsView, ino: u64) -> bool {
    &&& fs.files[ino].data is Nothing
    &&& fs.files[ino].attr.kind == FileType::Directory
}

/// A request to remove a file removes it, if a file with that name is there that is neither a
/// directory nor still on its way.  It is refused, and changes nothing, if there is none, or what
/// was found is not such a file.
pub proof fn law_unlink_removes_a_file(
    fs: FsView,
    message: Message,
    parent: u64,
    name: Vec<u8>,
    ino: u64,
    after: FsView,
    result: Result<Step, HandlerError>,
)
    requires
        message.operation == (Operation::Unlink { parent, name }),
        fs.handles(message, after, result),
    ensures
        alone_bears(fs, parent, name@, ino) ==> {
            let removable = is_removable_file(fs, ino);
            &&& removable ==> ended_with(result, Reply::Done) && has_one_less(fs, after, parent, ino)
            &&& !removable ==> ended_with(result, Reply::Error(Errno::ENOSYS)) && after == fs
        },
        nobody_bears(fs, parent, name@) ==> ended_with(result, Reply::Error(Errno::ENOSYS)) && after
            == fs,
        ended_with(result, Reply::Done) || (ended_with(result, Reply::Error(Errno::ENOSYS)) && after
            == fs),
        ended_with(result, Reply::Done) ==> exists|of: u64| #[trigger]
            bears(fs, parent, name@, of) && is_removable_file(fs, of) && has_one_less(
                fs,
                after,
                parent,
                of,
            ),
        ended_with(result, Reply::Error(Errno::ENOSYS)) ==> nobody_bears(fs, parent, name@)
            || exists|of: u64| #[trigger]
            bears(fs, parent, name@, of) && !is_removable_file(fs, of),
{
    assert(fs.named(parent, name@, ino) == bears(fs, parent, name@, ino));
    let (found, time) = choose|found: Option<u64>, time: Timespec|
        time.valid() && fs.finds(parent, name@, found) && (after, result->Ok_0->Finished_0)
            == #[trigger] fs.unlink(parent, found, time);
    law_found_file_has_the_name(fs, parent, name@, ino, found);
}

/// A request to remove a directory removes it, if a directory with that name is there whose entries
/// are known.  It is refused, and changes nothing, if there is none, or what was found is not such a
/// directory.
pub proof fn law_rmdir_removes_a_directory(
    fs: FsView,
    message: Message,
    parent: u64,
    name: Vec<u8>,
    ino: u64,
    after: FsView,
    result: Result<Step, HandlerError>,
)
    requires
        message.operation == (Operation::Rmdir { parent, name }),
        fs.handles(message, after, result),
    ensures
        alone_bears(fs, parent, name@, ino) ==> {
            let removable = is_removable_directory(fs, ino);
            &&& removable ==> ended_with(result, Reply::Done) && has_one_less(fs, after, parent, ino)
            &&& !removable ==> ended_with(result, Reply::Error(Errno::ENOSYS)) && after == fs
        },
        nobody_bears(fs, parent, name@) ==> ended_with(result, Reply::Error(Errno::ENOSYS)) && after
            == fs,
        ended_with(result, Reply::Done) || (ended_with(result, Reply::Error(Errno::ENOSYS)) && after
            == fs),
        ended_with(result, Reply::Done) ==> exists|of: u64| #[trigger]
            bears(fs, parent, name@, of) && is_removable_directory(fs, of) && has_one_less(
                fs,
                after,
                parent,
                of,
            ),
        ended_with(result, Reply::Error(Errno::ENOSYS)) ==> nobody_bears(fs, parent, name@)
            || exists|of: u64| #[trigger]
            bears(fs, parent, name@, of) && !is_removable_directory(fs, of),
{
    assert(fs.named(parent, name@, ino) == bears(fs, parent, name@, ino));
    let (found, time) = choose|found: Option<u64>, time: Timespec|
        time.valid() && fs.finds(parent, name@, found) && (after, result->Ok_0->Finished_0)
            == #[trigger] fs.rmdir(parent, found, time);
    law_found_file_has_the_name(fs, parent, name@, ino, found);
}

/// Whether `after` is `fs` with the file `ino` in `newparent` under the name `newname`; the directory
/// that it was in, and the one that it is in now, are modified if they are there.
pub open spec fn has_moved(
    fs: FsView,
    after: FsView,
    parent: u64,
    ino: u64,
    newparent: u64,
    newname: Seq<u8>,
) -> bool {
    let old_file = fs.files[ino];
    let new_file = after.files[ino];
    &&& after.inode_max == fs.inode_max
    &&& forall|k: u64| #[trigger] after.files.contains_key(k) <==> fs.files.contains_key(k)
    &&& forall|k: u64| #[trigger]
        after.files.contains_key(k) && k != parent && k != newparent && k != ino ==> after.files[k]
            == fs.files[k]
    &&& fs.files.contains_key(parent) && parent != ino ==> only_touched(fs, after, parent)
    &&& fs.files.contains_key(newparent) && newparent != ino ==> only_touched(fs, after, newparent)
    &&& bears(after, newparent, newname, ino)
    &&& new_file.parent == newparent
    &&& new_file.data == old_file.data
    &&& new_file.lookup_count == old_file.lookup_count
    &&& new_file.removed == old_file.removed
    &&& 0 <= new_file.attr.ctime.nsec < 1_000_000_000
    &&& new_file.attr == (EditableFileAttr {
        ctime: new_file.attr.ctime,
        mtime: new_file.attr.mtime,
        ..old_file.attr
    })
    &&& ino != parent && ino != newparent ==> new_file.attr.mtime == old_file.attr.mtime
    &&& forall|directory: u64, child: u64| #[trigger]
        lists_child(after, directory, child) <==> if child == ino {
            directory == newparent
        } else {
            lists_child(fs, directory, child)
        }
}

/// A request to move a file or a directory moves it, if one with that name is there that is not still
/// on its way, be it a file or a directory.  It is refused, and changes nothing, if there is none, or
/// what was found is still on its way.
pub proof fn law_rename_moves_a_file(
    fs: FsView,
    message: Message,
    parent: u64,
    name: Vec<u8>,
    newparent: u64,
    newname: Vec<u8>,
    ino: u64,
    after: FsView,
    result: Result<Step, HandlerError>,
)
    requires
        fs.well_formed(),
        message.operation == (Operation::Rename { parent, name, newparent, newname }),
        fs.handles(message, after, result),
    ensures
        alone_bears(fs, parent, name@, ino) ==> {
            let data = fs.files[ino].data;
            let awaited = data is FetchingGitHubFile || data is FetchingGitHubDirectory;
            &&& !awaited ==> ended_with(result, Reply::Done) && has_moved(
                fs,
                after,
                parent,
                ino,
                newparent,
                newname@,
            )
            &&& awaited ==> ended_with(result, Reply::Error(Errno::ENOSYS)) && after == fs
        },
        nobody_bears(fs, parent, name@) ==> ended_with(result, Reply::Error(Errno::ENOSYS)) && after
            == fs,
        ended_with(result, Reply::Done) || (ended_with(result, Reply::Error(Errno::ENOSYS)) && after
            == fs),
        ended_with(result, Reply::Error(Errno::ENOSYS)) ==> nobody_bears(fs, parent, name@)
            || exists|of: u64| #[trigger]
            bears(fs, parent, name@, of) && (fs.files[of].data is FetchingGitHubFile
                || fs.files[of].data is FetchingGitHubDirectory),
        ended_with(result, Reply::Done) ==> exists|of: u64| #[trigger]
            bears(fs, parent, name@, of) && has_moved(fs, after, parent, of, newparent, newname@),
{
    assert(fs.named(parent, name@, ino) == bears(fs, parent, name@, ino));
    assert forall|k: u64| #[trigger] fs.named(parent, name@, k) == bears(fs, parent, name@, k) by {}
    let (found, time) = choose|found: Option<u64>, time: Timespec|
        time.valid() && fs.finds(parent, name@, found) && (after, result->Ok_0->Finished_0)
            == #[trigger] fs.rename(parent, found, newparent, newname@, time);
    if let Some(of) = found {
        assert(fs.named(parent, name@, of));
        assert(bears(fs, parent, name@, of));
        if ended_with(result, Reply::Done) {
            assert forall|directory: u64, child: u64| #[trigger]
                lists_child(after, directory, child) <==> if child == of {
                directory == newparent
            } else {
                lists_child(fs, directory, child)
            } by {
                assert(lists_child(fs, directory, child) == fs.listed(directory, child));
            }
            assert(has_moved(fs, after, parent, of, newparent, newname@));
        }
    } else {
        assert forall|k: u64| !#[trigger] bears(fs, parent, name@, k) by {
            assert(!fs.named(parent, name@, k));
        }
    }
}

/// Whether `name` is the one that leads from a directory to the one that it is in.
pub open spec fn is_dot_dot(name: Seq<u8>) -> bool {
    name.len() == 2 && name[0] == 46 && name[1] == 46
}

/// Whether nothing has changed but that the file `ino` was looked up once more.
pub open spec fn is_counted(fs: FsView, after: FsView, ino: u64) -> bool {
    &&& differ_in_one_file(fs, after, ino)
    &&& after.files[ino].attr == fs.files[ino].attr
    &&& after.files[ino].name == fs.files[ino].name
    &&& after.files[ino].parent == fs.files[ino].parent
    &&& after.files[ino].data == fs.files[ino].data
    &&& after.files[ino].removed == fs.files[ino].removed
    &&& after.files[ino].lookup_count == (if fs.files[ino].lookup_count == usize::MAX {
        0int
    } else {
        fs.files[ino].lookup_count + 1
    })
}

/// Whether a search for `name` in `directory`, whose entries are known, ended as it should: what is
/// there is told with all its attributes and is counted as looked up once more, and nothing else
/// changes; what is not there is not found, and nothing changes.
pub open spec fn searched(
    fs: FsView,
    directory: u64,
    name: Seq<u8>,
    ino: u64,
    after: FsView,
    reply: Reply,
) -> bool {
    &&& alone_bears(fs, directory, name, ino) ==> {
        &&& reply matches Reply::Entry { ttl, attr, generation } && ttl.sec == 0 && ttl.nsec == 0
            && generation == 0 && tells_all(attr, fs.files[ino].attr)
        &&& is_counted(fs, after, ino)
    }
    &&& nobody_bears(fs, directory, name) <==> reply == Reply::Error(Errno::ENOENT)
    &&& reply == Reply::Error(Errno::ENOENT) ==> after == fs
    &&& reply is Error || reply is Entry
    &&& reply matches Reply::Entry { ttl, attr, generation } ==> exists|of: u64| #[trigger]
        bears(fs, directory, name, of) && tells_all(attr, fs.files[of].attr) && is_counted(
            fs,
            after,
            of,
        )
}

/// A search in a directory whose entries are known finds the file that alone has the name, whatever
/// the name is, and finds nothing only where no file has it.
pub proof fn law_search_finds_the_file(
    fs: FsView,
    parent: u64,
    name: Vec<u8>,
    ino: u64,
    after: FsView,
    reply: Reply,
)
    requires
        fs.uses_directory(DirectoryUse::Lookup { parent, name }, after, reply),
    ensures
        searched(fs, parent, name@, ino, after, reply),
{
    assert(fs.named(parent, name@, ino) == bears(fs, parent, name@, ino));
    let found = choose|found: Option<u64>| #[trigger]
        fs.finds(parent, name@, found) && (after, reply) == fs.looked_up(found);
    match found {
        Some(of) => {
            assert(fs.named(parent, name@, of));
            assert(bears(fs, parent, name@, of));
        },
        None => {
            assert forall|k: u64| !#[trigger] bears(fs, parent, name@, k) by {
                assert(!fs.named(parent, name@, k));
            }
        },
    }
}

/// A request for a name is answered at once where the entries of the directory are known.  Where they
/// are on their way, they are waited for with that very search still to do.  In the root, two dots
/// lead to the root.  A directory that is not there is an error.
pub proof fn law_lookup_finds_the_file(
    fs: FsView,
    message: Message,
    parent: u64,
    name: Vec<u8>,
    ino: u64,
    after: FsView,
    result: Result<Step, HandlerError>,
)
    requires
        message.operation == (Operation::Lookup { parent, name }),
        fs.handles(message, after, result),
    ensures
        parent == 1 && is_dot_dot(name@) ==> after == fs && (result matches Ok(
            Step::Finished(Reply::Entry { ttl, attr, generation }),
        ) && ttl.sec == 1 && ttl.nsec == 0 && generation == 0 && tells_all(attr, fs.files[1].attr)),
        !(parent == 1 && is_dot_dot(name@)) ==> {
            &&& !fs.files.contains_key(parent) ==> after == fs && result == Err::<Step, HandlerError>(
                HandlerError::NoSuchDirectory,
            )
            &&& fs.files.contains_key(parent) && fs.files[parent].data is FetchingGitHubDirectory
                ==> waits_for_entries(
                fs,
                parent,
                DirectoryUse::Lookup { parent, name },
                after,
                result,
            )
            &&& fs.files.contains_key(parent) && !(fs.files[parent].data is FetchingGitHubDirectory)
                ==> (result matches Ok(Step::Finished(reply)) && searched(
                fs,
                parent,
                name@,
                ino,
                after,
                reply,
            ))
        },
{
    assert(name@ == seq![46u8, 46u8] <==> is_dot_dot(name@)) by {
        if is_dot_dot(name@) {
            assert(name@ =~= seq![46u8, 46u8]);
        }
    }
    if !(parent == 1 && is_dot_dot(name@)) && fs.files.contains_key(parent) && !(
    fs.files[parent].data is FetchingGitHubDirectory) {
        law_search_finds_the_file(fs, parent, name, ino, after, result->Ok_0->Finished_0);
    }
}

/// Whether a request is left waiting for the entries of `directory`, with `then` still to do, and
/// nothing has changed but that no other request will wait for them.
pub open spec fn waits_for_entries(
    fs: FsView,
    directory: u64,
    then: DirectoryUse,
    after: FsView,
    result: Result<Step, HandlerError>,
) -> bool {
    &&& result == Ok::<Step, HandlerError>(Step::AwaitDirectory { ino: directory, then })
    &&& differ_in_one_file(fs, after, directory)
    &&& after.files[directory].data == DataView::Nothing
    &&& after.files[directory].attr == fs.files[directory].attr
    &&& after.files[directory].name == fs.files[directory].name
    &&& after.files[directory].parent == fs.files[directory].parent
    &&& after.files[directory].lookup_count == fs.files[directory].lookup_count
    &&& after.files[directory].removed == fs.files[directory].removed
}

/// Whether a request that needs the content of `ino` has come as far as it should: it waits for a
/// content that is on its way, and that will be kept under a new random key; it uses the content that
/// the file has; it is refused where there is none.  What is to be done is `then`.
pub open spec fn reaches_content(
    fs: FsView,
    ino: u64,
    then: ContentUse,
    after: FsView,
    result: Result<Step, HandlerError>,
) -> bool {
    if fs.files.contains_key(ino) && fs.files[ino].data is FetchingGitHubFile {
        &&& result is Ok
        &&& result->Ok_0 is AwaitFile
        &&& is_random_key(result->Ok_0->AwaitFile_key)
        &&& result->Ok_0 == (Step::AwaitFile { ino, key: result->Ok_0->AwaitFile_key, then })
        &&& differ_in_one_file(fs, after, ino)
        &&& after.files[ino].data == DataView::Raw(result->Ok_0->AwaitFile_key)
        &&& after.files[ino].attr == fs.files[ino].attr
        &&& after.files[ino].name == fs.files[ino].name
        &&& after.files[ino].parent == fs.files[ino].parent
        &&& after.files[ino].lookup_count == fs.files[ino].lookup_count
        &&& after.files[ino].removed == fs.files[ino].removed
    } else if fs.files.contains_key(ino) && fs.files[ino].data is Raw {
        &&& result == Ok::<Step, HandlerError>(
            Step::UseContent { key: fs.files[ino].data->Raw_0, then },
        )
        &&& after == fs
    } else {
        &&& ended_with(result, Reply::Error(Errno::ENOSYS))
        &&& after == fs
    }
}

/// A request to read reaches the content of its file, and asks of it what the kernel asked.
pub proof fn law_read_reaches_the_content(
    fs: FsView,
    message: Message,
    ino: u64,
    fh: u64,
    offset: i64,
    size: u32,
    after: FsView,
    result: Result<Step, HandlerError>,
)
    requires
        message.operation == (Operation::Read { ino, fh, offset, size }),
        fs.handles(message, after, result),
    ensures
        reaches_content(fs, ino, ContentUse::Read { offset, size }, after, result),
{
}

/// A request to write reaches the content of its file, and asks of it what the kernel asked.
pub proof fn law_write_reaches_the_content(
    fs: FsView,
    message: Message,
    ino: u64,
    fh: u64,
    offset: i64,
    data: Vec<u8>,
    flags: u32,
    after: FsView,
    result: Result<Step, HandlerError>,
)
    requires
        message.operation == (Operation::Write { ino, fh, offset, data, flags }),
        fs.handles(message, after, result),
    ensures
        reaches_content(fs, ino, ContentUse::Write { ino, offset, data }, after, result),
{
}

/// The requests that are always granted, and those that are always refused, change nothing.
pub proof fn law_other_requests(
    fs: FsView,
    message: Message,
    after: FsView,
    result: Result<Step, HandlerError>,
)
    requires
        fs.handles(message, after, result),
    ensures
        message.operation matches Operation::Open { ino, flags } ==> after == fs && ended_with(
            result,
            Reply::Opened { fh: 0, flags },
        ),
        message.operation matches Operation::Opendir { ino, flags } ==> after == fs && ended_with(
            result,
            Reply::Opened { fh: 0, flags },
        ),
        message.operation is Forget ==> after == fs && ended_with(result, Reply::Nothing),
        message.operation is Flush || message.operation is Release || message.operation
            is Releasedir || message.operation is Access ==> after == fs && ended_with(
            result,
            Reply::Done,
        ),
        message.operation is Statfs ==> after == fs && ended_with(
            result,
            Reply::Statfs {
                blocks: 0,
                bfree: 0,
                bavail: 0,
                files: 0,
                ffree: 0,
                bsize: 512,
                namelen: 255,
                frsize: 0,
            },
        ),
        message.operation is Readlink || message.operation is Mknod || message.operation is Symlink
            || message.operation is Link || message.operation is Fsync || message.operation
            is Fsyncdir || message.operation is Setxattr || message.operation is Getxattr
            || message.operation is Listxattr || message.operation is Removexattr
            || message.operation is Getlk || message.operation is Setlk || message.operation is Bmap
            ==> after == fs && ended_with(result, Reply::Error(Errno::ENOSYS)),
{
}

/// How many entries of its own a directory has in a listing: itself, and the directory that it is in
/// if that is there.  The root is in itself.
pub open spec fn own_count(fs: FsView, ino: u64) -> int {
    if !fs.files.contains_key(ino) {
        0
    } else if ino == 1 || fs.files.contains_key(fs.files[ino].parent) {
        2
    } else {
        1
    }
}

/// Whether `all` is a whole listing of the directory `ino`: its own entries, then each file that is
/// in it, once, with its number, its kind and its name.
pub open spec fn lists_all(fs: FsView, ino: u64, all: Seq<(u64, FileType, Seq<u8>)>) -> bool {
    let own = own_count(fs, ino);
    let above = if ino == 1 {
        1u64
    } else {
        fs.files[ino].parent
    };
    &&& own <= all.len()
    &&& own >= 1 ==> all[0].0 == ino && all[0].1 == fs.files[ino].attr.kind && all[0].2.len() == 1
        && all[0].2[0] == 46
    &&& own >= 2 ==> all[1].0 == above && all[1].1 == fs.files[above].attr.kind && is_dot_dot(all[1].2)
    &&& forall|i: int|
        own <= i < all.len() ==> {
            &&& lists_child(fs, ino, (#[trigger] all[i]).0)
            &&& fs.files.contains_key(all[i].0)
            &&& all[i].1 == fs.files[all[i].0].attr.kind
            &&& all[i].2 == fs.files[all[i].0].name
        }
    &&& forall|i: int, j: int|
        own <= i < j < all.len() ==> (#[trigger] all[i]).0 != (#[trigger] all[j]).0
    &&& forall|child: u64| #[trigger]
        lists_child(fs, ino, child) && fs.files.contains_key(child) ==> exists|i: int|
            own <= i < all.len() && (#[trigger] all[i]).0 == child
}

/// Whether `entries` are what `all` holds from `offset` on, each with the place after it.
pub open spec fn shows_from(
    all: Seq<(u64, FileType, Seq<u8>)>,
    offset: int,
    entries: Seq<DirectoryEntry>,
) -> bool {
    &&& entries.len() == (if 0 <= offset <= all.len() {
        all.len() - offset
    } else {
        0
    })
    &&& forall|i: int|
        0 <= i < entries.len() ==> {
            &&& (#[trigger] entries[i]).ino == all[offset + i].0
            &&& entries[i].kind == all[offset + i].1
            &&& entries[i].name@ == all[offset + i].2
            &&& entries[i].next == offset + i + 1
        }
}

/// Whether a listing of the directory `ino` from `offset` on ended as it should: it shows a whole
/// listing from there on, and changes nothing but the time of the directory's last access.
pub open spec fn was_listed(fs: FsView, ino: u64, offset: int, after: FsView, reply: Reply) -> bool {
    &&& reply is Directory
    &&& exists|all: Seq<(u64, FileType, Seq<u8>)>| #[trigger]
        lists_all(fs, ino, all) && shows_from(all, offset, reply->Directory_0@)
    &&& differ_in_one_file(fs, after, ino)
    &&& fs.files.contains_key(ino) ==> {
        &&& after.files[ino].name == fs.files[ino].name
        &&& after.files[ino].parent == fs.files[ino].parent
        &&& after.files[ino].data == fs.files[ino].data
        &&& after.files[ino].lookup_count == fs.files[ino].lookup_count
        &&& after.files[ino].removed == fs.files[ino].removed
        &&& 0 <= after.files[ino].attr.atime.nsec < 1_000_000_000
        &&& after.files[ino].attr == (EditableFileAttr {
            atime: after.files[ino].attr.atime,
            ..fs.files[ino].attr
        })
    }
}

/// A listing of a directory whose entries are known shows all that is in it.
pub proof fn law_listing_shows_all(
    fs: FsView,
    ino: u64,
    offset: i64,
    after: FsView,
    reply: Reply,
)
    requires
        fs.well_formed(),
        fs.uses_directory(DirectoryUse::Readdir { ino, offset }, after, reply),
    ensures
        was_listed(fs, ino, offset as int, after, reply),
{
    let entries = reply->Directory_0@;
    let views = entries.map_values(|e: DirectoryEntry| e@);
    assert(fs.may_list(ino, offset as int, views));
    let inos = choose|inos: Seq<u64>| #[trigger]
        fs.lists(ino, inos) && views == listing_from(
            numbered(fs.own_items(ino) + fs.items_of(inos)),
            offset as int,
        );
    let all = fs.own_items(ino) + fs.items_of(inos);
    let own = own_count(fs, ino);
    assert(fs.lists(ino, inos));
    assert(views == listing_from(numbered(all), offset as int));
    assert(views.len() == entries.len());
    assert(fs.own_items(ino).len() == own);
    assert forall|i: int| own <= i < all.len() implies (#[trigger] all[i]).0 == inos[i - own]
        && inos.contains(inos[i - own]) by {
        assert(inos.contains(inos[i - own]));
        assert(fs.listed(ino, inos[i - own]));
    }
    assert forall|child: u64| #[trigger]
        lists_child(fs, ino, child) && fs.files.contains_key(child) implies exists|i: int|
        own <= i < all.len() && (#[trigger] all[i]).0 == child by {
        assert(fs.listed(ino, child));
        assert(inos.contains(child));
        let k = inos.index_of(child);
        assert(all[own + k].0 == child);
    }
    assert forall|i: int| own <= i < all.len() implies lists_child(fs, ino, (#[trigger] all[i]).0)
        && fs.files.contains_key(all[i].0) by {
        assert(inos.contains(inos[i - own]));
        assert(fs.listed(ino, inos[i - own]));
    }
    assert(lists_all(fs, ino, all));
    assert forall|i: int| 0 <= i < entries.len() implies (#[trigger] entries[i]).ino == all[offset + i].0
        && entries[i].kind == all[offset + i].1 && entries[i].name@ == all[offset + i].2
        && entries[i].next == offset + i + 1 by {
        assert(views[i] == entries[i]@);
        assert(0 <= offset <= all.len());
        assert(views[i] == numbered(all)[offset + i]);
    }
    assert(shows_from(all, offset as int, entries));
}

/// A request to list a directory is answered at once where its entries are known, and waits for them
/// where they are on their way, with that very listing still to do.  A directory that is not there is
/// an error.
pub proof fn law_readdir_lists_the_directory(
    fs: FsView,
    message: Message,
    ino: u64,
    fh: u64,
    offset: i64,
    after: FsView,
    result: Result<Step, HandlerError>,
)
    requires
        fs.well_formed(),
        message.operation == (Operation::Readdir { ino, fh, offset }),
        fs.handles(message, after, result),
    ensures
        !fs.files.contains_key(ino) ==> after == fs && result == Err::<Step, HandlerError>(
            HandlerError::NoSuchDirectory,
        ),
        fs.files.contains_key(ino) && fs.files[ino].data is FetchingGitHubDirectory
            ==> waits_for_entries(
            fs,
            ino,
            DirectoryUse::Readdir { ino, offset },
            after,
            result,
        ),
        fs.files.contains_key(ino) && !(fs.files[ino].data is FetchingGitHubDirectory) ==> (
        result matches Ok(Step::Finished(reply)) && was_listed(fs, ino, offset as int, after, reply)),
{
    if fs.files.contains_key(ino) && !(fs.files[ino].data is FetchingGitHubDirectory) {
        law_listing_shows_all(fs, ino, offset, after, result->Ok_0->Finished_0);
    }
}

/// Whether `after` is `fs` with `items` as new entries of `directory`, in their order under the next
/// numbers: each under the name, with the size and from the address that GitHub gave, for the user
/// `uid` and the group `gid`, and not yet fetched itself.
pub open spec fn has_arrived(
    fs: FsView,
    directory: u64,
    items: Seq<TreeItem>,
    uid: u32,
    gid: u32,
    after: FsView,
) -> bool {
    let first = fs.inode_max;
    &&& after.inode_max == first + items.len()
    &&& forall|k: u64| #[trigger]
        after.files.contains_key(k) <==> fs.files.contains_key(k) || first <= k < first + items.len()
    &&& forall|k: u64| #[trigger] fs.files.contains_key(k) ==> after.files[k] == fs.files[k]
    &&& forall|d: u64, k: u64| #[trigger]
        lists_child(after, d, k) <==> lists_child(fs, d, k) || (d == directory && first <= k < first
            + items.len())
    &&& forall|i: int|
        0 <= i < items.len() ==> arrived_as(
            #[trigger] items[i],
            (first + i) as u64,
            directory,
            uid,
            gid,
            after,
        )
}

/// Whether `item` is in the table as the file `ino` of `directory`.
pub open spec fn arrived_as(
    item: TreeItem,
    ino: u64,
    directory: u64,
    uid: u32,
    gid: u32,
    after: FsView,
) -> bool {
    let file = after.files[ino];
    &&& file.parent == directory
    &&& file.lookup_count == 0
    &&& !file.removed
    &&& item matches TreeItem::Blob(blob) ==> {
        &&& file.name == encode_utf8(blob.path@)
        &&& file.data == DataView::FetchingGitHubFile(blob.url@)
        &&& just_made(file.attr, ino, blob.size as u64, FileType::RegularFile, 0o444, uid, gid)
    }
    &&& item matches TreeItem::Tree(tree) ==> {
        &&& file.name == encode_utf8(tree.path@)
        &&& file.data == DataView::FetchingGitHubDirectory(tree.url@)
        &&& just_made(file.attr, ino, 0, FileType::Directory, 0o555, uid, gid)
    }
}

/// The entries of a directory that have arrived are in the table as GitHub described them, and nothing
/// else changes.
pub proof fn law_arrival_adds_the_entries(
    fs: FsView,
    directory: u64,
    items: Seq<TreeItem>,
    uid: u32,
    gid: u32,
    after: FsView,
)
    requires
        fs.well_formed(),
        fs.inode_max + items.len() <= u64::MAX,
        fs.may_load(directory, items, uid, gid, after),
    ensures
        has_arrived(fs, directory, items, uid, gid, after),
{
    let first = fs.inode_max;
    let times = choose|times: Seq<Timespec>|
        times.len() == items.len() && all_valid(times) && after == #[trigger] fs.loaded(
            directory,
            items,
            uid,
            gid,
            times,
        );
    assert forall|i: int| 0 <= i < items.len() implies arrived_as(
        #[trigger] items[i],
        (first + i) as u64,
        directory,
        uid,
        gid,
        after,
    ) by {
        let ino = (first + i) as u64;
        assert(fs.is_new(ino, items.len()));
        assert(times[i].valid());
        assert(after.files[ino] == item_file(items[i], ino, directory, uid, gid, times[i]));
    }
}

/// For each entry that has arrived, and for nothing else, a transfer is started: of that very entry,
/// for the file that stands for it.
pub proof fn law_each_entry_is_fetched(items: Seq<TreeItem>, first: u64, i: int)
    requires
        first + items.len() <= u64::MAX,
        0 <= i < items.len(),
    ensures
        item_fetches(items, first).len() == items.len(),
        items[i] matches TreeItem::Blob(blob) ==> (item_fetches(items, first)[i] matches Fetch::File {
            ino,
            blob: of,
        } && ino == first + i && of == blob),
        items[i] matches TreeItem::Tree(tree) ==> (
        item_fetches(items, first)[i] matches Fetch::Directory { ino, tree: of } && ino == first + i
            && of == tree),
{
}

/// A search that had to wait finds what has arrived: where one entry alone has the name, and no file
/// was there under it before, it is answered with the number, the size and the kind of that entry.
pub proof fn law_arrived_name_is_found(
    fs: FsView,
    directory: u64,
    items: Seq<TreeItem>,
    uid: u32,
    gid: u32,
    name: Vec<u8>,
    i: int,
    after: FsView,
    reply: Reply,
)
    requires
        fs.well_formed(),
        fs.inode_max + items.len() <= u64::MAX,
        fs.goes_on(
            directory,
            items,
            uid,
            gid,
            DirectoryUse::Lookup { parent: directory, name },
            after,
            reply,
        ),
        0 <= i < items.len(),
        nobody_bears(fs, directory, name@),
        forall|j: int|
            0 <= j < items.len() ==> (j == i <==> (match #[trigger] items[j] {
                TreeItem::Blob(blob) => encode_utf8(blob.path@),
                TreeItem::Tree(tree) => encode_utf8(tree.path@),
            }) == name@),
    ensures
        reply matches Reply::Entry { ttl, attr, generation } && attr.ino == fs.inode_max + i && attr.uid
            == uid && attr.gid == gid && (items[i] matches TreeItem::Blob(blob) ==> attr.size
            == blob.size && attr.kind == FileType::RegularFile && attr.perm == 0o444) && (
        items[i] is Tree ==> attr.size == 0 && attr.kind == FileType::Directory && attr.perm == 0o555),
{
    let ino = (fs.inode_max + i) as u64;
    let loaded = choose|loaded: FsView| #[trigger]
        fs.may_load(directory, items, uid, gid, loaded) && loaded.uses_directory(
            DirectoryUse::Lookup { parent: directory, name },
            after,
            reply,
        );
    law_arrival_adds_the_entries(fs, directory, items, uid, gid, loaded);
    law_search_finds_the_file(loaded, directory, name, ino, after, reply);
    assert(arrived_as(items[i], ino, directory, uid, gid, loaded));
    assert(lists_child(loaded, directory, ino));
    assert(bears(loaded, directory, name@, ino));
    assert forall|other: u64| #[trigger] bears(loaded, directory, name@, other) implies other == ino by {
        if fs.files.contains_key(other) {
            assert(!bears(fs, directory, name@, other));
        } else {
            let j = other - fs.inode_max;
            assert(arrived_as(items[j], (fs.inode_max + j) as u64, directory, uid, gid, loaded));
        }
    }
    assert(alone_bears(loaded, directory, name@, ino));
}

/// A listing that had to wait shows what has arrived, and what was there before.
pub proof fn law_arrived_entries_are_listed(
    fs: FsView,
    directory: u64,
    items: Seq<TreeItem>,
    uid: u32,
    gid: u32,
    offset: i64,
    after: FsView,
    reply: Reply,
)
    requires
        fs.well_formed(),
        fs.inode_max + items.len() <= u64::MAX,
        fs.goes_on(
            directory,
            items,
            uid,
            gid,
            DirectoryUse::Readdir { ino: directory, offset },
            after,
            reply,
        ),
    ensures
        exists|loaded: FsView| #[trigger]
            has_arrived(fs, directory, items, uid, gid, loaded) && was_listed(
                loaded,
                directory,
                offset as int,
                after,
                reply,
            ),
{
    let loaded = choose|loaded: FsView| #[trigger]
        fs.may_load(directory, items, uid, gid, loaded) && loaded.uses_directory(
            DirectoryUse::Readdir { ino: directory, offset },
            after,
            reply,
        );
    law_arrival_adds_the_entries(fs, directory, items, uid, gid, loaded);
    let times = choose|times: Seq<Timespec>|
        times.len() == items.len() && all_valid(times) && loaded == #[trigger] fs.loaded(
            directory,
            items,
            uid,
            gid,
            times,
        );
    lemma_loaded_well_formed(fs, directory, items, uid, gid, times);
    law_listing_shows_all(loaded, directory, offset, after, reply);
}

/// A mounted repository has nothing but a root directory, which belongs to nobody in particular, may
/// be read by all, and is still on its way from the address that was found for it.
pub proof fn law_mounted_repository_has_a_root(url: Seq<char>, time: Timespec, ino: u64)
    requires
        time.valid(),
    ensures
        ({
            let fs = FsView::of_repository(url, time);
            &&& fs.files.contains_key(ino) <==> ino == 1
            &&& fs.inode_max == 2
            &&& !lists_child(fs, 1, ino)
            &&& fs.files[1].data == DataView::FetchingGitHubDirectory(url)
            &&& fs.files[1].name.len() == 0
            &&& fs.files[1].lookup_count == 0
            &&& just_made(fs.files[1].attr, 1, 0, FileType::Directory, 0o555, 0, 0)
        }),
{
}

/// A search for a file in the table ends with a file that has the name, and with none only where none
/// has it.
pub proof fn law_found_file_has_the_name(
    fs: FsView,
    directory: u64,
    name: Seq<u8>,
    ino: u64,
    found: Option<u64>,
)
    requires
        fs.finds(directory, name, found),
    ensures
        found matches Some(of) ==> bears(fs, directory, name, of),
        found is None <==> nobody_bears(fs, directory, name),
        alone_bears(fs, directory, name, ino) ==> found == Some(ino),
{
    assert(fs.named(directory, name, ino) == bears(fs, directory, name, ino));
    match found {
        Some(of) => {
            assert(fs.named(directory, name, of));
            assert(bears(fs, directory, name, of));
        },
        None => {
            assert forall|k: u64| !#[trigger] bears(fs, directory, name, k) by {
                assert(!fs.named(directory, name, k));
            }
        },
    }
}

/// The times that a file is made, and a directory modified, at are noted as they were given.
pub proof fn law_given_times_are_noted(
    fs: FsView,
    parent: u64,
    name: Seq<u8>,
    ino: u64,
    uid: u32,
    gid: u32,
    flags: u32,
    key: u128,
    created: Timespec,
    time: Timespec,
    newparent: u64,
    change: AttrChange,
)
    requires
        fs.well_formed(),
        fs.inode_max < u64::MAX,
        fs.files.contains_key(parent),
        fs.named(parent, name, ino),
    ensures
        ({
            let after = fs.mkdir(parent, name, uid, gid, created, time).0;
            &&& after.files[fs.inode_max].attr.crtime == created
            &&& after.files[parent].attr.mtime == time
        }),
        ({
            let after = fs.create(parent, name, uid, gid, flags, key, created, time).0;
            &&& after.files[fs.inode_max].attr.crtime == created
            &&& after.files[fs.inode_max].data == DataView::Raw(key)
            &&& after.files[parent].attr.mtime == time
        }),
        ({
            let (after, reply) = fs.unlink(parent, Some(ino), time);
            reply == Reply::Done && parent != ino ==> after.files[parent].attr.mtime == time
        }),
        ({
            let (after, reply) = fs.rmdir(parent, Some(ino), time);
            reply == Reply::Done && parent != ino ==> after.files[parent].attr.mtime == time
        }),
        ({
            let (after, reply) = fs.rename(parent, Some(ino), newparent, name, time);
            reply == Reply::Done ==> {
                &&& after.files[ino].attr.ctime == time
                &&& after.files[parent].attr.ctime == time
                &&& fs.files.contains_key(newparent) ==> after.files[newparent].attr.ctime == time
            }
        }),
        ({
            let (after, step) = fs.setattr(ino, change, time);
            step is Finished ==> after.files[ino].attr.ctime == time
        }),
{
}

/// What is said of a table is said of the files, the lists and the numbers that it holds.
pub proof fn law_table_is_seen_as_it_is(table: FileSystemData, ino: u64, child: u64)
    ensures
        table@.inode_max == table.inode_max,
        table@.files.contains_key(ino) <==> table.files@.contains_key(ino),
        lists_child(table@, ino, child) <==> table.children@.contains_key(ino)
            && table.children@[ino]@.contains(child),
        table.files@.contains_key(ino) ==> {
            let seen = table@.files[ino];
            let file = table.files@[ino];
            &&& seen.parent == file.parent
            &&& seen.attr == file.attr
            &&& seen.name == file.name@
            &&& seen.lookup_count == file.lookup_count
            &&& seen.removed == file.removed
            &&& match file.data {
                GitHubFileData::Raw(key) => seen.data == DataView::Raw(key),
                GitHubFileData::FetchingGitHubFile(url) => seen.data
                    == DataView::FetchingGitHubFile(url@),
                GitHubFileData::FetchingGitHubDirectory(url) => seen.data
                    == DataView::FetchingGitHubDirectory(url@),
                GitHubFileData::Nothing => seen.data == DataView::Nothing,
            }
        },
{
}

/// In a sound table the root is there and in no directory, every
/// other file is in its parent and in no other directory, every file has its own number, and the
/// numbers that are still to be given away are free.
pub proof fn law_sound_table(fs: FsView, ino: u64, directory: u64)
    requires
        fs.well_formed(),
    ensures
        fs.files.contains_key(1),
        !lists_child(fs, directory, 1),
        fs.files.contains_key(ino) ==> fs.files[ino].attr.ino == ino && ino < fs.inode_max,
        fs.files.contains_key(ino) && ino != 1 ==> (lists_child(fs, directory, ino) <==> directory
            == fs.files[ino].parent),
{
    assert(fs.listed(directory, ino) == lists_child(fs, directory, ino));
    assert(fs.listed(directory, 1) == lists_child(fs, directory, 1));
    if fs.files.contains_key(ino) && ino != 1 {
        assert(fs.listed(fs.files[ino].parent, ino));
    }
}

/// The times at which entries arrive, a directory is listed and a repository is mounted are noted as
/// they were given.
pub proof fn law_given_times_of_directories_are_noted(
    fs: FsView,
    directory: u64,
    items: Seq<TreeItem>,
    uid: u32,
    gid: u32,
    times: Seq<Timespec>,
    i: int,
    offset: int,
    time: Timespec,
    after: FsView,
    reply: Reply,
    url: Seq<char>,
)
    requires
        fs.inode_max + items.len() <= u64::MAX,
        times.len() == items.len(),
        0 <= i < items.len(),
        fs.files.contains_key(directory),
        fs.reads_directory(directory, offset, time, after, reply),
    ensures
        fs.loaded(directory, items, uid, gid, times).files[(fs.inode_max + i) as u64].attr.crtime
            == times[i],
        after.files[directory].attr.atime == time,
        FsView::of_repository(url, time).files[1].attr.crtime == time,
{
    assert(fs.is_new((fs.inode_max + i) as u64, items.len()));
}

} // verus!
