//! What holds of the inode table whatever is asked of it.

use vstd::prelude::*;

use crate::clock::Timespec;
use crate::file::{DataView, EditableFileAttr, FileView};
use crate::filesystem::{FsView, ROOT};
use crate::github_api::TreeItem;
use crate::operation::{
    AttrChange, ContentUse, DirectoryUse, EntryView, Errno, HandlerError, Message, Operation, Reply,
    Step,
};

verus! {

use crate::content::law_read_after_write;
use crate::directory::{item_file, listing_from, numbered, upward, Item};
use crate::handler::at_once;
use vstd::utf8::encode_utf8;

impl Message {
    /// Whether there is a number left for the file that the request may make.
    pub open spec fn has_room(self, fs: FsView) -> bool {
        self.operation is Mkdir || self.operation is Create ==> fs.inode_max < u64::MAX
    }
}

/// No request makes a number be used again: a file that is new has a number that no file ever had,
/// and the numbers that are still to be given away are beyond it.
pub proof fn law_numbers_are_never_reused(
    fs: FsView,
    message: Message,
    after: FsView,
    result: Result<Step, HandlerError>,
    ino: u64,
)
    requires
        fs.well_formed(),
        message.has_room(fs),
        fs.handles(message, after, result),
        after.files.contains_key(ino),
        !fs.files.contains_key(ino),
    ensures
        fs.inode_max <= ino < after.inode_max,
{
}

/// The numbers that were given away stay so.
pub proof fn law_numbers_stay_given_away(
    fs: FsView,
    message: Message,
    after: FsView,
    result: Result<Step, HandlerError>,
)
    requires
        message.has_room(fs),
        fs.handles(message, after, result),
    ensures
        fs.inode_max <= after.inode_max,
{
}

/// A request that is refused changes nothing.
pub proof fn law_refused_request_changes_nothing(
    fs: FsView,
    message: Message,
    after: FsView,
    result: Result<Step, HandlerError>,
)
    requires
        fs.handles(message, after, result),
        result is Err || (result matches Ok(Step::Finished(reply)) && reply is Error),
    ensures
        after == fs,
{
}

/// An answer that is given at once, or by looking at the table, is the one that the request is
/// carried out with, and carrying it out changes nothing.
pub proof fn law_early_answers_agree(
    fs: FsView,
    message: Message,
    after: FsView,
    result: Result<Step, HandlerError>,
)
    requires
        fs.handles(message, after, result),
    ensures
        at_once(message.operation) matches Some(reply) ==> after == fs && result == Ok::<
            Step,
            HandlerError,
        >(Step::Finished(reply)),
        fs.by_looking(message.operation) matches Some(reply) ==> after == fs && result == Ok::<
            Step,
            HandlerError,
        >(Step::Finished(reply)),
{
}

/// What has arrived, or was never on its way, is not waited for later on.
pub proof fn law_nothing_is_waited_for_again(
    fs: FsView,
    message: Message,
    after: FsView,
    result: Result<Step, HandlerError>,
    ino: u64,
)
    requires
        fs.handles(message, after, result),
    ensures
        after.awaits_entries(ino) ==> fs.awaits_entries(ino),
        after.awaits_content(ino) ==> fs.awaits_content(ino),
{
}

/// A request that waits for something is the only one that does: it is no longer waited for
/// afterwards.
pub proof fn law_waiting_happens_once(
    fs: FsView,
    message: Message,
    after: FsView,
    result: Result<Step, HandlerError>,
)
    requires
        fs.handles(message, after, result),
    ensures
        result matches Ok(Step::AwaitDirectory { ino, then }) ==> fs.awaits_entries(ino)
            && !after.awaits_entries(ino) && then.directory() == ino,
        result matches Ok(Step::AwaitFile { ino, key, then }) ==> fs.awaits_content(ino)
            && !after.awaits_content(ino) && after.has_content(ino) && after.key_of(ino) == key,
{
}

/// Files and directories that are on their way are not removed.
pub proof fn law_awaited_files_stay(
    fs: FsView,
    message: Message,
    after: FsView,
    result: Result<Step, HandlerError>,
    ino: u64,
)
    requires
        fs.handles(message, after, result),
        fs.awaits_entries(ino) || fs.awaits_content(ino),
    ensures
        after.files.contains_key(ino),
{
}

/// Whether `a` is `b` but for the times of its last modification and its last change.
pub open spec fn same_but_for_times(a: FileView, b: FileView) -> bool {
    a == (FileView {
        attr: EditableFileAttr { mtime: a.attr.mtime, ctime: a.attr.ctime, ..b.attr },
        ..b
    })
}

impl FsView {
    /// Whether `ino` is the only file in `parent` with the name `name`.
    pub open spec fn only_named(self, parent: u64, name: Seq<u8>, ino: u64) -> bool {
        &&& self.named(parent, name, ino)
        &&& forall|other: u64| #[trigger] self.named(parent, name, other) ==> other == ino
    }
}

/// A name that only one file in a directory has leads to that file.
pub proof fn law_unique_name_is_found(fs: FsView, parent: u64, name: Seq<u8>, ino: u64, found: Option<u64>)
    requires
        fs.only_named(parent, name, ino),
        fs.finds(parent, name, found),
    ensures
        found == Some(ino),
{
}

/// A directory that was made is found under its name, has the attributes that were told when it was
/// made, and is empty if nothing was ever put under its number.
pub proof fn law_made_directory_is_found(
    fs: FsView,
    parent: u64,
    name: Seq<u8>,
    uid: u32,
    gid: u32,
    created: Timespec,
    time: Timespec,
)
    requires
        fs.well_formed(),
        fs.inode_max < u64::MAX,
        fs.files.contains_key(parent),
    ensures
        ({
            let ino = fs.inode_max;
            let (after, reply) = fs.mkdir(parent, name, uid, gid, created, time);
            &&& after.named(parent, name, ino)
            &&& after.files[ino] == FileView::directory(ino, parent, uid, gid, name, created)
            &&& after.getattr(ino) == (Reply::Attr {
                ttl: Timespec::seconds(1),
                attr: reply->Entry_attr,
            })
            &&& after.children_of(ino) == fs.children_of(ino)
            &&& forall|other: u64|
                other != ino && #[trigger] after.named(parent, name, other) ==> fs.named(
                    parent,
                    name,
                    other,
                )
        }),
{
}

/// A file that was made is found under its name, has the attributes that were told when it was made,
/// and has its content under the key that was chosen for it.
pub proof fn law_made_file_is_found(
    fs: FsView,
    parent: u64,
    name: Seq<u8>,
    uid: u32,
    gid: u32,
    flags: u32,
    key: u128,
    created: Timespec,
    time: Timespec,
)
    requires
        fs.well_formed(),
        fs.inode_max < u64::MAX,
        fs.files.contains_key(parent),
    ensures
        ({
            let ino = fs.inode_max;
            let (after, reply) = fs.create(parent, name, uid, gid, flags, key, created, time);
            &&& after.named(parent, name, ino)
            &&& after.has_content(ino)
            &&& after.key_of(ino) == key
            &&& after.files[ino].attr.size == 0
            &&& after.getattr(ino) == (Reply::Attr {
                ttl: Timespec::seconds(1),
                attr: reply->Created_attr,
            })
            &&& forall|other: u64|
                other != ino && #[trigger] after.named(parent, name, other) ==> fs.named(
                    parent,
                    name,
                    other,
                )
        }),
{
}

/// What was removed is gone: a search for its name does not find it, and finds nothing if no other
/// file in the directory has that name; its attributes cannot be asked for; and all other files stay
/// as they are, but for the times of the directory that it was in.
pub proof fn law_removed_file_is_gone(
    fs: FsView,
    parent: u64,
    name: Seq<u8>,
    ino: u64,
    time: Timespec,
    other: u64,
)
    requires
        fs.well_formed(),
        fs.named(parent, name, ino),
    ensures
        ({
            let (after, reply) = fs.unlink(parent, Some(ino), time);
            reply is Done ==> {
                &&& !after.files.contains_key(ino)
                &&& after.getattr(ino) == Reply::Error(Errno::ENOSYS)
                &&& !after.finds(parent, name, Some(ino))
                &&& fs.only_named(parent, name, ino) ==> after.finds(parent, name, None)
                &&& fs.files.contains_key(other) && other != ino ==> after.files.contains_key(other)
                    && same_but_for_times(after.files[other], fs.files[other])
            }
        }),
        ({
            let (after, reply) = fs.rmdir(parent, Some(ino), time);
            reply is Done ==> {
                &&& !after.files.contains_key(ino)
                &&& after.getattr(ino) == Reply::Error(Errno::ENOSYS)
                &&& !after.finds(parent, name, Some(ino))
                &&& fs.only_named(parent, name, ino) ==> after.finds(parent, name, None)
                &&& fs.files.contains_key(other) && other != ino ==> after.files.contains_key(other)
                    && same_but_for_times(after.files[other], fs.files[other])
            }
        }),
{
    let after = fs.without(ino).touched(parent, time);
    assert forall|other: u64| #[trigger] after.named(parent, name, other) implies fs.named(
        parent,
        name,
        other,
    ) by {}
}

/// A name that was removed, and that no other file in the directory had, is not found by a later
/// request: it is answered with ENOENT and changes nothing.  The directory must be there, its entries
/// must be known, and the name must not be the one that always leads from the root to itself.
pub proof fn law_removed_name_is_answered_enoent(
    fs: FsView,
    removal: Message,
    after: FsView,
    removed: Result<Step, HandlerError>,
    search: Message,
    parent: u64,
    name: Vec<u8>,
    same: Vec<u8>,
    ino: u64,
    later: FsView,
    found: Result<Step, HandlerError>,
)
    requires
        fs.well_formed(),
        fs.only_named(parent, name@, ino),
        removal.operation == (Operation::Unlink { parent, name }) || removal.operation == (
        Operation::Rmdir { parent, name }),
        fs.handles(removal, after, removed),
        removed == Ok::<Step, HandlerError>(Step::Finished(Reply::Done)),
        same@ == name@,
        search.operation == (Operation::Lookup { parent, name: same }),
        after.files.contains_key(parent),
        !after.awaits_entries(parent),
        !(parent == ROOT && name@ == upward()),
        after.handles(search, later, found),
    ensures
        found == Ok::<Step, HandlerError>(Step::Finished(Reply::Error(Errno::ENOENT))),
        later == after,
{
    assert forall|other: u64| !#[trigger] after.named(parent, name@, other) by {
        if after.named(parent, name@, other) {
            assert(fs.named(parent, name@, other));
        }
    }
}

/// A file that was made under a new name and removed again is not found under that name.
pub proof fn law_removal_undoes_creation(
    fs: FsView,
    parent: u64,
    name: Seq<u8>,
    uid: u32,
    gid: u32,
    flags: u32,
    key: u128,
    created: Timespec,
    time: Timespec,
    later: Timespec,
)
    requires
        fs.well_formed(),
        fs.inode_max < u64::MAX,
        fs.finds(parent, name, None),
    ensures
        ({
            let made = fs.create(parent, name, uid, gid, flags, key, created, time).0;
            let (after, reply) = made.unlink(parent, Some(fs.inode_max), later);
            &&& made.finds(parent, name, Some(fs.inode_max))
            &&& reply is Done
            &&& after.finds(parent, name, None)
            &&& after.files.dom() == fs.files.dom()
        }),
{
    let ino = fs.inode_max;
    let made = fs.create(parent, name, uid, gid, flags, key, created, time).0;
    let after = made.unlink(parent, Some(ino), later).0;
    assert forall|other: u64| !#[trigger] after.named(parent, name, other) by {
        assert(!fs.named(parent, name, other));
    }
    assert(after.files.dom() =~= fs.files.dom());
}

/// A file that was moved is found in its new place, is no longer in its old one, and keeps its
/// number, its content and its attributes, but for the time of its last change and, where it was
/// moved into itself, that of its last modification.
pub proof fn law_moved_file_is_found(
    fs: FsView,
    parent: u64,
    name: Seq<u8>,
    ino: u64,
    newparent: u64,
    newname: Seq<u8>,
    time: Timespec,
)
    requires
        fs.well_formed(),
        fs.named(parent, name, ino),
    ensures
        ({
            let (after, reply) = fs.rename(parent, Some(ino), newparent, newname, time);
            reply is Done ==> {
                &&& after.named(newparent, newname, ino)
                &&& parent != newparent || name != newname ==> !after.named(parent, name, ino)
                &&& parent != newparent ==> !after.listed(parent, ino)
                &&& same_but_for_times(
                    after.files[ino],
                    FileView { parent: newparent, name: newname, ..fs.files[ino] },
                )
            }
        }),
{
}

/// A file that was moved and moved back is where it was, under the name that it had, and each
/// directory lists what it listed before.
pub proof fn law_moving_back_undoes_moving(
    fs: FsView,
    parent: u64,
    name: Seq<u8>,
    ino: u64,
    newparent: u64,
    newname: Seq<u8>,
    time: Timespec,
    later: Timespec,
    other: u64,
)
    requires
        fs.well_formed(),
        fs.named(parent, name, ino),
        fs.rename(parent, Some(ino), newparent, newname, time).1 is Done,
    ensures
        ({
            let moved = fs.rename(parent, Some(ino), newparent, newname, time).0;
            let (back, reply) = moved.rename(newparent, Some(ino), parent, name, later);
            &&& reply is Done
            &&& back.named(parent, name, ino)
            &&& back.children_of(other) == fs.children_of(other)
            &&& back.files.dom() == fs.files.dom()
            &&& fs.files.contains_key(other) ==> same_but_for_times(
                back.files[other],
                fs.files[other],
            )
        }),
{
    let moved = fs.rename(parent, Some(ino), newparent, newname, time).0;
    let back = moved.rename(newparent, Some(ino), parent, name, later).0;
    if newparent != parent {
        assert(!fs.listed(newparent, ino));
    }
    assert(back.children_of(other) =~= fs.children_of(other));
    assert(back.files.dom() =~= fs.files.dom());
}

/// The name of an entry of a directory of the repository.
pub open spec fn item_name(item: TreeItem) -> Seq<u8> {
    match item {
        TreeItem::Blob(blob) => encode_utf8(blob.path@),
        TreeItem::Tree(tree) => encode_utf8(tree.path@),
    }
}

/// Each entry of a directory that has arrived is in it, under its name and with a number of its own,
/// and whatever was in the table before is unchanged.
pub proof fn law_arrived_entries_are_found(
    fs: FsView,
    directory: u64,
    items: Seq<TreeItem>,
    uid: u32,
    gid: u32,
    times: Seq<Timespec>,
    i: int,
    other: u64,
)
    requires
        fs.well_formed(),
        fs.inode_max + items.len() <= u64::MAX,
        times.len() == items.len(),
        0 <= i < items.len(),
    ensures
        ({
            let ino = (fs.inode_max + i) as u64;
            let after = fs.loaded(directory, items, uid, gid, times);
            &&& !fs.files.contains_key(ino)
            &&& after.named(directory, item_name(items[i]), ino)
            &&& after.files[ino] == item_file(items[i], ino, directory, uid, gid, times[i])
            &&& !after.finds(directory, item_name(items[i]), None)
            &&& fs.files.contains_key(other) ==> after.files.contains_key(other)
                && after.files[other] == fs.files[other]
            &&& other != directory ==> after.children_of(other) == fs.children_of(other)
        }),
{
    let ino = (fs.inode_max + i) as u64;
    let after = fs.loaded(directory, items, uid, gid, times);
    assert(fs.is_new(ino, items.len()));
    assert(after.named(directory, item_name(items[i]), ino));
}

/// Nothing but what arrived, and what was there before, is in a directory that has arrived.
pub proof fn law_only_arrived_entries_are_added(
    fs: FsView,
    directory: u64,
    items: Seq<TreeItem>,
    uid: u32,
    gid: u32,
    times: Seq<Timespec>,
    name: Seq<u8>,
    ino: u64,
)
    requires
        fs.well_formed(),
        fs.inode_max + items.len() <= u64::MAX,
        times.len() == items.len(),
        fs.loaded(directory, items, uid, gid, times).named(directory, name, ino),
        !fs.named(directory, name, ino),
    ensures
        fs.inode_max <= ino < fs.inode_max + items.len(),
        name == item_name(items[ino - fs.inode_max]),
{
    if !fs.is_new(ino, items.len()) {
        assert(fs.listed(directory, ino));
    }
}

/// The entries of a repository's root directory are waited for by the first request that needs
/// them.
pub proof fn law_root_is_waited_for(
    url: Seq<char>,
    time: Timespec,
    then: DirectoryUse,
    after: FsView,
    result: Result<Step, HandlerError>,
)
    requires
        then.directory() == ROOT,
        FsView::of_repository(url, time).asks_directory(then, after, result),
    ensures
        result == Ok::<Step, HandlerError>(Step::AwaitDirectory { ino: ROOT, then }),
{
    assert(FsView::of_repository(url, time).files[ROOT].data == DataView::FetchingGitHubDirectory(url));
}

/// The table of a repository starts out with no content, so that no two files share one and every
/// size is right.
pub proof fn law_mounted_table_is_right(
    url: Seq<char>,
    time: Timespec,
    contents: Map<u128, Seq<u8>>,
    coming: Map<u64, Seq<u8>>,
)
    ensures
        FsView::of_repository(url, time).contents_apart(),
        FsView::of_repository(url, time).sizes_right(contents, coming),
{
}

/// What was written to a file is read from it: the read uses the content that the write left, and
/// is answered with the bytes that were written.
pub proof fn law_written_is_read(
    fs: FsView,
    ino: u64,
    offset: i64,
    data: Vec<u8>,
    size: u32,
    content: Seq<u8>,
    time: Timespec,
    after: FsView,
    left: Seq<u8>,
    reply: Reply,
    later: Timespec,
    finally: FsView,
    kept: Seq<u8>,
    answer: Reply,
)
    requires
        fs.has_content(ino),
        0 <= offset,
        size == data@.len(),
        fs.uses_content(ContentUse::Write { ino, offset, data }, content, time, after, left, reply),
        after.uses_content(ContentUse::Read { offset, size }, left, later, finally, kept, answer),
    ensures
        forall|key: u128| #[trigger]
            after.asks_content(ino, key, ContentUse::Read { offset, size }) == (
                after,
                Step::UseContent {
                    key: fs.key_of(ino),
                    then: ContentUse::Read { offset, size },
                },
            ),
        reply == Reply::Written(size),
        answer matches Reply::Data(read) && read@ == data@,
        finally == after,
        kept == left,
{
    law_read_after_write(content, offset as int, data@);
}

/// The size of a file stays the length of its content.
pub proof fn law_size_is_the_length_of_the_content(
    fs: FsView,
    ino: u64,
    then: ContentUse,
    content: Seq<u8>,
    time: Timespec,
    after: FsView,
    left: Seq<u8>,
    reply: Reply,
)
    requires
        fs.has_content(ino),
        fs.files[ino].attr.size == content.len(),
        then.fits(),
        match then {
            ContentUse::Read { offset: _, size: _ } => true,
            ContentUse::Write { ino: of, offset: _, data: _ } => of == ino,
            ContentUse::Setattr { ino: of, change: _ } => of == ino,
        },
        fs.uses_content(then, content, time, after, left, reply),
    ensures
        after.has_content(ino),
        after.key_of(ino) == fs.key_of(ino),
        after.files[ino].attr.size == left.len(),
{
}

/// What is done with the content of a file leaves all other files alone.
pub proof fn law_other_files_are_left_alone(
    fs: FsView,
    ino: u64,
    then: ContentUse,
    content: Seq<u8>,
    time: Timespec,
    after: FsView,
    left: Seq<u8>,
    reply: Reply,
)
    requires
        match then {
            ContentUse::Read { offset: _, size: _ } => true,
            ContentUse::Write { ino: of, offset: _, data: _ } => of == ino,
            ContentUse::Setattr { ino: of, change: _ } => of == ino,
        },
        fs.uses_content(then, content, time, after, left, reply),
    ensures
        after.files.remove(ino) == fs.files.remove(ino),
        after.children == fs.children,
        after.inode_max == fs.inode_max,
{
    assert(after.files.remove(ino) =~= fs.files.remove(ino));
}

impl FsView {
    /// Whether no two files share a content.
    pub open spec fn contents_apart(self) -> bool {
        forall|a: u64, b: u64|
            #![trigger self.has_content(a), self.has_content(b)]
            self.has_content(a) && self.has_content(b) && self.key_of(a) == self.key_of(b) ==> a == b
    }

    /// Whether no file has its content under `key`.
    pub open spec fn is_fresh(self, key: u128) -> bool {
        forall|ino: u64| #[trigger] self.has_content(ino) ==> self.key_of(ino) != key
    }
}

/// No two files ever share a content, as long as each key that is chosen is a new one.
pub proof fn law_contents_stay_apart(
    fs: FsView,
    message: Message,
    after: FsView,
    result: Result<Step, HandlerError>,
)
    requires
        fs.well_formed(),
        message.has_room(fs),
        fs.contents_apart(),
        fs.handles(message, after, result),
        result matches Ok(Step::StoreEmpty { key, reply }) ==> fs.is_fresh(key),
        result matches Ok(Step::AwaitFile { ino, key, then }) ==> fs.is_fresh(key),
    ensures
        after.contents_apart(),
{
    assert forall|a: u64|
        after.has_content(a) implies (#[trigger] fs.has_content(a) && fs.key_of(a) == after.key_of(a))
        || (result matches Ok(Step::StoreEmpty { key, reply }) && a == fs.inode_max && key
        == after.key_of(a)) || (result matches Ok(Step::AwaitFile { ino, key, then }) && a == ino
        && key == after.key_of(a)) by {}
    assert forall|a: u64, b: u64|
        #![trigger after.has_content(a), after.has_content(b)]
        after.has_content(a) && after.has_content(b) && after.key_of(a) == after.key_of(
            b,
        ) implies a == b by {
        let _ = fs.has_content(a);
        let _ = fs.has_content(b);
    }
}

/// The arrival of entries, and what is done with a directory, let no two files share a content, if
/// the numbers from `inode_max` on are free.
proof fn lemma_arrival_keeps_contents_apart(
    fs: FsView,
    directory: u64,
    items: Seq<TreeItem>,
    uid: u32,
    gid: u32,
    times: Seq<Timespec>,
    then: DirectoryUse,
    after: FsView,
    reply: Reply,
)
    requires
        forall|a: u64| #[trigger] fs.files.contains_key(a) ==> a < fs.inode_max,
        fs.contents_apart(),
        fs.loaded(directory, items, uid, gid, times).uses_directory(then, after, reply),
    ensures
        after.contents_apart(),
{
    let loaded = fs.loaded(directory, items, uid, gid, times);
    assert forall|a: u64| after.has_content(a) implies #[trigger] fs.has_content(a) && fs.key_of(a)
        == after.key_of(a) by {
        assert(loaded.has_content(a));
        assert(!fs.is_new(a, items.len()));
    }
    assert forall|a: u64, b: u64|
        #![trigger after.has_content(a), after.has_content(b)]
        after.has_content(a) && after.has_content(b) && after.key_of(a) == after.key_of(
            b,
        ) implies a == b by {
        let _ = fs.has_content(a);
        let _ = fs.has_content(b);
    }
}

/// The arrival of entries, and what is done with a directory, let no two files share a content.
pub proof fn law_arrival_keeps_contents_apart(
    fs: FsView,
    directory: u64,
    items: Seq<TreeItem>,
    uid: u32,
    gid: u32,
    times: Seq<Timespec>,
    then: DirectoryUse,
    after: FsView,
    reply: Reply,
)
    requires
        fs.well_formed(),
        fs.contents_apart(),
        fs.loaded(directory, items, uid, gid, times).uses_directory(then, after, reply),
    ensures
        after.contents_apart(),
{
    lemma_arrival_keeps_contents_apart(
        fs,
        directory,
        items,
        uid,
        gid,
        times,
        then,
        after,
        reply,
    );
}

/// What is done with a content lets no two files share one.
pub proof fn law_use_keeps_contents_apart(
    fs: FsView,
    then: ContentUse,
    content: Seq<u8>,
    time: Timespec,
    after: FsView,
    left: Seq<u8>,
    reply: Reply,
)
    requires
        fs.contents_apart(),
        fs.uses_content(then, content, time, after, left, reply),
    ensures
        after.contents_apart(),
{
    assert forall|a: u64| after.has_content(a) implies #[trigger] fs.has_content(a) && fs.key_of(a)
        == after.key_of(a) by {}
    assert forall|a: u64, b: u64|
        #![trigger after.has_content(a), after.has_content(b)]
        after.has_content(a) && after.has_content(b) && after.key_of(a) == after.key_of(
            b,
        ) implies a == b by {
        let _ = fs.has_content(a);
        let _ = fs.has_content(b);
    }
}

/// Whether the content of each file that stands for one of `items` will be one that `coming` holds
/// for it, of the size that was told, where the first of them has the number `first`; what was
/// coming for other files still is.
pub open spec fn will_come(
    items: Seq<TreeItem>,
    first: u64,
    before: Map<u64, Seq<u8>>,
    coming: Map<u64, Seq<u8>>,
) -> bool {
    &&& forall|ino: u64|
        ino < first && #[trigger] before.contains_key(ino) ==> coming.contains_key(ino)
            && coming[ino] == before[ino]
    &&& forall|i: int|
        0 <= i < items.len() ==> (#[trigger] items[i] matches TreeItem::Blob(blob)
            ==> coming.contains_key((first + i) as u64) && coming[(first + i) as u64].len()
            == blob.size)
}

impl FsView {
    /// Whether the size of each file is the length of its content: of the one under its key in
    /// `contents`, or of the one in `coming` if it is on its way.
    pub open spec fn sizes_right(
        self,
        contents: Map<u128, Seq<u8>>,
        coming: Map<u64, Seq<u8>>,
    ) -> bool {
        &&& forall|ino: u64| #[trigger]
            self.has_content(ino) ==> contents.contains_key(self.key_of(ino))
                && self.files[ino].attr.size == contents[self.key_of(ino)].len()
        &&& forall|ino: u64| #[trigger]
            self.awaits_content(ino) ==> coming.contains_key(ino) && self.files[ino].attr.size
                == coming[ino].len()
    }

    /// Whether a request that has come as far as `result` may be carried through from this table,
    /// for the user `uid` and the group `gid`, with no transfer failing: what is waited for
    /// arrives, what is to be kept is kept, and a content is used and kept as it is left.  It starts
    /// with the contents `contents`, and with `coming` on its way, and ends with the table `after`,
    /// the contents `left`, and with `awaited` on its way.
    pub open spec fn carries_through(
        self,
        result: Result<Step, HandlerError>,
        uid: u32,
        gid: u32,
        contents: Map<u128, Seq<u8>>,
        coming: Map<u64, Seq<u8>>,
        after: FsView,
        left: Map<u128, Seq<u8>>,
        awaited: Map<u64, Seq<u8>>,
    ) -> bool {
        match result {
            Err(_) | Ok(Step::Finished(_)) => {
                &&& after == self
                &&& left == contents
                &&& awaited == coming
            },
            Ok(Step::StoreEmpty { key, reply: _ }) => {
                &&& after == self
                &&& left == contents.insert(key, Seq::empty())
                &&& awaited == coming
            },
            Ok(Step::AwaitDirectory { ino, then }) => {
                &&& exists|items: Seq<TreeItem>, times: Seq<Timespec>, reply: Reply|
                    self.arrives(ino, items, times, uid, gid, then, coming, after, awaited, reply)
                &&& left == contents
            },
            Ok(Step::AwaitFile { ino, key, then }) => {
                &&& then.fits()
                &&& self.leaves(key, then, coming[ino], contents, after, left)
                &&& awaited == coming
            },
            Ok(Step::UseContent { key, then }) => {
                &&& then.fits()
                &&& self.leaves(key, then, contents[key], contents, after, left)
                &&& awaited == coming
            },
        }
    }

    /// Whether `items`, made at `times`, may arrive as the entries of `directory` and be used, so
    /// that it ends in the table `after`, and with `awaited` instead of `coming` on its way.
    pub open spec fn arrives(
        self,
        directory: u64,
        items: Seq<TreeItem>,
        times: Seq<Timespec>,
        uid: u32,
        gid: u32,
        then: DirectoryUse,
        coming: Map<u64, Seq<u8>>,
        after: FsView,
        awaited: Map<u64, Seq<u8>>,
        reply: Reply,
    ) -> bool {
        &&& self.inode_max + items.len() <= u64::MAX
        &&& times.len() == items.len()
        &&& will_come(items, self.inode_max, coming, awaited)
        &&& self.loaded(directory, items, uid, gid, times).uses_directory(then, after, reply)
    }

    /// Whether the use of `content`, which is kept under `key`, may end in the table `after` and
    /// turn the contents `contents` into `left`.
    pub open spec fn leaves(
        self,
        key: u128,
        then: ContentUse,
        content: Seq<u8>,
        contents: Map<u128, Seq<u8>>,
        after: FsView,
        left: Map<u128, Seq<u8>>,
    ) -> bool {
        exists|time: Timespec, bytes: Seq<u8>, reply: Reply|
            left == contents.insert(key, bytes) && #[trigger] self.uses_content(
                then,
                content,
                time,
                after,
                bytes,
                reply,
            )
    }
}

/// The contents once what a request brings along, before it uses one, is kept with `contents`.
spec fn stored(
    result: Result<Step, HandlerError>,
    contents: Map<u128, Seq<u8>>,
    coming: Map<u64, Seq<u8>>,
) -> Map<u128, Seq<u8>> {
    match result {
        Ok(Step::StoreEmpty { key, reply: _ }) => contents.insert(key, Seq::empty()),
        Ok(Step::AwaitFile { ino, key, then: _ }) => contents.insert(key, coming[ino]),
        _ => contents,
    }
}

/// Whether the file that `then` is about, if it is about one, has its content under `key`.
spec fn is_about(fs: FsView, key: u128, then: ContentUse) -> bool {
    match then {
        ContentUse::Read { offset: _, size: _ } => true,
        ContentUse::Write { ino, offset: _, data: _ } => fs.has_content(ino) && fs.key_of(ino) == key,
        ContentUse::Setattr { ino, change: _ } => fs.has_content(ino) && fs.key_of(ino) == key,
    }
}

/// A request, as far as it goes without waiting, keeps the sizes right.
proof fn lemma_request_keeps_sizes_right(
    fs: FsView,
    message: Message,
    after: FsView,
    result: Result<Step, HandlerError>,
    contents: Map<u128, Seq<u8>>,
    coming: Map<u64, Seq<u8>>,
)
    requires
        fs.well_formed(),
        message.has_room(fs),
        fs.sizes_right(contents, coming),
        fs.handles(message, after, result),
        result matches Ok(Step::StoreEmpty { key, reply }) ==> fs.is_fresh(key),
        result matches Ok(Step::AwaitFile { ino, key, then }) ==> fs.is_fresh(key),
    ensures
        after.sizes_right(stored(result, contents, coming), coming),
        result matches Ok(Step::AwaitFile { ino, key, then }) ==> is_about(after, key, then),
        result matches Ok(Step::UseContent { key, then }) ==> is_about(after, key, then)
            && contents.contains_key(key),
        result matches Ok(Step::AwaitDirectory { ino, then }) ==> after.inode_max == fs.inode_max
            && after.files.dom() == fs.files.dom(),
{
    let kept = stored(result, contents, coming);
    assert forall|a: u64| #[trigger] after.has_content(a) implies kept.contains_key(after.key_of(a))
        && after.files[a].attr.size == kept[after.key_of(a)].len() by {
        assert((fs.has_content(a) && fs.key_of(a) == after.key_of(a) && fs.files[a].attr.size
            == after.files[a].attr.size) || (result matches Ok(Step::StoreEmpty { key, reply }) && a
            == fs.inode_max && key == after.key_of(a) && after.files[a].attr.size == 0) || (
        result matches Ok(Step::AwaitFile { ino, key, then }) && a == ino && key == after.key_of(a)
            && fs.awaits_content(a) && fs.files[a].attr.size == after.files[a].attr.size));
    }
    assert forall|a: u64| #[trigger] after.awaits_content(a) implies coming.contains_key(a)
        && after.files[a].attr.size == coming[a].len() by {
        assert(fs.awaits_content(a) && fs.files[a].attr.size == after.files[a].attr.size);
    }
    if let Ok(Step::AwaitDirectory { ino, then }) = result {
        assert(after.files.dom() =~= fs.files.dom());
    }
}

/// The use of a content keeps the sizes right.
proof fn lemma_use_keeps_sizes_right(
    fs: FsView,
    key: u128,
    then: ContentUse,
    contents: Map<u128, Seq<u8>>,
    coming: Map<u64, Seq<u8>>,
    time: Timespec,
    after: FsView,
    bytes: Seq<u8>,
    reply: Reply,
)
    requires
        fs.contents_apart(),
        fs.sizes_right(contents, coming),
        contents.contains_key(key),
        is_about(fs, key, then),
        then.fits(),
        fs.uses_content(then, contents[key], time, after, bytes, reply),
    ensures
        after.contents_apart(),
        after.sizes_right(contents.insert(key, bytes), coming),
{
    law_use_keeps_contents_apart(fs, then, contents[key], time, after, bytes, reply);
    let left = contents.insert(key, bytes);
    assert forall|a: u64| #[trigger] after.has_content(a) implies left.contains_key(after.key_of(a))
        && after.files[a].attr.size == left[after.key_of(a)].len() by {
        assert(fs.has_content(a) && fs.key_of(a) == after.key_of(a));
        match then {
            ContentUse::Read { offset: _, size: _ } => {},
            ContentUse::Write { ino, offset: _, data: _ } => {
                assert(fs.has_content(ino));
            },
            ContentUse::Setattr { ino, change: _ } => {
                assert(fs.has_content(ino));
            },
        }
    }
    assert forall|a: u64| #[trigger] after.awaits_content(a) implies coming.contains_key(a)
        && after.files[a].attr.size == coming[a].len() by {
        assert(fs.awaits_content(a));
    }
}

/// The arrival of entries, and what is done with a directory, keep the sizes right.
proof fn lemma_arrival_keeps_sizes_right(
    fs: FsView,
    directory: u64,
    items: Seq<TreeItem>,
    uid: u32,
    gid: u32,
    times: Seq<Timespec>,
    then: DirectoryUse,
    after: FsView,
    reply: Reply,
    contents: Map<u128, Seq<u8>>,
    coming: Map<u64, Seq<u8>>,
    awaited: Map<u64, Seq<u8>>,
)
    requires
        fs.sizes_right(contents, coming),
        forall|a: u64| #[trigger] fs.files.contains_key(a) ==> a < fs.inode_max,
        fs.inode_max + items.len() <= u64::MAX,
        will_come(items, fs.inode_max, coming, awaited),
        fs.loaded(directory, items, uid, gid, times).uses_directory(then, after, reply),
    ensures
        after.sizes_right(contents, awaited),
{
    let loaded = fs.loaded(directory, items, uid, gid, times);
    assert forall|a: u64| #[trigger] after.has_content(a) implies contents.contains_key(
        after.key_of(a),
    ) && after.files[a].attr.size == contents[after.key_of(a)].len() by {
        assert(loaded.has_content(a));
        assert(!fs.is_new(a, items.len()));
        assert(fs.has_content(a));
    }
    assert forall|a: u64| #[trigger] after.awaits_content(a) implies awaited.contains_key(a)
        && after.files[a].attr.size == awaited[a].len() by {
        assert(loaded.awaits_content(a));
        assert(after.files[a].attr.size == loaded.files[a].attr.size);
        if fs.is_new(a, items.len()) {
            let i = a - fs.inode_max;
            assert(items[i] is Blob);
            assert((fs.inode_max + i) as u64 == a);
        } else {
            assert(fs.awaits_content(a));
        }
    }
}

/// The size of each file is the length of its content, and no two files share one: so it is after
/// each request, from its arrival to its answer, if it was so before.  The keys that are chosen must
/// be new, and the contents of the repository's files as long as was told.
pub proof fn law_sizes_stay_right(
    fs: FsView,
    message: Message,
    midway: FsView,
    result: Result<Step, HandlerError>,
    contents: Map<u128, Seq<u8>>,
    coming: Map<u64, Seq<u8>>,
    after: FsView,
    left: Map<u128, Seq<u8>>,
    awaited: Map<u64, Seq<u8>>,
)
    requires
        fs.well_formed(),
        message.has_room(fs),
        fs.contents_apart(),
        fs.sizes_right(contents, coming),
        fs.handles(message, midway, result),
        result matches Ok(Step::StoreEmpty { key, reply }) ==> fs.is_fresh(key),
        result matches Ok(Step::AwaitFile { ino, key, then }) ==> fs.is_fresh(key),
        midway.carries_through(
            result,
            message.uid,
            message.gid,
            contents,
            coming,
            after,
            left,
            awaited,
        ),
    ensures
        after.contents_apart(),
        after.sizes_right(left, awaited),
{
    law_contents_stay_apart(fs, message, midway, result);
    lemma_request_keeps_sizes_right(fs, message, midway, result, contents, coming);
    let kept = stored(result, contents, coming);
    match result {
        Ok(Step::AwaitDirectory { ino, then }) => {
            let (items, times, reply) = choose|
                items: Seq<TreeItem>,
                times: Seq<Timespec>,
                reply: Reply,
            |
                midway.arrives(
                    ino,
                    items,
                    times,
                    message.uid,
                    message.gid,
                    then,
                    coming,
                    after,
                    awaited,
                    reply,
                );
            assert(forall|a: u64| #[trigger]
                midway.files.contains_key(a) ==> fs.files.dom().contains(a));
            lemma_arrival_keeps_sizes_right(
                midway,
                ino,
                items,
                message.uid,
                message.gid,
                times,
                then,
                after,
                reply,
                contents,
                coming,
                awaited,
            );
            lemma_arrival_keeps_contents_apart(
                midway,
                ino,
                items,
                message.uid,
                message.gid,
                times,
                then,
                after,
                reply,
            );
        },
        Ok(Step::AwaitFile { ino, key, then }) => {
            let (time, bytes, reply) = choose|time: Timespec, bytes: Seq<u8>, reply: Reply|
                left == contents.insert(key, bytes) && #[trigger] midway.uses_content(
                    then,
                    coming[ino],
                    time,
                    after,
                    bytes,
                    reply,
                );
            assert(kept.insert(key, bytes) =~= left);
            lemma_use_keeps_sizes_right(midway, key, then, kept, coming, time, after, bytes, reply);
        },
        Ok(Step::UseContent { key, then }) => {
            let (time, bytes, reply) = choose|time: Timespec, bytes: Seq<u8>, reply: Reply|
                left == contents.insert(key, bytes) && #[trigger] midway.uses_content(
                    then,
                    contents[key],
                    time,
                    after,
                    bytes,
                    reply,
                );
            lemma_use_keeps_sizes_right(midway, key, then, kept, coming, time, after, bytes, reply);
        },
        _ => {},
    }
}

/// What a change of attributes is answered with is what is told of the file afterwards.
pub proof fn law_changed_attributes_are_told(
    fs: FsView,
    ino: u64,
    change: AttrChange,
    time: Timespec,
)
    ensures
        ({
            let (after, step) = fs.setattr(ino, change, time);
            step matches Step::Finished(reply) ==> after.getattr(ino) == reply
        }),
{
}

/// A change that names no attribute only notes the time.
pub proof fn law_empty_change_notes_the_time(attr: EditableFileAttr, change: AttrChange, time: Timespec)
    requires
        change.mode is None,
        change.uid is None,
        change.gid is None,
        change.atime is None,
        change.mtime is None,
        change.crtime is None,
        change.flags is None,
    ensures
        attr.changed(change, None, time) == (EditableFileAttr { ctime: time, ..attr }),
{
}

/// A listing goes on after each entry with what follows it.
pub proof fn law_listing_goes_on(items: Seq<Item>, offset: int, i: int)
    requires
        0 <= offset,
        0 <= i < listing_from(numbered(items), offset).len(),
    ensures
        listing_from(numbered(items), listing_from(numbered(items), offset)[i].next)
            == listing_from(numbered(items), offset).skip(i + 1),
{
    let entries = numbered(items);
    assert(offset <= entries.len());
    let next = listing_from(entries, offset)[i].next;
    assert(listing_from(entries, next) =~= listing_from(entries, offset).skip(i + 1));
}

/// A full listing shows each file in the directory once, after the directory's own two entries, and
/// no file that is not in it.
pub proof fn law_listing_shows_each_file_once(fs: FsView, ino: u64, entries: Seq<EntryView>, child: u64)
    requires
        fs.well_formed(),
        fs.may_list(ino, 0, entries),
    ensures
        ({
            let own = fs.own_items(ino).len();
            let shown = |i: int| own <= i < entries.len() && entries[i].ino == child;
            &&& own <= entries.len()
            &&& forall|i: int| 0 <= i < own ==> #[trigger] entries[i] == numbered(fs.own_items(ino))[i]
            &&& fs.listed(ino, child) && fs.files.contains_key(child) <==> exists|i: int| #[trigger]
                shown(i)
            &&& forall|i: int, j: int| #[trigger] shown(i) && #[trigger] shown(j) ==> i == j
            &&& forall|i: int| #[trigger]
                shown(i) ==> entries[i] == (EntryView {
                    ino: child,
                    next: i + 1,
                    kind: fs.files[child].attr.kind,
                    name: fs.files[child].name,
                })
        }),
{
    let own = fs.own_items(ino).len();
    let shown = |i: int| own <= i < entries.len() && entries[i].ino == child;
    let inos = choose|inos: Seq<u64>| #[trigger]
        fs.lists(ino, inos) && entries == listing_from(
            numbered(fs.own_items(ino) + fs.items_of(inos)),
            0,
        );
    let all = numbered(fs.own_items(ino) + fs.items_of(inos));
    assert(entries =~= all);
    assert forall|k: int| 0 <= k < inos.len() implies #[trigger] all[own + k].ino == inos[k] by {
        assert(inos.contains(inos[k]));
    }
    if inos.contains(child) {
        assert(shown(own + inos.index_of(child)));
    }
    assert forall|i: int| #[trigger] shown(i) implies inos[i - own] == child && inos.contains(child) by {
        assert(all[own + (i - own)].ino == inos[i - own]);
    }
}

/// A search that finds a file tells the attributes that asking for them by its number tells.
pub proof fn law_search_tells_the_attributes(fs: FsView, parent: u64, name: Seq<u8>, ino: u64)
    requires
        fs.finds(parent, name, Some(ino)),
    ensures
        fs.getattr(ino) == (Reply::Attr {
            ttl: Timespec::seconds(1),
            attr: fs.looked_up(Some(ino)).1->Entry_attr,
        }),
        fs.looked_up(Some(ino)).0.getattr(ino) == fs.getattr(ino),
{
}

} // verus!
