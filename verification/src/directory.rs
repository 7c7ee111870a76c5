//! Directories: how their entries arrive, are looked up and are listed.

use std::collections::hash_map::Entry;

use vstd::prelude::*;
use vstd::string::*;

use crate::clock::{time_now, Timespec};
use crate::file::{
    create_github_directory, create_github_file, DataView, EditableFileAttr, FileType, FileView,
    GitHubFileData,
};
use crate::filesystem::{FileSystemData, FsView, ROOT};
use crate::github_api::TreeItem;
use crate::operation::{DirectoryEntry, EntryView, Errno, Fetch, Reply};

verus! {

use vstd::utf8::encode_utf8;

use crate::clock::all_valid;
use crate::filesystem::lemma_with_file_well_formed;

broadcast use vstd::std_specs::hash::group_hash_axioms;

/// The byte of which the names of a directory's own two entries are made.
pub const DOT: u8 = 46;

/// The name under which a directory lists itself.
pub open spec fn current() -> Seq<u8> {
    seq![DOT]
}

/// The name under which a directory lists the directory that it is in.
pub open spec fn upward() -> Seq<u8> {
    seq![DOT, DOT]
}

/// What a listing tells of a file: its number, its kind and its name.
pub type Item = (u64, FileType, Seq<u8>);

/// The entries of a listing: each tells where a later listing goes on after it.
pub open spec fn numbered(items: Seq<Item>) -> Seq<EntryView> {
    Seq::new(
        items.len(),
        |i: int| EntryView { ino: items[i].0, next: i + 1, kind: items[i].1, name: items[i].2 },
    )
}

/// What is left of a listing from `offset` on.  Nothing is, where `offset` is negative.
pub open spec fn listing_from(entries: Seq<EntryView>, offset: int) -> Seq<EntryView> {
    if 0 <= offset <= entries.len() {
        entries.skip(offset)
    } else {
        Seq::empty()
    }
}

/// The view of a list of items.
spec fn items_view(items: Seq<(u64, FileType, Vec<u8>)>) -> Seq<Item> {
    Seq::new(items.len(), |i: int| (items[i].0, items[i].1, items[i].2@))
}

/// Puts an item at the end of a list.
fn push_item(items: &mut Vec<(u64, FileType, Vec<u8>)>, ino: u64, kind: FileType, name: Vec<u8>)
    ensures
        items_view(final(items)@) == items_view(old(items)@).push((ino, kind, name@)),
{
    let ghost before = items@;
    items.push((ino, kind, name));
    assert(items_view(items@) =~= items_view(before).push((ino, kind, name@)));
}

/// What a sequence holds after one more element was put at its end.
proof fn lemma_push_contains<T>(s: Seq<T>, x: T, y: T)
    ensures
        s.push(x).contains(y) <==> s.contains(y) || x == y,
{
    assert(s.push(x).last() == x);
    if s.contains(y) {
        let i = s.index_of(y);
        assert(s.push(x)[i] == y);
    }
    if s.push(x).contains(y) && x != y {
        let i = s.push(x).index_of(y);
        assert(s[i] == y);
    }
}

/// The file that stands for an entry of a directory of the repository.
pub open spec fn item_file(
    item: TreeItem,
    ino: u64,
    directory: u64,
    uid: u32,
    gid: u32,
    time: Timespec,
) -> FileView {
    match item {
        TreeItem::Blob(blob) => FileView::github_file(
            ino,
            blob.size as u64,
            directory,
            uid,
            gid,
            encode_utf8(blob.path@),
            blob.url@,
            time,
        ),
        TreeItem::Tree(tree) => FileView::github_directory(
            ino,
            directory,
            uid,
            gid,
            encode_utf8(tree.path@),
            tree.url@,
            time,
        ),
    }
}

/// The transfer to be started for an entry of a directory of the repository.
pub open spec fn item_fetch(item: TreeItem, ino: u64) -> Fetch {
    match item {
        TreeItem::Blob(blob) => Fetch::File { ino, blob },
        TreeItem::Tree(tree) => Fetch::Directory { ino, tree },
    }
}

/// The transfers to be started for the entries of a directory, where the first of them gets the
/// number `first`.
pub open spec fn item_fetches(items: Seq<TreeItem>, first: u64) -> Seq<Fetch> {
    Seq::new(items.len(), |i: int| item_fetch(items[i], (first + i) as u64))
}

impl FsView {
    /// Whether the entries of `ino` are on their way.
    pub open spec fn awaits_entries(self, ino: u64) -> bool {
        self.files.contains_key(ino) && self.files[ino].data is FetchingGitHubDirectory
    }

    /// The table once the entries of `ino`, if they were on their way, are no longer waited for.
    pub open spec fn opened(self, ino: u64) -> FsView {
        if self.awaits_entries(ino) {
            self.with_file(ino, FileView { data: DataView::Nothing, ..self.files[ino] })
        } else {
            self
        }
    }

    /// Whether `ino` is the number of one of `count` new files.
    pub open spec fn is_new(self, ino: u64, count: nat) -> bool {
        self.inode_max <= ino < self.inode_max + count
    }

    /// The table with `items`, made at `times`, as entries of `directory`.
    pub open spec fn loaded(
        self,
        directory: u64,
        items: Seq<TreeItem>,
        uid: u32,
        gid: u32,
        times: Seq<Timespec>,
    ) -> FsView {
        let first = self.inode_max;
        FsView {
            files: Map::new(
                |ino: u64| self.files.contains_key(ino) || self.is_new(ino, items.len()),
                |ino: u64|
                    if self.is_new(ino, items.len()) {
                        item_file(items[ino - first], ino, directory, uid, gid, times[ino - first])
                    } else {
                        self.files[ino]
                    },
            ),
            children: if items.len() == 0 {
                self.children
            } else {
                self.children.insert(
                    directory,
                    self.children_of(directory).union(
                        Set::new(|ino: u64| self.is_new(ino, items.len())),
                    ),
                )
            },
            inode_max: (first + items.len()) as u64,
        }
    }

    /// Whether `items` may become entries of `directory`, at the times of their arrival, so that it
    /// ends in the table `after`.
    pub open spec fn may_load(
        self,
        directory: u64,
        items: Seq<TreeItem>,
        uid: u32,
        gid: u32,
        after: FsView,
    ) -> bool {
        exists|times: Seq<Timespec>|
            times.len() == items.len() && all_valid(times) && after == #[trigger] self.loaded(
                directory,
                items,
                uid,
                gid,
                times,
            )
    }

    /// What becomes of a search that has ended with `found`: the table and the answer.
    pub open spec fn looked_up(self, found: Option<u64>) -> (FsView, Reply) {
        match found {
            Some(ino) => {
                let file = self.files[ino];
                (
                    self.with_file(
                        ino,
                        FileView {
                            lookup_count: if file.lookup_count == usize::MAX {
                                0
                            } else {
                                (file.lookup_count + 1) as usize
                            },
                            ..file
                        },
                    ),
                    Reply::Entry {
                        ttl: Timespec::seconds(0),
                        attr: file.attr.told(),
                        generation: 0,
                    },
                )
            },
            None => (self, Reply::Error(Errno::ENOENT)),
        }
    }

    /// The table after `ino`, if it is there, was accessed at `time`.
    pub open spec fn accessed(self, ino: u64, time: Timespec) -> FsView {
        if self.files.contains_key(ino) {
            self.with_attr(ino, EditableFileAttr { atime: time, ..self.files[ino].attr })
        } else {
            self
        }
    }

    /// What a directory lists of itself and of the directory that it is in, if it is there.  The
    /// root is listed as its own parent.
    pub open spec fn own_items(self, ino: u64) -> Seq<Item> {
        if self.files.contains_key(ino) {
            let file = self.files[ino];
            let above = if ino == ROOT {
                ino
            } else {
                file.parent
            };
            let itself = seq![(file.attr.ino, file.attr.kind, current())];
            if self.files.contains_key(above) {
                let attr = self.files[above].attr;
                itself.push((attr.ino, attr.kind, upward()))
            } else {
                itself
            }
        } else {
            Seq::empty()
        }
    }

    /// What a directory lists of the files `inos`.
    pub open spec fn items_of(self, inos: Seq<u64>) -> Seq<Item> {
        Seq::new(
            inos.len(),
            |i: int|
                (self.files[inos[i]].attr.ino, self.files[inos[i]].attr.kind, self.files[inos[i]].name),
        )
    }

    /// Whether `inos` are the files in the directory `ino`, each once.
    pub open spec fn lists(self, ino: u64, inos: Seq<u64>) -> bool {
        &&& inos.no_duplicates()
        &&& forall|c: u64| #[trigger]
            inos.contains(c) <==> self.listed(ino, c) && self.files.contains_key(c)
    }

    /// Whether the directory `ino` may be listed from `offset` on as `entries`.
    pub open spec fn may_list(self, ino: u64, offset: int, entries: Seq<EntryView>) -> bool {
        exists|inos: Seq<u64>| #[trigger]
            self.lists(ino, inos) && entries == listing_from(
                numbered(self.own_items(ino) + self.items_of(inos)),
                offset,
            )
    }

    /// Whether a listing of the directory `ino` from `offset` on, at `time`, may end in the table
    /// `after` and be answered with `reply`.
    pub open spec fn reads_directory(
        self,
        ino: u64,
        offset: int,
        time: Timespec,
        after: FsView,
        reply: Reply,
    ) -> bool {
        &&& after == self.accessed(ino, time)
        &&& reply matches Reply::Directory(entries) && self.may_list(
            ino,
            offset,
            entries@.map_values(|e: DirectoryEntry| e@),
        )
    }
}

/// Whether `name` is the name under which a directory lists the directory that it is in.
pub(crate) fn is_upward(name: &Vec<u8>) -> (is: bool)
    ensures
        is == (name@ == upward()),
{
    let is = name.len() == 2 && name[0] == DOT && name[1] == DOT;
    assert(is ==> name@ =~= upward());
    is
}

impl FileSystemData {
    /// No longer waits for the entries of `directory`, and tells whether they were on their way.
    pub(crate) fn open_directory(&mut self, directory: u64) -> (awaited: bool)
        ensures
            final(self)@ == old(self)@.opened(directory),
            awaited == old(self)@.awaits_entries(directory),
            old(self).well_formed() ==> final(self).well_formed(),
    {
        let ghost before = *self;
        let awaited = match self.files.get(&directory) {
            Some(file) => match file.data {
                GitHubFileData::FetchingGitHubDirectory(_) => true,
                _ => false,
            },
            None => false,
        };
        if awaited {
            match self.files.entry(directory) {
                Entry::Occupied(entry) => {
                    entry.into_mut().data = GitHubFileData::Nothing;
                },
                Entry::Vacant(_) => {},
            }
        }
        assert(self@ =~= before@.opened(directory));
        proof {
            if before.well_formed() && awaited {
                lemma_with_file_well_formed(before@, directory, self@.files[directory]);
            }
        }
        awaited
    }

    /// Makes `item` an entry of `directory`.
    fn insert_item(
        &mut self,
        directory: u64,
        item: TreeItem,
        uid: u32,
        gid: u32,
        time: Timespec,
    ) -> (fetch: Fetch)
        requires
            old(self).inode_max < u64::MAX,
        ensures
            final(self)@ == old(self)@.loaded(directory, seq![item], uid, gid, seq![time]),
            fetch == item_fetch(item, old(self).inode_max),
    {
        let ghost before = *self;
        let ino = self.inode_max;
        self.inode_max = ino + 1;
        let fetch = match item {
            TreeItem::Blob(blob) => {
                let name = blob.path().as_bytes_vec();
                let file = create_github_file(
                    ino,
                    blob.size() as u64,
                    directory,
                    uid,
                    gid,
                    name,
                    blob.url.clone(),
                    time,
                );
                self.files.insert(ino, file);
                Fetch::File { ino, blob }
            },
            TreeItem::Tree(tree) => {
                let name = tree.path().as_bytes_vec();
                let file = create_github_directory(
                    ino,
                    directory,
                    uid,
                    gid,
                    name,
                    tree.url.clone(),
                    time,
                );
                self.files.insert(ino, file);
                Fetch::Directory { ino, tree }
            },
        };
        self.adopt(directory, ino);
        let ghost loaded = before@.loaded(directory, seq![item], uid, gid, seq![time]);
        assert(self@.files =~= loaded.files);
        assert(self@.children[directory] =~= loaded.children[directory]);
        assert(self@ =~= loaded);
        fetch
    }

    /// Makes `items` the entries of `directory`, made at `times`, and tells which transfers to
    /// start for them.
    pub fn load_directory_at(
        &mut self,
        directory: u64,
        items: Vec<TreeItem>,
        uid: u32,
        gid: u32,
        times: &Vec<Timespec>,
    ) -> (fetches: Vec<Fetch>)
        requires
            old(self).well_formed(),
            old(self).inode_max + items@.len() <= u64::MAX,
            times@.len() == items@.len(),
        ensures
            final(self).well_formed(),
            final(self)@ == old(self)@.loaded(directory, items@, uid, gid, times@),
            fetches@ == item_fetches(items@, old(self).inode_max),
    {
        let ghost before = *self;
        let ghost all = items@;
        let mut fetches: Vec<Fetch> = Vec::new();
        assert(self@ =~= before@.loaded(directory, all.take(0), uid, gid, times@.take(0)));
        for item in iter: items
            invariant
                iter.seq() == all,
                before.inode_max + all.len() <= u64::MAX,
                times@.len() == all.len(),
                fetches@.len() == iter.index(),
                self@ == before@.loaded(
                    directory,
                    all.take(iter.index() as int),
                    uid,
                    gid,
                    times@.take(iter.index() as int),
                ),
                fetches@ == item_fetches(all.take(iter.index() as int), before.inode_max),
        {
            let ghost i = iter.index() as int;
            let time = times[fetches.len()];
            let fetch = self.insert_item(directory, item, uid, gid, time);
            fetches.push(fetch);
            proof {
                lemma_loaded_one_more(before@, directory, all, uid, gid, times@, i);
                assert(fetches@ =~= item_fetches(all.take(i + 1), before.inode_max));
            }
        }
        proof {
            assert(all.take(all.len() as int) =~= all);
            assert(times@.take(all.len() as int) =~= times@);
            lemma_loaded_well_formed(before@, directory, all, uid, gid, times@);
        }
        fetches
    }

    /// Makes `items` the entries of `directory`, and tells which transfers to start for them.
    pub fn load_directory(
        &mut self,
        directory: u64,
        items: Vec<TreeItem>,
        uid: u32,
        gid: u32,
    ) -> (fetches: Vec<Fetch>)
        requires
            old(self).well_formed(),
            old(self).inode_max + items@.len() <= u64::MAX,
        ensures
            final(self).well_formed(),
            exists|times: Seq<Timespec>|
                times.len() == items@.len() && all_valid(times) && final(self)@ == #[trigger] old(self)@.loaded(
                    directory,
                    items@,
                    uid,
                    gid,
                    times,
                ),
            old(self)@.may_load(directory, items@, uid, gid, final(self)@),
            fetches@ == item_fetches(items@, old(self).inode_max),
    {
        let mut times: Vec<Timespec> = Vec::new();
        while times.len() < items.len()
            invariant
                times@.len() <= items@.len(),
                all_valid(times@),
            decreases items@.len() - times@.len(),
        {
            times.push(time_now());
        }
        self.load_directory_at(directory, items, uid, gid, &times)
    }

    /// Looks up `name` in `parent`, whose entries are known.
    pub fn lookup_loaded(&mut self, parent: u64, name: &Vec<u8>) -> (reply: Reply)
        requires
            old(self).well_formed(),
        ensures
            final(self).well_formed(),
            exists|found: Option<u64>| #[trigger]
                old(self)@.finds(parent, name@, found) && (final(self)@, reply) == old(
                    self,
                )@.looked_up(found),
    {
        let found = self.find_child(parent, name);
        let ghost before = *self;
        let reply = match found {
            Some(ino) => match self.files.entry(ino) {
                Entry::Occupied(entry) => {
                    let file = entry.into_mut();
                    file.lookup_count = file.lookup_count.wrapping_add(1);
                    Reply::Entry { ttl: Timespec::new(0, 0), attr: file.attr(), generation: 0 }
                },
                Entry::Vacant(_) => Reply::Error(Errno::ENOENT),
            },
            None => Reply::Error(Errno::ENOENT),
        };
        proof {
            assert(self@ =~= before@.looked_up(found).0);
            if let Some(ino) = found {
                lemma_with_file_well_formed(before@, ino, self@.files[ino]);
            }
        }
        reply
    }
}

impl FileSystemData {
    /// What the directory `ino` lists.
    fn directory_items(&self, ino: u64) -> (items: Vec<(u64, FileType, Vec<u8>)>)
        ensures
            exists|inos: Seq<u64>| #[trigger]
                self@.lists(ino, inos) && items_view(items@) == self@.own_items(ino)
                    + self@.items_of(inos),
    {
        let mut items: Vec<(u64, FileType, Vec<u8>)> = Vec::new();
        if let Some(file) = self.files.get(&ino) {
            let name: Vec<u8> = vec![DOT];
            assert(name@ =~= current());
            push_item(&mut items, file.attr.ino, file.attr.kind, name);
            let above = if ino == ROOT {
                ino
            } else {
                file.parent
            };
            if let Some(file) = self.files.get(&above) {
                let name: Vec<u8> = vec![DOT, DOT];
                assert(name@ =~= upward());
                push_item(&mut items, file.attr.ino, file.attr.kind, name);
            }
        }
        let ghost own = self@.own_items(ino);
        let ghost mut inos: Seq<u64> = Seq::empty();
        assert(items_view(items@) =~= own + self@.items_of(inos));
        match self.children.get(&ino) {
            Some(children) => {
                assert(children@ == self@.children_of(ino));
                let ghost mut seen: Seq<u64> = Seq::empty();
                for child in iter: children.iter()
                    invariant
                        children@ == self@.children_of(ino),
                        iter.seq().unref().to_set() == children@,
                        iter.seq().no_duplicates(),
                        items_view(items@) == own + self@.items_of(inos),
                        inos.no_duplicates(),
                        seen.len() == iter.index(),
                        forall|j: int| 0 <= j < seen.len() ==> #[trigger] seen[j] == iter.seq().unref()[j],
                        seen.len() == iter.seq().len() ==> seen =~= iter.seq().unref(),
                        forall|c: u64| #[trigger]
                            inos.contains(c) <==> self@.files.contains_key(c) && seen.contains(c),
                {
                    let ghost old_inos = inos;
                    let ghost old_seen = seen;
                    proof {
                        seen = seen.push(*child);
                    }
                    assert(!old_seen.contains(*child)) by {
                        assert forall|j: int| 0 <= j < old_seen.len() implies old_seen[j] != *child by {
                            assert(iter.seq()[j] != iter.seq()[iter.index() as int]);
                        }
                    }
                    if let Some(file) = self.files.get(child) {
                        push_item(&mut items, file.attr.ino, file.attr.kind, file.name.clone());
                        assert(!inos.contains(*child));
                        proof {
                            inos = inos.push(*child);
                        }
                        assert(items_view(items@) =~= own + self@.items_of(inos));
                    }
                    assert forall|c: u64| #[trigger] inos.contains(c) <==> self@.files.contains_key(c)
                        && seen.contains(c) by {
                        lemma_push_contains(old_seen, *child, c);
                        lemma_push_contains(old_inos, *child, c);
                    }
                }
                assert(seen.to_set() == children@);
                assert(self@.lists(ino, inos)) by {
                    assert forall|c: u64| seen.contains(c) <==> children@.contains(c) by {
                        assert(seen.contains(c) <==> seen.to_set().contains(c));
                    }
                }
            },
            None => {},
        }
        assert(self@.lists(ino, inos));
        items
    }

    /// Lists the directory `ino`, whose entries are known, from `offset` on, at `time`.
    pub fn readdir_loaded_at(&mut self, ino: u64, offset: i64, time: Timespec) -> (reply: Reply)
        requires
            old(self).well_formed(),
        ensures
            final(self).well_formed(),
            old(self)@.reads_directory(ino, offset as int, time, final(self)@, reply),
    {
        let ghost before = *self;
        let items = self.directory_items(ino);
        match self.files.entry(ino) {
            Entry::Occupied(entry) => {
                entry.into_mut().attr.update_atime(time);
            },
            Entry::Vacant(_) => {},
        }
        let mut entries: Vec<DirectoryEntry> = Vec::new();
        if offset >= 0 && offset as u64 <= items.len() as u64 {
            let mut i: usize = offset as usize;
            while i < items.len()
                invariant
                    0 <= offset <= i <= items@.len(),
                    entries@.len() == i - offset,
                    forall|j: int|
                        0 <= j < entries@.len() ==> (#[trigger] entries@[j])@ == (EntryView {
                            ino: items@[offset + j].0,
                            next: offset + j + 1,
                            kind: items@[offset + j].1,
                            name: items@[offset + j].2@,
                        }),
                decreases items@.len() - i,
            {
                entries.push(
                    DirectoryEntry {
                        ino: items[i].0,
                        next: i as u64 + 1,
                        kind: items[i].1,
                        name: items[i].2.clone(),
                    },
                );
                i = i + 1;
            }
        }
        proof {
            assert(self@ =~= before@.accessed(ino, time));
            if before@.files.contains_key(ino) {
                lemma_with_file_well_formed(before@, ino, before@.accessed(ino, time).files[ino]);
            }
            let inos = choose|inos: Seq<u64>| #[trigger]
                before@.lists(ino, inos) && items_view(items@) == before@.own_items(ino) + before@.items_of(inos);
            assert(entries@.map_values(|e: DirectoryEntry| e@) =~= listing_from(
                numbered(before@.own_items(ino) + before@.items_of(inos)),
                offset as int,
            ));
        }
        Reply::Directory(entries)
    }
}

/// The entries of a directory arrive one after the other.
proof fn lemma_loaded_one_more(
    fs: FsView,
    directory: u64,
    items: Seq<TreeItem>,
    uid: u32,
    gid: u32,
    times: Seq<Timespec>,
    i: int,
)
    requires
        0 <= i < items.len() == times.len(),
        fs.inode_max + items.len() <= u64::MAX,
    ensures
        fs.loaded(directory, items.take(i + 1), uid, gid, times.take(i + 1)) == fs.loaded(
            directory,
            items.take(i),
            uid,
            gid,
            times.take(i),
        ).loaded(directory, seq![items[i]], uid, gid, seq![times[i]]),
{
    let some = fs.loaded(directory, items.take(i), uid, gid, times.take(i));
    let more = fs.loaded(directory, items.take(i + 1), uid, gid, times.take(i + 1));
    let next = some.loaded(directory, seq![items[i]], uid, gid, seq![times[i]]);
    assert(some.inode_max == fs.inode_max + i);
    assert(more.files =~= next.files);
    assert(more.children[directory] =~= next.children[directory]);
    assert(more.children =~= next.children);
}

/// The entries of a directory keep the table sound.
pub(crate) proof fn lemma_loaded_well_formed(
    fs: FsView,
    directory: u64,
    items: Seq<TreeItem>,
    uid: u32,
    gid: u32,
    times: Seq<Timespec>,
)
    requires
        fs.well_formed(),
        fs.inode_max + items.len() <= u64::MAX,
        times.len() == items.len(),
    ensures
        fs.loaded(directory, items, uid, gid, times).well_formed(),
{
    let after = fs.loaded(directory, items, uid, gid, times);
    assert forall|p: u64, c: u64| #[trigger] after.listed(p, c) implies fs.listed(p, c) || (p
        == directory && fs.is_new(c, items.len())) by {}
    assert forall|c: u64| #[trigger] after.files.contains_key(c) && c != ROOT implies after.listed(
        after.files[c].parent,
        c,
    ) by {
        if !fs.is_new(c, items.len()) {
            assert(fs.files.contains_key(c));
            assert(fs.listed(fs.files[c].parent, c));
        }
    }
}

} // verus!
