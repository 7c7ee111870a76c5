use ghfs::clock::Timespec;
use ghfs::file::{FileType, GitHubFileData};
use ghfs::filesystem::FileSystemData;
use ghfs::github_api::{Blob, Tree, TreeItem};
use ghfs::handler::{answer_at_once, message_handler_inner};
use ghfs::operation::{
    AttrChange, ContentUse, DirectoryEntry, DirectoryUse, Errno, Fetch, HandlerError, Message,
    Operation, Reply, Step,
};

fn at(sec: i64) -> Timespec {
    Timespec::new(sec, 0)
}

fn name(text: &str) -> Vec<u8> {
    text.as_bytes().to_vec()
}

fn refused() -> Result<Step, HandlerError> {
    Ok(Step::Finished(Reply::Error(Errno::ENOSYS)))
}

fn handle(fs: &mut FileSystemData, operation: Operation) -> Result<Step, HandlerError> {
    message_handler_inner(Message::new(1, 1000, 2000, 77, operation), fs)
}

fn items() -> Vec<TreeItem> {
    vec![
        TreeItem::Blob(Blob { path: "README".to_string(), size: 11, url: "blob-url".to_string() }),
        TreeItem::Tree(Tree { path: "src".to_string(), url: "tree-url".to_string() }),
    ]
}

fn lookup(parent: u64, text: &str) -> Operation {
    Operation::Lookup { parent, name: name(text) }
}

fn mounted() -> FileSystemData {
    FileSystemData::of_repository("root-url".to_string())
}

/// A table whose root directory has arrived: the file 2, `README`, and the directory 3, `src`.
fn arrived() -> FileSystemData {
    let mut fs = mounted();
    let step = handle(&mut fs, lookup(1, "README"));
    let then = match step {
        Ok(Step::AwaitDirectory { ino: 1, then }) => then,
        other => panic!("{:?}", other),
    };
    fs.entries_arrived(1, items(), 1000, 2000, then);
    fs
}

fn entries(step: Result<Step, HandlerError>) -> Vec<DirectoryEntry> {
    match step {
        Ok(Step::Finished(Reply::Directory(entries))) => entries,
        other => panic!("{:?}", other),
    }
}

fn readdir(ino: u64, offset: i64) -> Operation {
    Operation::Readdir { ino, fh: 0, offset }
}

#[test]
fn root_is_waited_for_once() {
    let mut fs = mounted();
    let step = handle(&mut fs, lookup(1, "README"));
    let then = DirectoryUse::Lookup { parent: 1, name: name("README") };
    assert_eq!(step, Ok(Step::AwaitDirectory { ino: 1, then }));
    let then = DirectoryUse::Lookup { parent: 1, name: name("README") };
    let (fetches, reply) = fs.entries_arrived(1, items(), 1000, 2000, then);
    assert_eq!(
        fetches,
        vec![
            Fetch::File {
                ino: 2,
                blob: Blob { path: "README".to_string(), size: 11, url: "blob-url".to_string() },
            },
            Fetch::Directory {
                ino: 3,
                tree: Tree { path: "src".to_string(), url: "tree-url".to_string() },
            },
        ]
    );
    match reply {
        Reply::Entry { ttl, attr, generation } => {
            assert_eq!((ttl, generation), (at(0), 0));
            assert_eq!((attr.ino, attr.size, attr.kind), (2, 11, FileType::RegularFile));
            assert_eq!((attr.perm, attr.uid, attr.gid), (0o444, 1000, 2000));
        }
        other => panic!("{:?}", other),
    }
    assert_eq!(fs.files[&2].lookup_count, 1);
    assert!(matches!(handle(&mut fs, lookup(1, "src")), Ok(Step::Finished(Reply::Entry { .. }))));
    assert_eq!(
        handle(&mut fs, lookup(1, "nothing")),
        Ok(Step::Finished(Reply::Error(Errno::ENOENT)))
    );
}

#[test]
fn empty_directory_arrives() {
    let mut fs = mounted();
    let step = handle(&mut fs, readdir(1, 0));
    let then = DirectoryUse::Readdir { ino: 1, offset: 0 };
    assert_eq!(step, Ok(Step::AwaitDirectory { ino: 1, then }));
    let then = DirectoryUse::Readdir { ino: 1, offset: 0 };
    let (fetches, reply) = fs.entries_arrived(1, Vec::new(), 0, 0, then);
    assert_eq!(fetches, Vec::new());
    assert!(matches!(reply, Reply::Directory(entries) if entries.len() == 2));
}

#[test]
fn entries_are_loaded_at_given_times() {
    let mut fs = FileSystemData::of_repository_at("u".to_string(), at(1));
    fs.load_directory_at(1, items(), 1, 2, &vec![at(5), at(6)]);
    assert_eq!(fs.files[&2].attr().crtime, at(5));
    assert_eq!(fs.files[&3].attr().crtime, at(6));
    assert_eq!(fs.files[&3].name, name("src"));
    assert_eq!(fs.inode_max, 4);
    assert_eq!(fs.children[&1].len(), 2);
}

#[test]
fn root_is_above_itself() {
    let mut fs = mounted();
    match handle(&mut fs, lookup(1, "..")) {
        Ok(Step::Finished(Reply::Entry { ttl, attr, generation })) => {
            assert_eq!((ttl, attr.ino, generation), (at(1), 1, 0));
        }
        other => panic!("{:?}", other),
    }
    assert_eq!(fs.files[&1].lookup_count, 0);
    assert!(matches!(fs.files[&1].data, GitHubFileData::FetchingGitHubDirectory(_)));
}

#[test]
fn directory_that_is_not_there() {
    let mut fs = arrived();
    assert_eq!(handle(&mut fs, lookup(99, "x")), Err(HandlerError::NoSuchDirectory));
    assert_eq!(handle(&mut fs, readdir(99, 0)), Err(HandlerError::NoSuchDirectory));
}

#[test]
fn directory_is_listed() {
    let mut fs = arrived();
    let all = entries(handle(&mut fs, readdir(1, 0)));
    assert_eq!(all.len(), 4);
    let dot = DirectoryEntry { ino: 1, next: 1, kind: FileType::Directory, name: name(".") };
    let dots = DirectoryEntry { ino: 1, next: 2, kind: FileType::Directory, name: name("..") };
    assert_eq!(all[0], dot);
    assert_eq!(all[1], dots);
    let nexts: Vec<u64> = all.iter().map(|e| e.next).collect();
    assert_eq!(nexts, vec![1, 2, 3, 4]);
    let mut rest: Vec<(u64, FileType, Vec<u8>)> =
        all[2..].iter().map(|e| (e.ino, e.kind, e.name.clone())).collect();
    rest.sort_by_key(|e| e.0);
    assert_eq!(
        rest,
        vec![(2, FileType::RegularFile, name("README")), (3, FileType::Directory, name("src"))]
    );

    let later = entries(handle(&mut fs, readdir(1, 2)));
    assert_eq!(later, all[2..]);
    assert_eq!(entries(handle(&mut fs, readdir(1, 4))), Vec::new());
    assert_eq!(entries(handle(&mut fs, readdir(1, 5))), Vec::new());
    assert_eq!(entries(handle(&mut fs, readdir(1, -1))), Vec::new());
}

#[test]
fn listing_names_the_parent_and_notes_the_access() {
    let mut fs = FileSystemData::of_repository_at("u".to_string(), at(1));
    fs.load_directory_at(1, Vec::new(), 0, 0, &Vec::new());
    fs.mkdir_at(1, name("a"), 0, 0, at(2), at(2));
    fs.mkdir_at(2, name("b"), 0, 0, at(3), at(3));
    match fs.readdir_loaded_at(3, 0, at(9)) {
        Reply::Directory(entries) => {
            assert_eq!(entries.len(), 2);
            assert_eq!((entries[0].ino, &entries[0].name), (3, &name(".")));
            assert_eq!((entries[1].ino, &entries[1].name), (2, &name("..")));
        }
        other => panic!("{:?}", other),
    }
    let attr = fs.files[&3].attr();
    assert_eq!((attr.atime, attr.mtime), (at(9), at(3)));
    fs.rmdir_at(1, &name("a"), at(10));
    match fs.readdir_loaded_at(3, 0, at(11)) {
        Reply::Directory(entries) => assert_eq!(entries.len(), 1),
        other => panic!("{:?}", other),
    }
}

#[test]
fn repository_file_is_waited_for_once() {
    let mut fs = arrived();
    let read = Operation::Read { ino: 2, fh: 0, offset: 2, size: 3 };
    let key = match handle(&mut fs, read) {
        Ok(Step::AwaitFile { ino: 2, key, then: ContentUse::Read { offset: 2, size: 3 } }) => key,
        other => panic!("{:?}", other),
    };
    assert_eq!((key >> 76) & 0xf, 4);
    assert_eq!((key >> 62) & 0x3, 2);
    assert!(matches!(fs.files[&2].data, GitHubFileData::Raw(k) if k == key));
    let mut content = b"hello world".to_vec();
    let reply = fs.use_content(ContentUse::Read { offset: 2, size: 3 }, &mut content);
    assert_eq!(reply, Reply::Data(b"llo".to_vec()));
    let read = Operation::Read { ino: 2, fh: 0, offset: 0, size: 1 };
    let then = ContentUse::Read { offset: 0, size: 1 };
    assert_eq!(handle(&mut fs, read), Ok(Step::UseContent { key, then }));
}

#[test]
fn repository_file_is_not_removed_before_it_arrives() {
    let mut fs = arrived();
    assert_eq!(handle(&mut fs, Operation::Unlink { parent: 1, name: name("README") }), refused());
    assert_eq!(handle(&mut fs, Operation::Rmdir { parent: 1, name: name("src") }), refused());
    let rename =
        Operation::Rename { parent: 1, name: name("src"), newparent: 1, newname: name("lib") };
    assert_eq!(handle(&mut fs, rename), refused());
    assert_eq!(fs.find_child(1, &name("README")), Some(2));
    assert_eq!(fs.find_child(1, &name("src")), Some(3));
}

#[test]
fn repository_file_is_written_after_it_arrived() {
    let mut fs = arrived();
    let write = Operation::Write { ino: 2, fh: 0, offset: 6, data: b"there!".to_vec(), flags: 0 };
    let then = match handle(&mut fs, write) {
        Ok(Step::AwaitFile { ino: 2, key: _, then }) => then,
        other => panic!("{:?}", other),
    };
    let mut content = b"hello world".to_vec();
    assert_eq!(fs.use_content(then, &mut content), Reply::Written(6));
    assert_eq!(content, b"hello there!");
    assert_eq!(fs.files[&2].attr().size, 12);
    assert_eq!(
        handle(&mut fs, Operation::Unlink { parent: 1, name: name("README") }),
        Ok(Step::Finished(Reply::Done))
    );
}

#[test]
fn new_files_have_new_keys() {
    let mut fs = arrived();
    let mut keys = Vec::new();
    for text in ["a", "b", "c"] {
        let create = Operation::Create { parent: 1, name: name(text), mode: 0o644, flags: 2 };
        match handle(&mut fs, create) {
            Ok(Step::StoreEmpty { key, reply: Reply::Created { attr, flags: 2, fh: 0, .. } }) => {
                assert_eq!((attr.uid, attr.gid, attr.size), (1000, 2000, 0));
                assert_eq!((key >> 76) & 0xf, 4);
                assert!(!keys.contains(&key));
                keys.push(key);
            }
            other => panic!("{:?}", other),
        }
    }
    assert_eq!(fs.inode_max, 7);
}

#[test]
fn times_come_from_the_clock() {
    let mut fs = arrived();
    let step = handle(&mut fs, Operation::Mkdir { parent: 1, name: name("d"), mode: 0 });
    match step {
        Ok(Step::Finished(Reply::Entry { ttl, attr, .. })) => {
            assert_eq!((ttl, attr.ino, attr.uid, attr.gid), (at(1), 4, 1000, 2000));
            assert!(attr.crtime.sec > 1_500_000_000);
            assert!((0..1_000_000_000).contains(&attr.crtime.nsec));
        }
        other => panic!("{:?}", other),
    }
}

#[test]
fn attributes_are_asked_for_and_changed() {
    let mut fs = arrived();
    let change = AttrChange {
        mode: Some(0o600),
        uid: None,
        gid: None,
        size: Some(5),
        atime: None,
        mtime: None,
        fh: None,
        crtime: None,
        chgtime: None,
        bkuptime: None,
        flags: None,
    };
    let changed = match handle(&mut fs, Operation::Setattr { ino: 2, change }) {
        Ok(Step::Finished(Reply::Attr { ttl, attr })) => {
            assert_eq!((ttl, attr.perm, attr.size), (at(1), 0o600, 11));
            attr
        }
        other => panic!("{:?}", other),
    };
    assert_eq!(
        handle(&mut fs, Operation::Getattr { ino: 2 }),
        Ok(Step::Finished(Reply::Attr { ttl: at(1), attr: changed }))
    );
    assert_eq!(handle(&mut fs, Operation::Getattr { ino: 50 }), refused());
    assert_eq!(handle(&mut fs, Operation::Setattr { ino: 50, change }), refused());
}

#[test]
fn requests_that_are_always_granted() {
    let mut fs = mounted();
    let done = || Ok(Step::Finished(Reply::Done));
    let opened = Ok(Step::Finished(Reply::Opened { fh: 0, flags: 6 }));
    assert_eq!(handle(&mut fs, Operation::Open { ino: 9, flags: 6 }), opened);
    let opened = Ok(Step::Finished(Reply::Opened { fh: 0, flags: 7 }));
    assert_eq!(handle(&mut fs, Operation::Opendir { ino: 9, flags: 7 }), opened);
    assert_eq!(handle(&mut fs, Operation::Flush { ino: 9, fh: 0, lock_owner: 0 }), done());
    let release = Operation::Release { ino: 9, fh: 0, flags: 0, lock_owner: 0, flush: true };
    assert_eq!(handle(&mut fs, release), done());
    assert_eq!(handle(&mut fs, Operation::Releasedir { ino: 9, fh: 0, flags: 0 }), done());
    assert_eq!(handle(&mut fs, Operation::Access { ino: 9, mask: 7 }), done());
    assert_eq!(
        handle(&mut fs, Operation::Forget { ino: 9, nlookup: 1 }),
        Ok(Step::Finished(Reply::Nothing))
    );
    let statfs = Reply::Statfs {
        blocks: 0,
        bfree: 0,
        bavail: 0,
        files: 0,
        ffree: 0,
        bsize: 512,
        namelen: 255,
        frsize: 0,
    };
    assert_eq!(handle(&mut fs, Operation::Statfs { ino: 1 }), Ok(Step::Finished(statfs)));
}

#[test]
fn requests_that_are_always_refused() {
    let mut fs = mounted();
    let (ino, fh, parent, size, lock_owner) = (1, 0, 1, 9, 0);
    let n = || name("x");
    let operations = vec![
        Operation::Readlink { ino },
        Operation::Mknod { parent, name: n(), mode: 0, rdev: 0 },
        Operation::Symlink { parent, name: n(), link: n() },
        Operation::Link { ino, newparent: 1, newname: n() },
        Operation::Fsync { ino, fh, datasync: false },
        Operation::Fsyncdir { ino, fh, datasync: true },
        Operation::Setxattr { ino, name: n(), value: n(), flags: 0, position: 0 },
        Operation::Getxattr { ino, name: n(), size },
        Operation::Listxattr { ino, size },
        Operation::Removexattr { ino, name: n() },
        Operation::Getlk { ino, fh, lock_owner, start: 0, end: 0, typ: 0, pid: 0 },
        Operation::Setlk { ino, fh, lock_owner, start: 0, end: 0, typ: 0, pid: 0, sleep: true },
        Operation::Bmap { ino, blocksize: 512, idx: 0 },
    ];
    for operation in operations {
        assert_eq!(handle(&mut fs, operation), refused());
    }
    assert_eq!(fs.files.len(), 1);
    assert_eq!(fs.inode_max, 2);
}

#[test]
fn empty_name_finds_nothing() {
    let mut fs = arrived();
    let not_found = Ok(Step::Finished(Reply::Error(Errno::ENOENT)));
    assert_eq!(handle(&mut fs, lookup(1, "")), not_found);
}

#[test]
fn early_answers_agree() {
    let mut fs = arrived();
    let open = Operation::Open { ino: 9, flags: 6 };
    let early = answer_at_once(&open);
    assert_eq!(early, Some(Reply::Opened { fh: 0, flags: 6 }));
    assert_eq!(handle(&mut fs, open), Ok(Step::Finished(early.unwrap())));
    assert_eq!(answer_at_once(&Operation::Readlink { ino: 1 }), Some(Reply::Error(Errno::ENOSYS)));
    assert_eq!(answer_at_once(&Operation::Getattr { ino: 1 }), None);

    for operation in [Operation::Getattr { ino: 2 }, Operation::Getattr { ino: 77 }, lookup(1, "..")] {
        let early = fs.answer_by_looking(&operation).unwrap();
        assert_eq!(handle(&mut fs, operation), Ok(Step::Finished(early)));
    }
    assert_eq!(fs.answer_by_looking(&lookup(1, "README")), None);
    assert_eq!(fs.answer_by_looking(&lookup(3, "..")), None);
    assert_eq!(fs.answer_by_looking(&Operation::Open { ino: 1, flags: 0 }), None);
}

#[test]
fn sizes_stay_right_through_requests() {
    let mut fs = arrived();
    let read = Operation::Read { ino: 2, fh: 0, offset: 0, size: 1 };
    assert!(matches!(handle(&mut fs, read), Ok(Step::AwaitFile { .. })));
    let mut content = b"hello world".to_vec();
    assert_eq!(fs.files[&2].attr().size, content.len() as u64);
    let write = Operation::Write { ino: 2, fh: 0, offset: 20, data: b"!".to_vec(), flags: 0 };
    match handle(&mut fs, write) {
        Ok(Step::UseContent { key: _, then }) => fs.use_content(then, &mut content),
        other => panic!("{:?}", other),
    };
    assert_eq!(content.len(), 21);
    assert_eq!(fs.files[&2].attr().size, 21);
    let rename =
        Operation::Rename { parent: 1, name: name("README"), newparent: 3, newname: name("r") };
    assert_eq!(handle(&mut fs, rename), Ok(Step::Finished(Reply::Done)));
    assert_eq!(fs.files[&2].attr().size, 21);
}

#[test]
fn removed_name_is_not_found() {
    let mut fs = arrived();
    handle(&mut fs, Operation::Mkdir { parent: 1, name: name("d"), mode: 0 }).unwrap();
    handle(&mut fs, Operation::Create { parent: 1, name: name("f"), mode: 0, flags: 0 }).unwrap();
    assert!(matches!(handle(&mut fs, lookup(1, "d")), Ok(Step::Finished(Reply::Entry { .. }))));
    assert!(matches!(handle(&mut fs, lookup(1, "f")), Ok(Step::Finished(Reply::Entry { .. }))));
    let done = || Ok(Step::Finished(Reply::Done));
    assert_eq!(handle(&mut fs, Operation::Rmdir { parent: 1, name: name("d") }), done());
    assert_eq!(handle(&mut fs, Operation::Unlink { parent: 1, name: name("f") }), done());
    for text in ["d", "f"] {
        assert_eq!(
            handle(&mut fs, lookup(1, text)),
            Ok(Step::Finished(Reply::Error(Errno::ENOENT)))
        );
    }
}
