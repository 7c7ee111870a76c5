use ghfs::clock::Timespec;
use ghfs::file::{
    create_directory, create_empty_file, create_github_directory, create_github_file, FileType,
    GitHubFileData,
};
use ghfs::filesystem::FileSystemData;
use ghfs::operation::{AttrChange, ContentUse, Errno, Reply, Step};

fn at(sec: i64) -> Timespec {
    Timespec::new(sec, 0)
}

fn name(text: &str) -> Vec<u8> {
    text.as_bytes().to_vec()
}

fn table() -> FileSystemData {
    FileSystemData::of_repository_at("root-url".to_string(), at(1))
}

fn no_change() -> AttrChange {
    AttrChange {
        mode: None,
        uid: None,
        gid: None,
        size: None,
        atime: None,
        mtime: None,
        fh: None,
        crtime: None,
        chgtime: None,
        bkuptime: None,
        flags: None,
    }
}

fn refused() -> Reply {
    Reply::Error(Errno::ENOSYS)
}

#[test]
fn files_are_made_with_their_attributes() {
    let file = create_empty_file(5, 1, 10, 20, name("a"), 77, at(3));
    let attr = file.attr();
    assert_eq!((attr.ino, attr.size, attr.blocks), (5, 0, 0));
    assert_eq!((attr.atime, attr.mtime, attr.ctime, attr.crtime), (at(3), at(3), at(3), at(3)));
    assert_eq!((attr.kind, attr.perm), (FileType::RegularFile, 0o664));
    assert_eq!((attr.nlink, attr.uid, attr.gid, attr.rdev, attr.flags), (0, 10, 20, 0, 0));
    assert!(matches!(file.data, GitHubFileData::Raw(77)));
    assert_eq!((file.parent, file.lookup_count, file.removed), (1, 0, false));

    let file = create_directory(6, 1, 10, 20, name("d"), at(3));
    assert_eq!((file.attr().kind, file.attr().perm), (FileType::Directory, 0o775));
    assert!(matches!(file.data, GitHubFileData::Nothing));

    let file = create_github_file(7, 123, 1, 10, 20, name("g"), "u".to_string(), at(3));
    assert_eq!((file.attr().kind, file.attr().perm), (FileType::RegularFile, 0o444));
    assert_eq!(file.attr().size, 123);
    assert!(matches!(file.data, GitHubFileData::FetchingGitHubFile(_)));

    let file = create_github_directory(8, 1, 10, 20, name("t"), "u".to_string(), at(3));
    assert_eq!((file.attr().kind, file.attr().perm), (FileType::Directory, 0o555));
    assert!(matches!(file.data, GitHubFileData::FetchingGitHubDirectory(_)));
}

#[test]
fn root_is_there_from_the_start() {
    let fs = table();
    match fs.getattr(1) {
        Reply::Attr { ttl, attr } => {
            assert_eq!(ttl, at(1));
            assert_eq!((attr.ino, attr.kind, attr.perm), (1, FileType::Directory, 0o555));
            assert_eq!((attr.uid, attr.gid, attr.mtime), (0, 0, at(1)));
        }
        other => panic!("{:?}", other),
    }
    assert_eq!(fs.getattr(2), refused());
    assert_eq!(fs.inode_max, 2);
}

#[test]
fn directory_is_made_and_removed() {
    let mut fs = table();
    let reply = fs.mkdir_at(1, name("d"), 10, 20, at(5), at(6));
    let attr = match reply {
        Reply::Entry { ttl, attr, generation } => {
            assert_eq!((ttl, generation), (at(1), 0));
            attr
        }
        other => panic!("{:?}", other),
    };
    assert_eq!((attr.ino, attr.kind, attr.perm), (2, FileType::Directory, 0o775));
    assert_eq!((attr.uid, attr.gid, attr.crtime), (10, 20, at(5)));
    assert_eq!(fs.getattr(2), Reply::Attr { ttl: at(1), attr });
    assert_eq!(fs.find_child(1, &name("d")), Some(2));
    assert_eq!(fs.find_child(1, &name("e")), None);
    assert_eq!(fs.find_child(2, &name("d")), None);
    let root = fs.files[&1].attr();
    assert_eq!((root.mtime, root.ctime, root.atime), (at(6), at(6), at(1)));

    assert_eq!(fs.unlink_at(1, &name("d"), at(7)), refused());
    assert_eq!(fs.rmdir_at(1, &name("e"), at(7)), refused());
    assert_eq!(fs.files[&1].attr().mtime, at(6));
    assert_eq!(fs.rmdir_at(1, &name("d"), at(8)), Reply::Done);
    assert_eq!(fs.files[&1].attr().mtime, at(8));
    assert_eq!(fs.find_child(1, &name("d")), None);
    assert_eq!(fs.getattr(2), refused());
    assert_eq!(fs.rmdir_at(1, &name("d"), at(9)), refused());
}

#[test]
fn file_is_made_and_removed() {
    let mut fs = table();
    let reply = fs.create_at(1, name("f"), 10, 20, 0x42, 99, at(5), at(6));
    match reply {
        Reply::Created { ttl, attr, generation, fh, flags } => {
            assert_eq!((ttl, generation, fh, flags), (at(1), 0, 0, 0x42));
            assert_eq!((attr.ino, attr.kind, attr.perm), (2, FileType::RegularFile, 0o664));
        }
        other => panic!("{:?}", other),
    }
    assert_eq!(fs.find_child(1, &name("f")), Some(2));
    assert!(matches!(fs.files[&2].data, GitHubFileData::Raw(99)));
    assert_eq!(fs.rmdir_at(1, &name("f"), at(7)), refused());
    assert_eq!(fs.unlink_at(1, &name("f"), at(8)), Reply::Done);
    assert_eq!(fs.find_child(1, &name("f")), None);
    assert_eq!(fs.getattr(2), refused());
}

#[test]
fn numbers_are_not_reused() {
    let mut fs = table();
    fs.create_at(1, name("f"), 0, 0, 0, 1, at(2), at(2));
    fs.unlink_at(1, &name("f"), at(3));
    fs.create_at(1, name("f"), 0, 0, 0, 2, at(4), at(4));
    assert_eq!(fs.find_child(1, &name("f")), Some(3));
}

#[test]
fn file_is_moved_and_moved_back() {
    let mut fs = table();
    fs.mkdir_at(1, name("d"), 0, 0, at(2), at(2));
    fs.create_at(1, name("f"), 7, 8, 0, 55, at(3), at(3));
    assert_eq!(fs.rename_at(1, &name("f"), 2, name("g"), at(9)), Reply::Done);
    assert_eq!(fs.find_child(1, &name("f")), None);
    assert_eq!(fs.find_child(2, &name("g")), Some(3));
    assert!(matches!(fs.files[&3].data, GitHubFileData::Raw(55)));
    assert_eq!(fs.files[&3].parent, 2);
    let attr = fs.files[&3].attr();
    assert_eq!((attr.uid, attr.gid, attr.mtime, attr.ctime), (7, 8, at(3), at(9)));
    assert_eq!(fs.files[&1].attr().mtime, at(9));
    assert_eq!(fs.files[&2].attr().mtime, at(9));

    assert_eq!(fs.rename_at(1, &name("f"), 2, name("h"), at(10)), refused());
    assert_eq!(fs.rename_at(2, &name("g"), 1, name("f"), at(11)), Reply::Done);
    assert_eq!(fs.find_child(1, &name("f")), Some(3));
    assert_eq!(fs.find_child(2, &name("g")), None);
    assert_eq!(fs.children[&2].len(), 0);
}

#[test]
fn file_is_renamed_in_place() {
    let mut fs = table();
    fs.create_at(1, name("a"), 0, 0, 0, 1, at(2), at(2));
    assert_eq!(fs.rename_at(1, &name("a"), 1, name("b"), at(3)), Reply::Done);
    assert_eq!(fs.find_child(1, &name("a")), None);
    assert_eq!(fs.find_child(1, &name("b")), Some(2));
}

#[test]
fn attributes_are_changed_as_given() {
    let mut fs = table();
    fs.mkdir_at(1, name("d"), 10, 20, at(2), at(2));
    let step = fs.setattr_at(2, no_change(), at(5));
    let attr = fs.files[&2].attr();
    assert_eq!(step, Step::Finished(Reply::Attr { ttl: at(1), attr }));
    assert_eq!((attr.perm, attr.uid, attr.gid), (0o775, 10, 20));
    assert_eq!((attr.atime, attr.mtime, attr.ctime, attr.crtime), (at(2), at(2), at(5), at(2)));

    let change = AttrChange {
        mode: Some(0o40700),
        uid: Some(1),
        gid: Some(2),
        size: Some(4096),
        atime: Some(at(21)),
        mtime: Some(at(22)),
        fh: Some(3),
        crtime: Some(at(23)),
        chgtime: Some(at(24)),
        bkuptime: Some(at(25)),
        flags: Some(9),
    };
    let step = fs.setattr_at(2, change, at(30));
    let attr = fs.files[&2].attr();
    assert_eq!(step, Step::Finished(Reply::Attr { ttl: at(1), attr }));
    assert_eq!((attr.perm, attr.uid, attr.gid, attr.flags), (0o40700, 1, 2, 9));
    assert_eq!((attr.atime, attr.mtime, attr.ctime, attr.crtime), (at(21), at(22), at(30), at(23)));
    assert_eq!(attr.size, 0);
    assert_eq!(fs.getattr(2), Reply::Attr { ttl: at(1), attr });

    assert_eq!(fs.setattr_at(9, no_change(), at(31)), Step::Finished(refused()));
}

#[test]
fn mode_is_cut_to_sixteen_bits() {
    let mut fs = table();
    fs.setattr_at(1, AttrChange { mode: Some(0x7_8123), ..no_change() }, at(2));
    assert_eq!(fs.files[&1].attr().perm, 0x8123);
}

#[test]
fn content_is_resized() {
    let mut fs = table();
    fs.create_at(1, name("f"), 0, 0, 0, 55, at(2), at(2));
    let change = AttrChange { size: Some(3), uid: Some(4), ..no_change() };
    let step = fs.setattr_at(2, change, at(5));
    assert_eq!(step, Step::UseContent { key: 55, then: ContentUse::Setattr { ino: 2, change } });
    assert_eq!(fs.files[&2].attr().uid, 0);

    let mut content = Vec::new();
    let reply = fs.use_content_at(ContentUse::Setattr { ino: 2, change }, &mut content, at(6));
    assert_eq!(content, vec![0, 0, 0]);
    let attr = fs.files[&2].attr();
    assert_eq!(reply, Reply::Attr { ttl: at(1), attr });
    assert_eq!((attr.size, attr.uid, attr.mtime, attr.ctime), (3, 4, at(6), at(6)));

    let same = AttrChange { size: Some(3), ..no_change() };
    assert!(matches!(fs.setattr_at(2, same, at(7)), Step::Finished(Reply::Attr { .. })));
    assert_eq!(fs.files[&2].attr().mtime, at(6));

    let dated = AttrChange { size: Some(1), mtime: Some(at(50)), ..no_change() };
    fs.use_content_at(ContentUse::Setattr { ino: 2, change: dated }, &mut content, at(8));
    assert_eq!(content, vec![0]);
    assert_eq!((fs.files[&2].attr().mtime, fs.files[&2].attr().ctime), (at(50), at(8)));
}

#[test]
fn content_is_written_and_read() {
    let mut fs = table();
    fs.create_at(1, name("f"), 0, 0, 0, 55, at(2), at(2));
    let mut content = Vec::new();
    let write = ContentUse::Write { ino: 2, offset: 1, data: b"abc".to_vec() };
    let step = fs.ask_content_at(2, 0, ContentUse::Read { offset: 0, size: 0 });
    assert!(matches!(step, Step::UseContent { key: 55, .. }));
    assert_eq!(fs.use_content_at(write, &mut content, at(5)), Reply::Written(3));
    assert_eq!(content, b"\0abc");
    let attr = fs.files[&2].attr();
    assert_eq!((attr.size, attr.mtime, attr.ctime, attr.atime), (4, at(5), at(5), at(2)));

    let write = ContentUse::Write { ino: 2, offset: 0, data: b"xy".to_vec() };
    assert_eq!(fs.use_content_at(write, &mut content, at(6)), Reply::Written(2));
    assert_eq!(fs.files[&2].attr().size, 4);
    let read = ContentUse::Read { offset: 0, size: 100 };
    assert_eq!(fs.use_content_at(read, &mut content, at(7)), Reply::Data(b"xybc".to_vec()));
    assert_eq!(fs.files[&2].attr().mtime, at(6));
}

#[test]
fn only_files_have_content() {
    let mut fs = table();
    fs.mkdir_at(1, name("d"), 0, 0, at(2), at(2));
    let read = || ContentUse::Read { offset: 0, size: 1 };
    assert_eq!(fs.ask_content_at(2, 7, read()), Step::Finished(refused()));
    assert_eq!(fs.ask_content_at(1, 7, read()), Step::Finished(refused()));
    assert_eq!(fs.ask_content_at(3, 7, read()), Step::Finished(refused()));
    let mut content = b"kept".to_vec();
    let write = ContentUse::Write { ino: 2, offset: 0, data: b"x".to_vec() };
    assert_eq!(fs.use_content_at(write, &mut content, at(3)), refused());
    let change = AttrChange { size: Some(0), ..no_change() };
    let resize = ContentUse::Setattr { ino: 2, change };
    assert_eq!(fs.use_content_at(resize, &mut content, at(3)), refused());
    assert_eq!(content, b"kept");
}
