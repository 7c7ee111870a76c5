use ghfs::content::{read_content, resize_content, write_content};

#[test]
fn read_within_the_content() {
    let content = b"hello world".to_vec();
    assert_eq!(read_content(&content, 0, 5), b"hello");
    assert_eq!(read_content(&content, 6, 100), b"world");
    assert_eq!(read_content(&content, 3, 0), b"");
}

#[test]
fn read_outside_of_the_content() {
    let content = b"hello".to_vec();
    assert_eq!(read_content(&content, 5, 1), b"");
    assert_eq!(read_content(&content, 1000, 1), b"");
    assert_eq!(read_content(&content, -1, 1), b"");
    assert_eq!(read_content(&content, i64::MIN, u32::MAX), b"");
    assert_eq!(read_content(&content, 4, u32::MAX), b"o");
}

#[test]
fn resize_cuts_and_fills() {
    let mut content = b"hello".to_vec();
    resize_content(&mut content, 2);
    assert_eq!(content, b"he");
    resize_content(&mut content, 4);
    assert_eq!(content, b"he\0\0");
    resize_content(&mut content, 0);
    assert_eq!(content, b"");
}

#[test]
fn write_within_the_content() {
    let mut content = b"hello world".to_vec();
    assert!(!write_content(&mut content, 6, &b"there".to_vec()));
    assert_eq!(content, b"hello there");
    assert!(!write_content(&mut content, 0, &b"J".to_vec()));
    assert_eq!(content, b"Jello there");
}

#[test]
fn write_beyond_the_end() {
    let mut content = b"ab".to_vec();
    assert!(write_content(&mut content, 1, &b"xyz".to_vec()));
    assert_eq!(content, b"axyz");
    assert!(write_content(&mut content, 6, &b"!".to_vec()));
    assert_eq!(content, b"axyz\0\0!");
}

#[test]
fn write_of_nothing() {
    let mut content = b"ab".to_vec();
    assert!(!write_content(&mut content, 2, &Vec::new()));
    assert_eq!(content, b"ab");
    assert!(write_content(&mut content, 3, &Vec::new()));
    assert_eq!(content, b"ab\0");
}

#[test]
fn what_was_written_is_read() {
    let mut content = b"0123456789".to_vec();
    write_content(&mut content, 8, &b"abcd".to_vec());
    assert_eq!(read_content(&content, 8, 4), b"abcd");
    assert_eq!(read_content(&content, 0, 8), b"01234567");
}

#[test]
fn whole_content_is_read() {
    let content = b"all of it".to_vec();
    assert_eq!(read_content(&content, 0, 9), content);
    assert_eq!(read_content(&content, 0, 4096), content);
}
