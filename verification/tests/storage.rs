use ghfs::storage::{
    cache_directory, content_file, new_cache_directory, read_token_file, token_file_path,
    token_file_text, typed_name, TOKEN_FILE_MODE,
};

fn credentials(name: &str, password: &str) -> Option<(String, String)> {
    Some((name.to_string(), password.to_string()))
}

#[test]
fn paths() {
    assert_eq!(token_file_path("ann"), "/home/ann/.config/ghfs/token");
    assert_eq!(
        cache_directory("ann", 0x12345678_9abc_4def_8123_456789abcdef),
        "/home/ann/.cache/ghfs/12345678-9abc-4def-8123-456789abcdef"
    );
    assert_eq!(content_file("/tmp/x", 255), "/tmp/x/00000000-0000-0000-0000-0000000000ff");
    assert_eq!(TOKEN_FILE_MODE, 0o600);
}

#[test]
fn content_files_differ() {
    assert_ne!(content_file("/c", 1), content_file("/c", 2));
    assert_ne!(content_file("/c", 1), content_file("/c", 1 << 127));
}

#[test]
fn credentials_read_back() {
    let text = token_file_text("ann", "SECRET-REDACTED");
    assert_eq!(text, "ann\nSECRET-REDACTED\n");
    assert_eq!(read_token_file(&text), credentials("ann", "SECRET-REDACTED"));
}

#[test]
fn token_file_with_unusual_lines() {
    assert_eq!(read_token_file(" a b \nü?\n"), credentials(" a b ", "ü?"));
    assert_eq!(read_token_file("a\r\nb\r\n"), credentials("a\r", "b\r"));
}

#[test]
fn token_file_of_another_form() {
    for text in ["", "\n", "a\nb", "a\n\n", "\nb\n", "a\nb\nc\n", "a\nb\n\n", "a"] {
        assert_eq!(read_token_file(text), None);
    }
}

#[test]
fn sessions_have_directories_of_their_own() {
    let path = new_cache_directory("ann");
    assert!(path.starts_with("/home/ann/.cache/ghfs/"));
    assert_eq!(path.len(), "/home/ann/.cache/ghfs/".len() + 36);
    assert_ne!(path, new_cache_directory("ann"));
}

#[test]
fn typed_name_is_trimmed() {
    assert_eq!(typed_name("ann\n"), "ann");
    assert_eq!(typed_name(" \t ann b \r\n"), "ann b");
    assert_eq!(typed_name("\u{3000}ann\u{a0}\n"), "ann");
    assert_eq!(typed_name("ann"), "ann");
    assert_eq!(typed_name(" \n"), "");
    assert_eq!(typed_name(""), "");
}

#[test]
fn typed_name_is_stored_and_read_back() {
    let text = token_file_text(&typed_name(" ann \n"), "p");
    assert_eq!(read_token_file(&text), credentials("ann", "p"));
    let text = token_file_text(&typed_name(" \n"), "p");
    assert_eq!(read_token_file(&text), None);
}

#[test]
fn typed_name_knows_all_white_space() {
    for c in '\0'..=char::MAX {
        let white = matches!(
            c as u32,
            0x9..=0xd | 0x20 | 0x85 | 0xa0 | 0x1680 | 0x2000..=0x200a | 0x2028 | 0x2029 | 0x202f
                | 0x205f | 0x3000
        );
        let line = format!("{}a{}", c, c);
        assert_eq!(typed_name(&line), if white { "a" } else { line.as_str() });
    }
}

#[test]
fn typed_name_without_a_line_feed_is_read_back() {
    let text = token_file_text(&typed_name("ann "), "p");
    assert_eq!(read_token_file(&text), credentials("ann", "p"));
}
