//! Where the program keeps things on disk, and the file that holds the credentials.

use vstd::prelude::*;
use vstd::string::*;

use crate::content_key::{uuid_new_v4, uuid_to_string};
use crate::patterns::{regex_captured, TokenFile, TOKEN_FILE_PATTERN};
use crate::text::str_trim;

verus! {

use crate::content_key::{hyphenated, is_random_key, law_key_text_injective};
use crate::patterns::{is_line, law_token_file_unambiguous};
use crate::text::{is_trimmed, is_trimmed_at};

/// The permissions of the file that holds the credentials: its owner may read and write it.
pub const TOKEN_FILE_MODE: u32 = 0o600;

/// The path of the file that holds the credentials of `username`.
pub open spec fn token_path(username: Seq<char>) -> Seq<char> {
    "/home/"@ + username + "/.config/ghfs/token"@
}

/// The path of the directory that holds the file contents of one session of `username`.
pub open spec fn cache_path(username: Seq<char>, session: u128) -> Seq<char> {
    "/home/"@ + username + "/.cache/ghfs/"@ + hyphenated(session)
}

/// The path of the file that holds the content with the key `key`.
pub open spec fn content_path(directory: Seq<char>, key: u128) -> Seq<char> {
    directory + "/"@ + hyphenated(key)
}

/// The path of the file that holds the credentials of `username`.
pub fn token_file_path(username: &str) -> (path: String)
    ensures
        path@ == token_path(username@),
{
    "/home/".to_owned().concat(username).concat("/.config/ghfs/token")
}

/// The path of the directory that holds the file contents of one session of `username`.
pub fn cache_directory(username: &str, session: u128) -> (path: String)
    ensures
        path@ == cache_path(username@, session),
{
    "/home/".to_owned().concat(username).concat("/.cache/ghfs/").concat(
        uuid_to_string(session).as_str(),
    )
}

/// The path of the directory that holds the file contents of a new session of `username`.
pub fn new_cache_directory(username: &str) -> (path: String)
    ensures
        exists|session: u128|
            is_random_key(session) && path@ == #[trigger] cache_path(username@, session),
{
    let session = uuid_new_v4();
    cache_directory(username, session)
}

/// The path of the file in `directory` that holds the content with the key `key`.
pub fn content_file(directory: &str, key: u128) -> (path: String)
    ensures
        path@ == content_path(directory@, key),
{
    directory.to_owned().concat("/").concat(uuid_to_string(key).as_str())
}

/// The name in a line that the user typed.
pub fn typed_name(line: &str) -> (name: String)
    ensures
        is_trimmed(line@, name@),
{
    str_trim(line)
}

/// The text of the file that holds the given credentials.
pub fn token_file_text(username: &str, password: &str) -> (text: String)
    ensures
        text@ == (TokenFile { name: username@, password: password@ }).text(),
{
    proof {
        reveal_strlit("\n");
        assert("\n"@ =~= seq!['\n']);
    }
    username.to_owned().concat("\n").concat(password).concat("\n")
}

/// Whether `credentials` are what a file with the text `text` holds.
pub open spec fn are_credentials_in(text: Seq<char>, credentials: Option<(String, String)>) -> bool {
    &&& forall|file: TokenFile| #[trigger]
        file.spells(text) ==> (credentials matches Some((name, password)) && name@ == file.name
            && password@ == file.password)
    &&& (forall|file: TokenFile| !#[trigger] file.spells(text)) ==> credentials is None
}

/// The credentials in the file that holds them, if it is one.
pub fn read_token_file(text: &str) -> (credentials: Option<(String, String)>)
    ensures
        forall|file: TokenFile| #[trigger]
            file.spells(text@) ==> (credentials matches Some((name, password)) && name@ == file.name
                && password@ == file.password),
        (forall|file: TokenFile| !#[trigger] file.spells(text@)) ==> credentials is None,
        are_credentials_in(text@, credentials),
{
    proof {
        reveal_strlit("n");
        reveal_strlit("p");
        assert("n"@[0] == 'n' && "p"@[0] == 'p');
        assert forall|a: TokenFile, b: TokenFile| #[trigger]
            a.spells(text@) && #[trigger] b.spells(text@) implies a == b by {
            law_token_file_unambiguous(a, b, text@);
        }
    }
    let name = regex_captured(TOKEN_FILE_PATTERN, text, "n");
    let password = regex_captured(TOKEN_FILE_PATTERN, text, "p");
    match (name, password) {
        (Some(Some(name)), Some(Some(password))) => Some((name, password)),
        _ => None,
    }
}

/// What is written to the file that holds the credentials is what is read from it, as long as the
/// name and the password each fill one line.
pub proof fn law_credentials_read_back(name: Seq<char>, password: Seq<char>, file: TokenFile)
    requires
        is_line(name),
        is_line(password),
    ensures
        (TokenFile { name, password }).spells((TokenFile { name, password }).text()),
        file.spells((TokenFile { name, password }).text()) ==> file.name == name && file.password
            == password,
{
    let written = TokenFile { name, password };
    if file.spells(written.text()) {
        law_token_file_unambiguous(written, file, written.text());
    }
}

/// The name in a line that the user typed fills one line, if there is more than white space in it: it
/// can be stored and read back.  The line may end in a line feed, or without one where the input
/// ends.
pub proof fn law_typed_name_is_a_line(line: Seq<char>, name: Seq<char>)
    requires
        forall|i: int| 0 <= i < line.len() - 1 ==> #[trigger] line[i] != '\n',
        is_trimmed(line, name),
        name.len() > 0,
    ensures
        is_line(name),
{
    let (start, end) = choose|start: int, end: int| is_trimmed_at(line, name, start, end);
    assert(name.last() == line[end - 1]);
    assert forall|i: int| 0 <= i < name.len() implies name[i] != '\n' by {
        assert(name[i] == line[start + i]);
    }
}

/// Contents with different keys are kept in different files.
pub proof fn law_content_files_differ(directory: Seq<char>, a: u128, b: u128)
    requires
        content_path(directory, a) == content_path(directory, b),
    ensures
        a == b,
{
    let start = (directory + "/"@).len() as int;
    let p = content_path(directory, a);
    let q = content_path(directory, b);
    assert(hyphenated(a) =~= p.subrange(start, p.len() as int));
    assert(hyphenated(b) =~= q.subrange(start, q.len() as int));
    law_key_text_injective(a, b);
}

/// Two lines, each with something on it and each with a line feed after it, are read as a name and a
/// password, whatever is on them.
pub proof fn law_two_lines_are_credentials(
    name: Seq<char>,
    password: Seq<char>,
    credentials: Option<(String, String)>,
)
    requires
        name.len() > 0,
        password.len() > 0,
        forall|i: int| 0 <= i < name.len() ==> #[trigger] name[i] != '\n',
        forall|i: int| 0 <= i < password.len() ==> #[trigger] password[i] != '\n',
        are_credentials_in(name + seq!['\n'] + password + seq!['\n'], credentials),
    ensures
        credentials matches Some((n, p)) && n@ == name && p@ == password,
{
    let file = TokenFile { name, password };
    assert(file.spells(name + seq!['\n'] + password + seq!['\n']));
}

/// What is read as credentials is what the file holds: written out again it gives the same text.
pub proof fn law_credentials_are_the_whole_file(text: Seq<char>, credentials: Option<(String, String)>)
    requires
        are_credentials_in(text, credentials),
    ensures
        credentials matches Some((n, p)) ==> text == n@ + seq!['\n'] + p@ + seq!['\n'] && n@.len() > 0
            && p@.len() > 0 && (forall|i: int| 0 <= i < n@.len() ==> #[trigger] n@[i] != '\n') && (
        forall|i: int| 0 <= i < p@.len() ==> #[trigger] p@[i] != '\n'),
{
    if let Some((n, p)) = credentials {
        let file = choose|file: TokenFile| #[trigger] file.spells(text);
        assert(file.spells(text));
        assert forall|i: int| 0 <= i < n@.len() implies #[trigger] n@[i] != '\n' by {
            assert(file.name.contains(n@[i]));
        }
        assert forall|i: int| 0 <= i < p@.len() implies #[trigger] p@[i] != '\n' by {
            assert(file.password.contains(p@[i]));
        }
    }
}

/// The text of a credentials file is the name and the password, each with a line feed after it.
pub proof fn law_credentials_file_has_two_lines(name: Seq<char>, password: Seq<char>)
    ensures
        ({
            let text = (TokenFile { name, password }).text();
            &&& text.len() == name.len() + password.len() + 2
            &&& text.subrange(0, name.len() as int) == name
            &&& text[name.len() as int] == '\n'
            &&& text.subrange(name.len() as int + 1, text.len() - 1) == password
            &&& text.last() == '\n'
        }),
{
    let text = (TokenFile { name, password }).text();
    assert(text.subrange(0, name.len() as int) =~= name);
    assert(text.subrange(name.len() as int + 1, text.len() - 1) =~= password);
}

/// The credentials and the contents of a user lie in that user's home, in places of their own: users
/// with different names have different files, and so have sessions with different keys.
pub proof fn law_paths_tell_users_and_sessions_apart(
    a: Seq<char>,
    b: Seq<char>,
    first: u128,
    second: u128,
)
    ensures
        token_path(a) == "/home/"@ + a + "/.config/ghfs/token"@,
        cache_path(a, first) == "/home/"@ + a + "/.cache/ghfs/"@ + hyphenated(first),
        content_path(a, first) == a + "/"@ + hyphenated(first),
        token_path(a) == token_path(b) ==> a == b,
        cache_path(a, first) == cache_path(a, second) ==> first == second,
{
    if token_path(a) == token_path(b) {
        let home = "/home/"@.len() as int;
        assert(token_path(a).len() == home + a.len() + "/.config/ghfs/token"@.len());
        assert(token_path(b).len() == home + b.len() + "/.config/ghfs/token"@.len());
        assert(a =~= token_path(a).subrange(home, home + a.len()));
        assert(b =~= token_path(b).subrange(home, home + b.len()));
    }
    if cache_path(a, first) == cache_path(a, second) {
        let start = ("/home/"@ + a + "/.cache/ghfs/"@).len() as int;
        let p = cache_path(a, first);
        let q = cache_path(a, second);
        assert(hyphenated(first) =~= p.subrange(start, p.len() as int));
        assert(hyphenated(second) =~= q.subrange(start, q.len() as int));
        law_key_text_injective(first, second);
    }
}

} // verus!
