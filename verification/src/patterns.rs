//! The texts that the library takes apart: the name of a repository, the name of a revision, and
//! the file that holds the credentials.

use vstd::prelude::*;

verus! {

/// The form of a repository's name.
pub const REPOSITORY_URL_PATTERN: &'static str =
    "^(https://github\\.com/)?(?P<owner>[^/]+)/(?P<repo>[^/?]+)(\\?(branch=(?P<branch>.+)|rev=(?P<rev>.+))?)?$";

/// The form of a revision's name.
pub const REVISION_PATTERN: &'static str = "^[0-9a-f]{40}$";

/// The form of the file that holds the credentials.
pub const TOKEN_FILE_PATTERN: &'static str = "^(?P<n>.+)\n(?P<p>.+)\n$";

/// What may follow the name of a repository.
pub enum Query {
    Absent,
    Empty,
    Branch(Seq<char>),
    Rev(Seq<char>),
}

/// The parts of a repository's name.
pub struct RepositoryUrl {
    pub with_host: bool,
    pub owner: Seq<char>,
    pub repo: Seq<char>,
    pub query: Query,
}

/// A text that is not empty and lies on one line.
pub open spec fn is_line(text: Seq<char>) -> bool {
    text.len() > 0 && !text.contains('\n')
}

impl Query {
    pub open spec fn text(self) -> Seq<char> {
        match self {
            Query::Absent => Seq::empty(),
            Query::Empty => seq!['?'],
            Query::Branch(branch) => "?branch="@ + branch,
            Query::Rev(rev) => "?rev="@ + rev,
        }
    }

    pub open spec fn valid(self) -> bool {
        match self {
            Query::Absent => true,
            Query::Empty => true,
            Query::Branch(branch) => is_line(branch),
            Query::Rev(rev) => is_line(rev),
        }
    }

    pub open spec fn branch(self) -> Option<Seq<char>> {
        match self {
            Query::Branch(branch) => Some(branch),
            _ => None,
        }
    }

    pub open spec fn rev(self) -> Option<Seq<char>> {
        match self {
            Query::Rev(rev) => Some(rev),
            _ => None,
        }
    }
}

impl RepositoryUrl {
    pub open spec fn text(self) -> Seq<char> {
        (if self.with_host {
            "https://github.com/"@
        } else {
            Seq::empty()
        }) + self.owner + seq!['/'] + self.repo + self.query.text()
    }

    pub open spec fn valid(self) -> bool {
        &&& self.owner.len() > 0
        &&& !self.owner.contains('/')
        &&& self.repo.len() > 0
        &&& !self.repo.contains('/')
        &&& !self.repo.contains('?')
        &&& self.query.valid()
    }

    /// Whether these are the parts of `url`.
    pub open spec fn spells(self, url: Seq<char>) -> bool {
        self.valid() && self.text() == url
    }

    /// The part that the pattern calls `name`.
    pub open spec fn part(self, name: Seq<char>) -> Option<Seq<char>> {
        if name == "owner"@ {
            Some(self.owner)
        } else if name == "repo"@ {
            Some(self.repo)
        } else if name == "branch"@ {
            self.query.branch()
        } else if name == "rev"@ {
            self.query.rev()
        } else {
            None
        }
    }
}

/// Whether `rev` names a revision: forty hexadecimal digits.
pub open spec fn is_revision(rev: Seq<char>) -> bool {
    &&& rev.len() == 40
    &&& forall|i: int|
        0 <= i < rev.len() ==> '0' <= #[trigger] rev[i] <= '9' || 'a' <= rev[i] <= 'f'
}

/// The two lines of the file that holds the credentials.
pub struct TokenFile {
    pub name: Seq<char>,
    pub password: Seq<char>,
}

impl TokenFile {
    pub open spec fn text(self) -> Seq<char> {
        self.name + seq!['\n'] + self.password + seq!['\n']
    }

    /// Whether `text` is such a file with these two lines.
    pub open spec fn spells(self, text: Seq<char>) -> bool {
        is_line(self.name) && is_line(self.password) && self.text() == text
    }

    /// The line that the pattern calls `name`.
    pub open spec fn part(self, name: Seq<char>) -> Option<Seq<char>> {
        if name == "n"@ {
            Some(self.name)
        } else if name == "p"@ {
            Some(self.password)
        } else {
            None
        }
    }
}

/// The view of a text that may be missing.
pub open spec fn text_of(text: Option<String>) -> Option<Seq<char>> {
    match text {
        Some(t) => Some(t@),
        None => None,
    }
}

/// `regex::Regex::new(pattern)`, then `captures(text)`, then `name(name)` of what was captured:
/// `None` where the text does not match the pattern, else what the group of that name holds, if it
/// took part in the match.
///
/// Each pattern is anchored at both ends, so it matches exactly the texts that it describes as a
/// whole: `[^/]` is any character but the slash, `.` any but the line feed, and a group holds the
/// part of the text that it stands for.
#[verifier::external_body]
pub(crate) fn regex_captured(pattern: &str, text: &str, name: &str) -> (group: Option<Option<String>>)
    requires
        pattern@ == REPOSITORY_URL_PATTERN@ || pattern@ == TOKEN_FILE_PATTERN@,
    ensures
        pattern@ == REPOSITORY_URL_PATTERN@ ==> match group {
            Some(g) => exists|url: RepositoryUrl| #[trigger]
                url.spells(text@) && text_of(g) == url.part(name@),
            None => forall|url: RepositoryUrl| !#[trigger] url.spells(text@),
        },
        pattern@ == TOKEN_FILE_PATTERN@ ==> match group {
            Some(g) => exists|file: TokenFile| #[trigger]
                file.spells(text@) && text_of(g) == file.part(name@),
            None => forall|file: TokenFile| !#[trigger] file.spells(text@),
        },
{
    let regex = regex::Regex::new(pattern).unwrap();
    regex.captures(text).map(|c| c.name(name).map(|m| m.as_str().to_string()))
}

/// `regex::Regex::new(pattern)`, then `is_match(text)`: whether the text, as a whole, is of the
/// form that the pattern gives.
#[verifier::external_body]
pub(crate) fn regex_is_match(pattern: &str, text: &str) -> (matches: bool)
    requires
        pattern@ == REVISION_PATTERN@,
    ensures
        matches == is_revision(text@),
{
    regex::Regex::new(pattern).unwrap().is_match(text)
}

/// Two sequences that agree up to the first `stop` in each, or up to their ends, agree there.
proof fn lemma_split_at<A>(a: Seq<A>, x: Seq<A>, b: Seq<A>, y: Seq<A>, stop: A)
    requires
        !a.contains(stop),
        !b.contains(stop),
        x.len() > 0,
        y.len() > 0,
        x[0] == stop,
        y[0] == stop,
        a + x == b + y,
    ensures
        a == b,
        x == y,
{
    let whole = a + x;
    if a.len() < b.len() {
        assert(whole[a.len() as int] == stop);
        assert((b + y)[a.len() as int] == b[a.len() as int]);
        assert(b.contains(stop));
    }
    if b.len() < a.len() {
        assert((b + y)[b.len() as int] == stop);
        assert(whole[b.len() as int] == a[b.len() as int]);
        assert(a.contains(stop));
    }
    assert(a =~= whole.subrange(0, a.len() as int));
    assert(b =~= (b + y).subrange(0, b.len() as int));
    assert(x =~= whole.subrange(a.len() as int, whole.len() as int));
    assert(y =~= (b + y).subrange(b.len() as int, whole.len() as int));
}

/// What follows a repository's name tells by itself which of its forms it has.
proof fn lemma_query_unique(a: Query, b: Query)
    requires
        a.text() == b.text(),
        a.valid(),
        b.valid(),
    ensures
        a == b,
{
    reveal_strlit("?branch=");
    reveal_strlit("?rev=");
    let t = a.text();
    match (a, b) {
        (Query::Branch(x), Query::Branch(y)) => {
            assert(x =~= t.subrange(8, t.len() as int));
            assert(y =~= b.text().subrange(8, t.len() as int));
        },
        (Query::Rev(x), Query::Rev(y)) => {
            assert(x =~= t.subrange(5, t.len() as int));
            assert(y =~= b.text().subrange(5, t.len() as int));
        },
        (Query::Branch(x), Query::Rev(y)) => {
            assert(t.len() >= 9);
            assert(t[1] == 'b');
            assert(b.text()[1] == 'r');
        },
        (Query::Rev(x), Query::Branch(y)) => {
            assert(t[1] == 'r');
            assert(b.text()[1] == 'b');
        },
        _ => {
            assert(a is Absent <==> t.len() == 0);
            assert(b is Absent <==> b.text().len() == 0);
            assert(a is Empty <==> t.len() == 1);
            assert(b is Empty <==> b.text().len() == 1);
        },
    }
}

/// A repository's name without its host can be taken apart in one way only.
proof fn lemma_path_unique(a: RepositoryUrl, b: RepositoryUrl)
    requires
        a.valid(),
        b.valid(),
        a.owner + seq!['/'] + a.repo + a.query.text() == b.owner + seq!['/'] + b.repo + b.query.text(),
    ensures
        a.owner == b.owner,
        a.repo == b.repo,
        a.query == b.query,
{
    reveal_strlit("?branch=");
    reveal_strlit("?rev=");
    let x = seq!['/'] + a.repo + a.query.text();
    let y = seq!['/'] + b.repo + b.query.text();
    assert(a.owner + x =~= a.owner + seq!['/'] + a.repo + a.query.text());
    assert(b.owner + y =~= b.owner + seq!['/'] + b.repo + b.query.text());
    lemma_split_at(a.owner, x, b.owner, y, '/');
    let p = a.repo + a.query.text();
    let q = b.repo + b.query.text();
    assert(p =~= x.subrange(1, x.len() as int));
    assert(q =~= y.subrange(1, y.len() as int));
    if a.query is Absent && b.query is Absent {
        assert(p =~= a.repo);
        assert(q =~= b.repo);
    } else if a.query is Absent {
        assert(q[b.repo.len() as int] == '?');
        assert(p =~= a.repo);
        assert(a.repo.contains('?'));
    } else if b.query is Absent {
        assert(p[a.repo.len() as int] == '?');
        assert(q =~= b.repo);
        assert(b.repo.contains('?'));
    } else {
        lemma_split_at(a.repo, a.query.text(), b.repo, b.query.text(), '?');
    }
    lemma_query_unique(a.query, b.query);
}

/// A repository's name can be taken apart in one way only.
pub proof fn law_repository_url_unambiguous(a: RepositoryUrl, b: RepositoryUrl, url: Seq<char>)
    requires
        a.spells(url),
        b.spells(url),
    ensures
        a == b,
{
    reveal_strlit("https://github.com/");
    let host = "https://github.com/"@;
    if a.with_host == b.with_host {
        let n: int = if a.with_host { 19 } else { 0 };
        let end = url.len() as int;
        assert(url.subrange(n, end) =~= a.owner + seq!['/'] + a.repo + a.query.text());
        assert(b.text().subrange(n, end) =~= b.owner + seq!['/'] + b.repo + b.query.text());
        lemma_path_unique(a, b);
    } else if a.with_host {
        lemma_host_is_no_owner(a, b);
    } else {
        lemma_host_is_no_owner(b, a);
    }
}

/// The host of a repository's name is never taken for its owner.
proof fn lemma_host_is_no_owner(a: RepositoryUrl, b: RepositoryUrl)
    requires
        a.valid(),
        b.valid(),
        a.with_host,
        !b.with_host,
    ensures
        a.text() != b.text(),
{
    reveal_strlit("https://github.com/");
    let t = a.text();
    let u = b.text();
    let n = b.owner.len() as int;
    assert(t[6] == '/' && t[7] == '/');
    assert(u[n] == '/');
    if n < 6 {
        assert(t[n] != '/');
    } else if n > 6 {
        assert(b.owner[6] == u[6]);
        assert(u[6] != '/');
    } else {
        assert(b.repo[0] == u[7]);
        assert(u[7] != '/');
    }
}

/// The file that holds the credentials can be taken apart in one way only.
pub proof fn law_token_file_unambiguous(a: TokenFile, b: TokenFile, text: Seq<char>)
    requires
        a.spells(text),
        b.spells(text),
    ensures
        a == b,
{
    let x = seq!['\n'] + a.password + seq!['\n'];
    let y = seq!['\n'] + b.password + seq!['\n'];
    assert(a.name + x =~= text);
    assert(b.name + y =~= b.text());
    lemma_split_at(a.name, x, b.name, y, '\n');
    assert(a.password =~= x.subrange(1, x.len() - 1));
    assert(b.password =~= y.subrange(1, y.len() - 1));
}

} // verus!
