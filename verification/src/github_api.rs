//! What the library knows of the GitHub API: how a repository is named, which requests lead to its
//! root directory, and what the replies mean.

use vstd::prelude::*;
use vstd::string::*;

use crate::patterns::{
    regex_captured, regex_is_match, Query, RepositoryUrl, REPOSITORY_URL_PATTERN, REVISION_PATTERN,
};
use crate::text::{format_quoted, without_line_feeds};

verus! {

use crate::patterns::{is_revision, law_repository_url_unambiguous, text_of};
use crate::text::{
    law_line_feed_makes_no_difference, law_only_line_feeds_go, no_line_feed, quoted,
};

/// `base64::DecodeError`, carried opaquely.
#[verifier::external_type_specification]
#[verifier::external_body]
pub struct ExDecodeError(base64::DecodeError);

/// What `base64::decode` makes of a text: the bytes that it stands for, or why it stands for none.
pub uninterp spec fn base64_decoded(text: Seq<char>) -> Result<Seq<u8>, base64::DecodeError>;

/// `base64::decode`: the bytes that `text` stands for in the standard alphabet with padding.
#[verifier::external_body]
pub(crate) fn base64_decode(text: &str) -> (decoded: Result<Vec<u8>, base64::DecodeError>)
    ensures
        match decoded {
            Ok(bytes) => base64_decoded(text@) == Ok::<Seq<u8>, base64::DecodeError>(bytes@),
            Err(e) => base64_decoded(text@) == Err::<Seq<u8>, base64::DecodeError>(e),
        },
{
    base64::decode(text)
}

/// The repository to mount, and the branch or revision of it.
#[derive(Debug, PartialEq, Eq)]
pub struct GitHubApiRoot {
    pub owner: String,
    pub repo: String,
    pub branch_name: Option<String>,
    pub rev: Option<String>,
}

/// Why a text does not name a repository to mount.
#[derive(Debug, PartialEq, Eq)]
pub enum GitHubApiRootConstructError {
    InvalidUrl(String),
    InvalidRev(String),
}

/// Whether `message` names what is wrong, and quotes it.
pub open spec fn tells_of(error: GitHubApiRootConstructError, message: Seq<char>) -> bool {
    match error {
        GitHubApiRootConstructError::InvalidUrl(url) => message == "URL "@ + quoted(url@)
            + " is invalid."@,
        GitHubApiRootConstructError::InvalidRev(rev) => message == "rev "@ + quoted(rev@)
            + " is invalid."@,
    }
}

impl GitHubApiRootConstructError {
    /// What to tell the user.
    pub fn message(&self) -> (message: String)
        ensures
            message@ == match self {
                GitHubApiRootConstructError::InvalidUrl(url) => "URL "@ + quoted(url@) + " is invalid."@,
                GitHubApiRootConstructError::InvalidRev(rev) => "rev "@ + quoted(rev@) + " is invalid."@,
            },
            tells_of(*self, message@),
    {
        match self {
            GitHubApiRootConstructError::InvalidUrl(url) => {
                "URL ".to_owned().concat(format_quoted(url.as_str()).as_str()).concat(" is invalid.")
            },
            GitHubApiRootConstructError::InvalidRev(rev) => {
                "rev ".to_owned().concat(format_quoted(rev.as_str()).as_str()).concat(" is invalid.")
            },
        }
    }
}

/// What comes of a repository's name with the parts `url`: the repository, unless the revision in
/// it is not one.
pub open spec fn root_named(
    url: RepositoryUrl,
    result: Result<GitHubApiRoot, GitHubApiRootConstructError>,
) -> bool {
    match url.query {
        Query::Rev(rev) if !is_revision(rev) => {
            result matches Err(GitHubApiRootConstructError::InvalidRev(r)) && r@ == rev
        },
        _ => {
            &&& result matches Ok(root)
            &&& root.owner@ == url.owner
            &&& root.repo@ == url.repo
            &&& text_of(root.branch_name) == url.query.branch()
            &&& text_of(root.rev) == url.query.rev()
        },
    }
}

/// What comes of the text `url`: what its parts make of it, if it has the parts of a repository's
/// name, and an error that holds it if not.
pub open spec fn reads_as(
    url: Seq<char>,
    result: Result<GitHubApiRoot, GitHubApiRootConstructError>,
) -> bool {
    &&& forall|parts: RepositoryUrl| #[trigger] parts.spells(url) ==> root_named(parts, result)
    &&& (forall|parts: RepositoryUrl| !#[trigger] parts.spells(url)) ==> (result matches Err(
        GitHubApiRootConstructError::InvalidUrl(u),
    ) && u@ == url)
}

impl GitHubApiRoot {
    /// A branch and a revision are never asked for together.
    pub open spec fn valid(self) -> bool {
        self.branch_name is None || self.rev is None
    }

    /// Reads the name of a repository, such as `owner/repo`, `https://github.com/owner/repo`,
    /// `owner/repo?branch=main` or `owner/repo?rev=` and a revision.
    pub fn from_repository_url(url: &str) -> (result: Result<
        GitHubApiRoot,
        GitHubApiRootConstructError,
    >)
        ensures
            forall|parts: RepositoryUrl| #[trigger] parts.spells(url@) ==> root_named(parts, result),
            (forall|parts: RepositoryUrl| !#[trigger] parts.spells(url@)) ==> (result matches Err(
                GitHubApiRootConstructError::InvalidUrl(u),
            ) && u@ == url@),
            result matches Ok(root) ==> root.valid(),
            reads_as(url@, result),
    {
        proof {
            reveal_strlit("owner");
            reveal_strlit("repo");
            reveal_strlit("branch");
            reveal_strlit("rev");
            assert("owner"@.len() == 5 && "repo"@.len() == 4 && "branch"@.len() == 6 && "rev"@.len() == 3);
            assert forall|a: RepositoryUrl, b: RepositoryUrl| #[trigger]
                a.spells(url@) && #[trigger] b.spells(url@) implies a == b by {
                law_repository_url_unambiguous(a, b, url@);
            }
        }
        let owner = regex_captured(REPOSITORY_URL_PATTERN, url, "owner");
        let repo = regex_captured(REPOSITORY_URL_PATTERN, url, "repo");
        let branch = regex_captured(REPOSITORY_URL_PATTERN, url, "branch");
        let rev = regex_captured(REPOSITORY_URL_PATTERN, url, "rev");
        match (owner, repo, branch, rev) {
            (Some(Some(owner)), Some(Some(repo)), Some(branch_name), Some(rev)) => {
                if let Some(rev) = &rev {
                    if !regex_is_match(REVISION_PATTERN, rev.as_str()) {
                        return Err(GitHubApiRootConstructError::InvalidRev(rev.clone()));
                    }
                }
                Ok(GitHubApiRoot { owner, repo, branch_name, rev })
            },
            _ => Err(GitHubApiRootConstructError::InvalidUrl(url.to_owned())),
        }
    }

    /// Where the API describes the repository.
    pub open spec fn address(self) -> Seq<char> {
        "https://api.github.com/repos/"@ + self.owner@ + "/"@ + self.repo@
    }

    /// Where the API describes a branch of the repository.
    pub open spec fn branch_address(self, branch: Seq<char>) -> Seq<char> {
        self.address() + "/branches/"@ + branch
    }

    /// Where the API describes a commit of the repository.
    pub open spec fn commit_address(self, rev: Seq<char>) -> Seq<char> {
        self.address() + "/commits/"@ + rev
    }

    /// The first request on the way to the root directory.
    pub open spec fn is_first_request(self, request: ApiRequest) -> bool {
        match (self.branch_name, self.rev) {
            (None, None) => request matches ApiRequest::Repository(url) && url@ == self.address(),
            (Some(branch), _) => request matches ApiRequest::Branch(url) && url@
                == self.branch_address(branch@),
            (None, Some(rev)) => request matches ApiRequest::Commit(url) && url@
                == self.commit_address(rev@),
        }
    }

    /// Whether `lookup` is how the search for the root directory goes on after `reply`.
    pub open spec fn looks_up<E>(
        self,
        reply: Option<Result<ApiReply, E>>,
        lookup: RootLookup<E>,
    ) -> bool {
        match reply {
            None => lookup matches RootLookup::Request(request) && self.is_first_request(request),
            Some(Err(e)) => lookup == RootLookup::<E>::Failed(e),
            Some(Ok(ApiReply::Repository(repository))) => lookup matches RootLookup::Request(
                ApiRequest::Branch(url),
            ) && url@ == self.branch_address(repository.default_branch@),
            Some(Ok(ApiReply::Branch(branch))) => lookup matches RootLookup::Found(tree) && tree.path@
                == Seq::<char>::empty() && tree.url@ == branch.commit.commit.tree.url@,
            Some(Ok(ApiReply::Commit(commit))) => lookup matches RootLookup::Found(tree) && tree.path@
                == Seq::<char>::empty() && tree.url@ == commit.commit.tree.url@,
        }
    }

    /// Whether `lookups` are the turns of a search for the root directory in which the requests were
    /// replied to with `replies`: each turn but the last is a request, and the reply to it, if there
    /// is one, is of its kind.
    pub open spec fn is_search<E>(
        self,
        replies: Seq<Result<ApiReply, E>>,
        lookups: Seq<RootLookup<E>>,
    ) -> bool {
        &&& lookups.len() == replies.len() + 1
        &&& self.looks_up(None, lookups[0])
        &&& forall|i: int|
            0 <= i < replies.len() ==> {
                &&& lookups[i] matches RootLookup::Request(request) && (replies[i] matches Ok(reply)
                    ==> answers(request, reply))
                &&& self.looks_up(Some(#[trigger] replies[i]), lookups[i + 1])
            }
    }

    fn repository_url(&self) -> (url: String)
        ensures
            url@ == self.address(),
    {
        "https://api.github.com/repos/".to_owned().concat(self.owner.as_str()).concat("/").concat(
            self.repo.as_str(),
        )
    }

    fn branch_url(&self, branch: &str) -> (url: String)
        ensures
            url@ == self.branch_address(branch@),
    {
        self.repository_url().concat("/branches/").concat(branch)
    }

    fn commit_url(&self, rev: &str) -> (url: String)
        ensures
            url@ == self.commit_address(rev@),
    {
        self.repository_url().concat("/commits/").concat(rev)
    }

    /// Finds the root directory of the repository, one request at a time: without a reply, what to
    /// ask first; with the reply to the last request, what to ask next, or the root directory.  A
    /// request that failed ends the search.
    pub fn get_repository_tree_url<E>(&self, reply: Option<Result<ApiReply, E>>) -> (lookup:
        RootLookup<E>)
        requires
            self.valid(),
        ensures
            self.looks_up(reply, lookup),
    {
        match reply {
            None => {
                let request = match (&self.branch_name, &self.rev) {
                    (None, None) => ApiRequest::Repository(self.repository_url()),
                    (Some(branch), _) => ApiRequest::Branch(self.branch_url(branch.as_str())),
                    (None, Some(rev)) => ApiRequest::Commit(self.commit_url(rev.as_str())),
                };
                RootLookup::Request(request)
            },
            Some(Err(e)) => RootLookup::Failed(e),
            Some(Ok(ApiReply::Repository(repository))) => {
                RootLookup::Request(
                    ApiRequest::Branch(self.branch_url(repository.default_branch.as_str())),
                )
            },
            Some(Ok(ApiReply::Branch(branch))) => {
                RootLookup::Found(Tree { path: String::new(), url: branch.into_tree_url() })
            },
            Some(Ok(ApiReply::Commit(commit))) => {
                RootLookup::Found(Tree { path: String::new(), url: commit.commit.tree.url })
            },
        }
    }
}

/// A request to the API, with the address that it goes to.
#[derive(Debug, PartialEq, Eq)]
pub enum ApiRequest {
    Repository(String),
    Branch(String),
    Commit(String),
}

/// The reply to a request of the same name.
#[derive(Debug, PartialEq, Eq)]
pub enum ApiReply {
    Repository(Repository),
    Branch(Branch),
    Commit(BranchCommit),
}

/// Whether `reply` is of the kind that `request` asks for.
pub open spec fn answers(request: ApiRequest, reply: ApiReply) -> bool {
    match request {
        ApiRequest::Repository(_) => reply is Repository,
        ApiRequest::Branch(_) => reply is Branch,
        ApiRequest::Commit(_) => reply is Commit,
    }
}

/// How far the search for the root directory has come: there is a request to make, or the directory
/// is found, or a request failed with an `E`.
#[derive(Debug, PartialEq, Eq)]
pub enum RootLookup<E> {
    Request(ApiRequest),
    Found(Tree),
    Failed(E),
}

/// A repository, as the API describes it.
#[derive(Debug, PartialEq, Eq)]
pub struct Repository {
    pub default_branch: String,
}

/// A branch, as the API describes it.
#[derive(Debug, PartialEq, Eq)]
pub struct Branch {
    pub commit: BranchCommit,
}

#[derive(Debug, PartialEq, Eq)]
pub struct BranchCommit {
    pub commit: Commit,
}

#[derive(Debug, PartialEq, Eq)]
pub struct Commit {
    pub tree: BranchCommitCommitTree,
}

#[derive(Debug, PartialEq, Eq)]
pub struct BranchCommitCommitTree {
    pub url: String,
}

impl Branch {
    /// Where the tree is found that the head of the branch points at.
    pub fn into_tree_url(self) -> (url: String)
        ensures
            url == self.commit.commit.tree.url,
    {
        self.commit.commit.tree.url
    }
}

/// An entry of a directory of the repository.
#[derive(Debug, PartialEq, Eq)]
pub enum TreeItem {
    Blob(Blob),
    Tree(Tree),
}

/// A file of the repository: its name, its size and where its content is found.
#[derive(Debug, PartialEq, Eq)]
pub struct Blob {
    pub path: String,
    pub size: usize,
    pub url: String,
}

/// The content of a file, as the API sends it.
#[derive(Debug, PartialEq, Eq)]
pub struct BlobContent {
    pub content: String,
    pub encoding: String,
}

/// Why the content of a file could not be had: the request failed with an `E`, or the reply is not
/// in base64.
#[derive(Debug, PartialEq, Eq)]
pub enum GetBlobContentError<E> {
    HTTPError(E),
    DecodeError(base64::DecodeError),
}

/// Whether `content` is what comes of `reply`: what its text stands for without line feeds, or the
/// error that there was.
pub open spec fn is_content_of<E>(
    reply: Result<BlobContent, E>,
    content: Result<Vec<u8>, GetBlobContentError<E>>,
) -> bool {
    match reply {
        Err(e) => content == Err::<Vec<u8>, GetBlobContentError<E>>(
            GetBlobContentError::HTTPError(e),
        ),
        Ok(blob) => match base64_decoded(blob.content@.filter(no_line_feed())) {
            Ok(bytes) => content matches Ok(c) && c@ == bytes,
            Err(e) => content == Err::<Vec<u8>, GetBlobContentError<E>>(
                GetBlobContentError::DecodeError(e),
            ),
        },
    }
}

/// The content of a file, out of what the decoder made of the reply.
pub fn decoded_content<E>(decoded: Result<Vec<u8>, base64::DecodeError>) -> (content: Result<
    Vec<u8>,
    GetBlobContentError<E>,
>)
    ensures
        content == match decoded {
            Ok(bytes) => Ok::<Vec<u8>, GetBlobContentError<E>>(bytes),
            Err(e) => Err::<Vec<u8>, GetBlobContentError<E>>(GetBlobContentError::DecodeError(e)),
        },
{
    match decoded {
        Ok(bytes) => Ok(bytes),
        Err(e) => Err(GetBlobContentError::from(e)),
    }
}

impl<E> From<base64::DecodeError> for GetBlobContentError<E> {
    fn from(e: base64::DecodeError) -> (error: Self) {
        GetBlobContentError::DecodeError(e)
    }
}

impl<E> vstd::std_specs::convert::FromSpecImpl<base64::DecodeError> for GetBlobContentError<E> {
    open spec fn obeys_from_spec() -> bool {
        true
    }

    open spec fn from_spec(e: base64::DecodeError) -> Self {
        GetBlobContentError::DecodeError(e)
    }
}

impl Blob {
    /// The name of the file.
    pub fn path(&self) -> (path: &str)
        ensures
            path@ == self.path@,
    {
        self.path.as_str()
    }

    /// The size of the file.
    pub fn size(&self) -> (size: usize)
        ensures
            size == self.size,
    {
        self.size
    }

    /// The content of the file, out of the reply to a request to its `url`.  The reply must be
    /// encoded in base64.
    pub fn into_content<E>(self, reply: Result<BlobContent, E>) -> (content: Result<
        Vec<u8>,
        GetBlobContentError<E>,
    >)
        requires
            reply matches Ok(blob) ==> blob.encoding@ == "base64"@,
        ensures
            match reply {
                Err(e) => content == Err::<Vec<u8>, GetBlobContentError<E>>(
                    GetBlobContentError::HTTPError(e),
                ),
                Ok(blob) => match base64_decoded(blob.content@.filter(no_line_feed())) {
                    Ok(bytes) => content matches Ok(c) && c@ == bytes,
                    Err(e) => content == Err::<Vec<u8>, GetBlobContentError<E>>(
                        GetBlobContentError::DecodeError(e),
                    ),
                },
            },
            is_content_of(reply, content),
    {
        match reply {
            Err(e) => Err(GetBlobContentError::HTTPError(e)),
            Ok(blob) => {
                let text = without_line_feeds(blob.content.as_str());
                decoded_content(base64_decode(text.as_str()))
            },
        }
    }
}

/// A directory of the repository: its name and where its entries are found.
#[derive(Debug, PartialEq, Eq)]
pub struct Tree {
    pub path: String,
    pub url: String,
}

/// The entries of a directory, as the API sends them.
#[derive(Debug, PartialEq, Eq)]
pub struct TreeResponse {
    pub tree: Vec<TreeItem>,
}

/// Whether `items` are what `reply` holds.
pub open spec fn are_items_of<E>(
    reply: Result<TreeResponse, E>,
    items: Result<Vec<TreeItem>, E>,
) -> bool {
    match reply {
        Ok(response) => items == Ok::<Vec<TreeItem>, E>(response.tree),
        Err(e) => items == Err::<Vec<TreeItem>, E>(e),
    }
}

impl Tree {
    /// The name of the directory.
    pub fn path(&self) -> (path: &str)
        ensures
            path@ == self.path@,
    {
        self.path.as_str()
    }

    /// The entries of the directory, out of the reply to a request to its `url`.
    pub fn into_tree_items<E>(self, reply: Result<TreeResponse, E>) -> (items: Result<
        Vec<TreeItem>,
        E,
    >)
        ensures
            items == match reply {
                Ok(response) => Ok::<Vec<TreeItem>, E>(response.tree),
                Err(e) => Err::<Vec<TreeItem>, E>(e),
            },
            are_items_of(reply, items),
    {
        match reply {
            Ok(response) => Ok(response.tree),
            Err(e) => Err(e),
        }
    }
}

/// The root directory is found after two requests at the most, if none of them fails: the reply to a
/// request for a branch or a commit gives it, and a request for the repository, which is only made
/// where neither a branch nor a revision was named, is followed by one for a branch.
pub proof fn law_root_found_in_two_requests<E>(
    root: GitHubApiRoot,
    replies: Seq<Result<ApiReply, E>>,
    lookups: Seq<RootLookup<E>>,
)
    requires
        root.valid(),
        root.is_search(replies, lookups),
    ensures
        replies.len() <= 2,
        lookups[0] matches RootLookup::Request(request) && (request is Repository
            <==> root.branch_name is None && root.rev is None),
        replies.len() == 2 ==> lookups[0]->Request_0 is Repository && lookups[1]->Request_0 is Branch,
        lookups.last() is Request <==> replies.len() == 0 || (replies.len() == 1 && replies[0] is Ok
            && lookups[0]->Request_0 is Repository),
{
    if replies.len() > 0 {
        let _ = replies[0];
        if replies.len() > 1 {
            let _ = replies[1];
            if replies.len() > 2 {
                let _ = replies[2];
            }
        }
    }
}

/// A search fails if and only if one of its requests does.  It fails with the error of that request,
/// which is the first that failed, and makes no request after it.
pub proof fn law_first_failure_ends_the_search<E>(
    root: GitHubApiRoot,
    replies: Seq<Result<ApiReply, E>>,
    lookups: Seq<RootLookup<E>>,
)
    requires
        root.is_search(replies, lookups),
    ensures
        lookups.last() is Failed <==> exists|i: int|
            0 <= i < replies.len() && #[trigger] replies[i] is Err,
        forall|i: int|
            0 <= i < replies.len() ==> (#[trigger] replies[i] matches Err(e) ==> i == replies.len()
                - 1 && lookups.last() == RootLookup::<E>::Failed(e)),
{
    assert forall|i: int| 0 <= i < replies.len() && #[trigger] replies[i] is Err implies i
        == replies.len() - 1 by {
        if i + 1 < replies.len() {
            let _ = replies[i + 1];
        }
    }
    if replies.len() > 0 {
        let _ = replies[replies.len() - 1];
    }
}

/// The text that a repository's name with or without its host starts with.
pub open spec fn host_if(with_host: bool) -> Seq<char> {
    if with_host {
        "https://github.com/"@
    } else {
        Seq::empty()
    }
}

/// Whether `owner` and `repo` can be the two parts of a repository's name.
pub open spec fn can_name(owner: Seq<char>, repo: Seq<char>) -> bool {
    &&& owner.len() > 0 && repo.len() > 0
    &&& forall|i: int| 0 <= i < owner.len() ==> #[trigger] owner[i] != '/'
    &&& forall|i: int| 0 <= i < repo.len() ==> #[trigger] repo[i] != '/' && repo[i] != '?'
}

/// A repository's name is read as its owner and its repository, with and without the host, and with or
/// without a lone question mark after it.
pub proof fn law_plain_name_is_read(
    with_host: bool,
    owner: Seq<char>,
    repo: Seq<char>,
    mark: bool,
    result: Result<GitHubApiRoot, GitHubApiRootConstructError>,
)
    requires
        can_name(owner, repo),
        reads_as(
            host_if(with_host) + owner + seq!['/'] + repo + (if mark {
                seq!['?']
            } else {
                Seq::<char>::empty()
            }),
            result,
        ),
    ensures
        result matches Ok(root) && root.owner@ == owner && root.repo@ == repo && root.branch_name is None
            && root.rev is None,
{
    let query = if mark {
        Query::Empty
    } else {
        Query::Absent
    };
    let parts = RepositoryUrl { with_host, owner, repo, query };
    assert(parts.valid());
    assert(parts.spells(
        host_if(with_host) + owner + seq!['/'] + repo + (if mark {
            seq!['?']
        } else {
            Seq::<char>::empty()
        }),
    ));
}

/// A repository's name with a branch is read as its owner, its repository and that branch, whatever
/// the branch is called.
pub proof fn law_name_with_branch_is_read(
    with_host: bool,
    owner: Seq<char>,
    repo: Seq<char>,
    branch: Seq<char>,
    result: Result<GitHubApiRoot, GitHubApiRootConstructError>,
)
    requires
        can_name(owner, repo),
        branch.len() > 0,
        forall|i: int| 0 <= i < branch.len() ==> #[trigger] branch[i] != '\n',
        reads_as(
            host_if(with_host) + owner + seq!['/'] + repo + ("?branch="@ + branch),
            result,
        ),
    ensures
        result matches Ok(root) && root.owner@ == owner && root.repo@ == repo && root.rev is None && (
        root.branch_name matches Some(b) && b@ == branch),
{
    let parts = RepositoryUrl { with_host, owner, repo, query: Query::Branch(branch) };
    assert(parts.valid());
    assert(parts.spells(host_if(with_host) + owner + seq!['/'] + repo + ("?branch="@ + branch)));
}

/// A repository's name with a revision is read as its owner, its repository and that revision, if the
/// revision is one of forty hexadecimal digits, and is refused with it if not.
pub proof fn law_name_with_revision_is_read(
    with_host: bool,
    owner: Seq<char>,
    repo: Seq<char>,
    rev: Seq<char>,
    result: Result<GitHubApiRoot, GitHubApiRootConstructError>,
)
    requires
        can_name(owner, repo),
        rev.len() > 0,
        forall|i: int| 0 <= i < rev.len() ==> #[trigger] rev[i] != '\n',
        reads_as(host_if(with_host) + owner + seq!['/'] + repo + ("?rev="@ + rev), result),
    ensures
        ({
            let good = rev.len() == 40 && forall|i: int|
                0 <= i < 40 ==> '0' <= #[trigger] rev[i] <= '9' || 'a' <= rev[i] <= 'f';
            &&& good ==> (result matches Ok(root) && root.owner@ == owner && root.repo@ == repo
                && root.branch_name is None && (root.rev matches Some(r) && r@ == rev))
            &&& !good ==> (result matches Err(GitHubApiRootConstructError::InvalidRev(r)) && r@ == rev)
        }),
{
    let parts = RepositoryUrl { with_host, owner, repo, query: Query::Rev(rev) };
    assert(parts.valid());
    assert(parts.spells(host_if(with_host) + owner + seq!['/'] + repo + ("?rev="@ + rev)));
}

/// Whether `url` is what `root` is written as, with or without the host, and with or without a lone
/// question mark where nothing else follows the name.
pub open spec fn is_text_of(url: Seq<char>, with_host: bool, root: GitHubApiRoot, mark: bool) -> bool {
    url == host_if(with_host) + root.owner@ + seq!['/'] + root.repo@ + (match (
        root.branch_name,
        root.rev,
    ) {
        (Some(branch), _) => "?branch="@ + branch@,
        (None, Some(rev)) => "?rev="@ + rev@,
        (None, None) => if mark {
            seq!['?']
        } else {
            Seq::empty()
        },
    })
}

/// What a text was read as spells that text again, and its parts can be those of a repository's name.
/// A text that is refused as a name is in the error as it was.
pub proof fn law_read_name_spells_the_text(
    url: Seq<char>,
    result: Result<GitHubApiRoot, GitHubApiRootConstructError>,
)
    requires
        reads_as(url, result),
    ensures
        result matches Ok(root) ==> can_name(root.owner@, root.repo@) && exists|
            with_host: bool,
            mark: bool,
        | #[trigger] is_text_of(url, with_host, root, mark),
        result matches Ok(root) ==> root.branch_name is None || root.rev is None,
        result matches Ok(root) ==> (root.branch_name matches Some(branch) ==> branch@.len() > 0 && (
        forall|i: int| 0 <= i < branch@.len() ==> #[trigger] branch@[i] != '\n')),
        result matches Ok(root) ==> (root.rev matches Some(rev) ==> rev@.len() == 40 && (forall|i: int|
            0 <= i < 40 ==> '0' <= #[trigger] rev@[i] <= '9' || 'a' <= rev@[i] <= 'f')),
        result matches Err(GitHubApiRootConstructError::InvalidUrl(u)) ==> u@ == url,
{
    if let Ok(root) = result {
        if exists|parts: RepositoryUrl| #[trigger] parts.spells(url) {
            let parts = choose|parts: RepositoryUrl| #[trigger] parts.spells(url);
            assert(root_named(parts, result));
            assert forall|i: int| 0 <= i < parts.owner.len() implies #[trigger] parts.owner[i] != '/' by {
                assert(parts.owner.contains(parts.owner[i]));
            }
            assert forall|i: int| 0 <= i < parts.repo.len() implies #[trigger] parts.repo[i] != '/'
                && parts.repo[i] != '?' by {
                assert(parts.repo.contains(parts.repo[i]));
            }
            assert(is_text_of(url, parts.with_host, root, parts.query is Empty));
            if let Query::Branch(branch) = parts.query {
                assert forall|i: int| 0 <= i < branch.len() implies #[trigger] branch[i] != '\n' by {
                    assert(branch.contains(branch[i]));
                }
            }
        }
    } else if exists|parts: RepositoryUrl| #[trigger] parts.spells(url) {
        let parts = choose|parts: RepositoryUrl| #[trigger] parts.spells(url);
        assert(root_named(parts, result));
    }
}

/// The requests on the way to the root directory go to the addresses that the API has for the
/// repository, the branch and the commit, and the directory is the one that the reply names.
pub proof fn law_search_asks_the_right_addresses<E>(
    root: GitHubApiRoot,
    reply: Option<Result<ApiReply, E>>,
    lookup: RootLookup<E>,
)
    requires
        root.valid(),
        root.looks_up(reply, lookup),
    ensures
        ({
            let base = "https://api.github.com/repos/"@ + root.owner@ + "/"@ + root.repo@;
            &&& reply is None && root.branch_name is None && root.rev is None ==> (
            lookup matches RootLookup::Request(ApiRequest::Repository(url)) && url@ == base)
            &&& reply is None && root.branch_name is Some ==> (lookup matches RootLookup::Request(
                ApiRequest::Branch(url),
            ) && url@ == base + "/branches/"@ + root.branch_name->0@)
            &&& reply is None && root.rev is Some ==> (lookup matches RootLookup::Request(
                ApiRequest::Commit(url),
            ) && url@ == base + "/commits/"@ + root.rev->0@)
            &&& reply matches Some(Ok(ApiReply::Repository(repository))) ==> (
            lookup matches RootLookup::Request(ApiRequest::Branch(url)) && url@ == base
                + "/branches/"@ + repository.default_branch@)
            &&& reply matches Some(Ok(ApiReply::Branch(branch))) ==> (
            lookup matches RootLookup::Found(tree) && tree.path@.len() == 0 && tree.url@
                == branch.commit.commit.tree.url@)
            &&& reply matches Some(Ok(ApiReply::Commit(commit))) ==> (
            lookup matches RootLookup::Found(tree) && tree.path@.len() == 0 && tree.url@
                == commit.commit.tree.url@)
            &&& reply matches Some(Err(e)) ==> (lookup matches RootLookup::Failed(f) && f == e)
        }),
{
}

/// The content of a file is what the decoder makes of the text that came, if there is no line feed in
/// it; a line feed, wherever it stands, makes no difference.  A request that failed, and a text that
/// is no base64, are told as such.
pub proof fn law_content_is_what_the_text_stands_for<E>(
    start: Seq<char>,
    end: Seq<char>,
    reply: Result<BlobContent, E>,
    content: Result<Vec<u8>, GetBlobContentError<E>>,
)
    requires
        is_content_of(reply, content),
    ensures
        reply matches Err(e) ==> (content matches Err(GetBlobContentError::HTTPError(f)) && f == e),
        reply matches Ok(blob) ==> ((forall|i: int|
            0 <= i < blob.content@.len() ==> #[trigger] blob.content@[i] != '\n') ==> match base64_decoded(
            blob.content@,
        ) {
            Ok(bytes) => content matches Ok(c) && c@ == bytes,
            Err(e) => content matches Err(GetBlobContentError::DecodeError(f)) && f == e,
        }),
        reply matches Ok(blob) ==> (blob.content@ == start + seq!['\n'] + end ==> forall|
            other: BlobContent,
        |
            #[trigger] other.content@ == start + end ==> is_content_of(
                Ok::<BlobContent, E>(other),
                content,
            )),
{
    if let Ok(blob) = reply {
        if forall|i: int| 0 <= i < blob.content@.len() ==> #[trigger] blob.content@[i] != '\n' {
            law_only_line_feeds_go(blob.content@);
        }
        if blob.content@ == start + seq!['\n'] + end {
            law_line_feed_makes_no_difference(start, end);
        }
    }
}

/// A message about a text that cannot be read quotes that text, and tells a repository's name from a
/// revision.
pub proof fn law_message_quotes_the_text(error: GitHubApiRootConstructError, message: Seq<char>)
    requires
        tells_of(error, message),
    ensures
        error matches GitHubApiRootConstructError::InvalidUrl(url) ==> message.len() == quoted(
            url@,
        ).len() + 16 && message.subrange(0, 4) == seq!['U', 'R', 'L', ' '] && message.subrange(
            4,
            message.len() - 12,
        ) == quoted(url@),
        error matches GitHubApiRootConstructError::InvalidRev(rev) ==> message.len() == quoted(
            rev@,
        ).len() + 16 && message.subrange(0, 4) == seq!['r', 'e', 'v', ' '] && message.subrange(
            4,
            message.len() - 12,
        ) == quoted(rev@),
{
    reveal_strlit("URL ");
    reveal_strlit("rev ");
    reveal_strlit(" is invalid.");
    match error {
        GitHubApiRootConstructError::InvalidUrl(url) => {
            assert(message.subrange(0, 4) =~= seq!['U', 'R', 'L', ' ']);
            assert(message.subrange(4, message.len() - 12) =~= quoted(url@));
        },
        GitHubApiRootConstructError::InvalidRev(rev) => {
            assert(message.subrange(0, 4) =~= seq!['r', 'e', 'v', ' ']);
            assert(message.subrange(4, message.len() - 12) =~= quoted(rev@));
        },
    }
}

/// The entries of a directory are all those that came, in their order, or the error that there was.
pub proof fn law_all_items_come_through<E>(
    reply: Result<TreeResponse, E>,
    items: Result<Vec<TreeItem>, E>,
    i: int,
)
    requires
        are_items_of(reply, items),
    ensures
        reply is Ok <==> items is Ok,
        reply is Ok ==> items->Ok_0@.len() == reply->Ok_0.tree@.len(),
        reply is Ok && 0 <= i < reply->Ok_0.tree@.len() ==> items->Ok_0@[i] == reply->Ok_0.tree@[i],
        reply is Err ==> items->Err_0 == reply->Err_0,
{
}

} // verus!
