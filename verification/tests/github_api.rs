use ghfs::github_api::{
    decoded_content, ApiReply, ApiRequest, Blob, BlobContent, Branch, BranchCommit,
    BranchCommitCommitTree, Commit, GetBlobContentError, GitHubApiRoot, GitHubApiRootConstructError,
    Repository, RootLookup, Tree, TreeItem, TreeResponse,
};

const REV: &str = "3639d3315140fea4844df82de71de18f6081c3cc";

fn root(owner: &str, repo: &str, branch: Option<&str>, rev: Option<&str>) -> GitHubApiRoot {
    GitHubApiRoot {
        owner: owner.to_string(),
        repo: repo.to_string(),
        branch_name: branch.map(|s| s.to_string()),
        rev: rev.map(|s| s.to_string()),
    }
}

fn commit(url: &str) -> BranchCommit {
    BranchCommit { commit: Commit { tree: BranchCommitCommitTree { url: url.to_string() } } }
}

fn invalid_url(url: &str) -> Result<GitHubApiRoot, GitHubApiRootConstructError> {
    Err(GitHubApiRootConstructError::InvalidUrl(url.to_string()))
}

fn invalid_rev(rev: &str) -> Result<GitHubApiRoot, GitHubApiRootConstructError> {
    Err(GitHubApiRootConstructError::InvalidRev(rev.to_string()))
}

#[test]
fn url_with_host() {
    let parsed = GitHubApiRoot::from_repository_url("https://github.com/White-Green/ghfs");
    assert_eq!(parsed, Ok(root("White-Green", "ghfs", None, None)));
}

#[test]
fn url_without_host() {
    let parsed = GitHubApiRoot::from_repository_url("White-Green/ghfs");
    assert_eq!(parsed, Ok(root("White-Green", "ghfs", None, None)));
}

#[test]
fn url_with_branch() {
    let parsed = GitHubApiRoot::from_repository_url("White-Green/ghfs?branch=main");
    assert_eq!(parsed, Ok(root("White-Green", "ghfs", Some("main"), None)));
    let parsed = GitHubApiRoot::from_repository_url("a/b?branch=feature/x?y=z");
    assert_eq!(parsed, Ok(root("a", "b", Some("feature/x?y=z"), None)));
}

#[test]
fn url_with_revision() {
    let url = format!("https://github.com/White-Green/ghfs?rev={}", REV);
    let parsed = GitHubApiRoot::from_repository_url(&url);
    assert_eq!(parsed, Ok(root("White-Green", "ghfs", None, Some(REV))));
}

#[test]
fn url_with_empty_query() {
    assert_eq!(GitHubApiRoot::from_repository_url("a/b?"), Ok(root("a", "b", None, None)));
}

#[test]
fn url_with_unusual_names() {
    assert_eq!(GitHubApiRoot::from_repository_url("a?b/c"), Ok(root("a?b", "c", None, None)));
    assert_eq!(GitHubApiRoot::from_repository_url("a\nb/c\nd"), Ok(root("a\nb", "c\nd", None, None)));
    assert_eq!(GitHubApiRoot::from_repository_url("ä/日本"), Ok(root("ä", "日本", None, None)));
}

#[test]
fn url_that_is_invalid() {
    for url in [
        "", "ghfs", "/ghfs", "White-Green/", "a/b/c", "http://github.com/a/b", "https://github.com/a",
        "https://github.com/", "a/b?x=y", "a/b?branch=", "a/b?rev=", "a/b?branch=a\nb", "a/?branch=main",
    ] {
        assert_eq!(GitHubApiRoot::from_repository_url(url), invalid_url(url));
    }
}

#[test]
fn revision_that_is_invalid() {
    for rev in [
        "main",
        "3639d3315140fea4844df82de71de18f6081c3c",
        "3639d3315140fea4844df82de71de18f6081c3ccc",
        "3639D3315140fea4844df82de71de18f6081c3cc",
        "g639d3315140fea4844df82de71de18f6081c3cc",
    ] {
        let url = format!("a/b?rev={}", rev);
        assert_eq!(GitHubApiRoot::from_repository_url(&url), invalid_rev(rev));
    }
}

#[test]
fn error_messages() {
    let url = GitHubApiRootConstructError::InvalidUrl("a\"b".to_string());
    assert_eq!(url.message(), "URL \"a\\\"b\" is invalid.");
    let rev = GitHubApiRootConstructError::InvalidRev("main".to_string());
    assert_eq!(rev.message(), "rev \"main\" is invalid.");
}

#[test]
fn root_of_default_branch() {
    let api = root("o", "r", None, None);
    assert_eq!(
        api.get_repository_tree_url::<u8>(None),
        RootLookup::Request(ApiRequest::Repository("https://api.github.com/repos/o/r".to_string()))
    );
    let reply = ApiReply::Repository(Repository { default_branch: "trunk".to_string() });
    assert_eq!(
        api.get_repository_tree_url::<u8>(Some(Ok(reply))),
        RootLookup::Request(ApiRequest::Branch(
            "https://api.github.com/repos/o/r/branches/trunk".to_string()
        ))
    );
    let reply = ApiReply::Branch(Branch { commit: commit("tree-url") });
    assert_eq!(
        api.get_repository_tree_url::<u8>(Some(Ok(reply))),
        RootLookup::Found(Tree { path: String::new(), url: "tree-url".to_string() })
    );
}

#[test]
fn root_of_branch() {
    let api = root("o", "r", Some("dev"), None);
    assert_eq!(
        api.get_repository_tree_url::<u8>(None),
        RootLookup::Request(ApiRequest::Branch(
            "https://api.github.com/repos/o/r/branches/dev".to_string()
        ))
    );
}

#[test]
fn root_of_revision() {
    let api = root("o", "r", None, Some(REV));
    assert_eq!(
        api.get_repository_tree_url::<u8>(None),
        RootLookup::Request(ApiRequest::Commit(format!(
            "https://api.github.com/repos/o/r/commits/{}",
            REV
        )))
    );
    assert_eq!(
        api.get_repository_tree_url::<u8>(Some(Ok(ApiReply::Commit(commit("t"))))),
        RootLookup::Found(Tree { path: String::new(), url: "t".to_string() })
    );
}

#[test]
fn branch_knows_its_tree() {
    assert_eq!(Branch { commit: commit("there") }.into_tree_url(), "there");
}

fn blob() -> Blob {
    Blob { path: "a.txt".to_string(), size: 5, url: "u".to_string() }
}

fn blob_content(content: &str) -> BlobContent {
    BlobContent { content: content.to_string(), encoding: "base64".to_string() }
}

#[test]
fn blob_describes_a_file() {
    assert_eq!(blob().path(), "a.txt");
    assert_eq!(blob().size(), 5);
}

#[test]
fn blob_content_is_decoded() {
    let content = blob().into_content::<u8>(Ok(blob_content("aGVs\nbG8=\n")));
    assert_eq!(content, Ok(b"hello".to_vec()));
    let content = blob().into_content::<u8>(Ok(blob_content("")));
    assert_eq!(content, Ok(Vec::new()));
    let content = blob().into_content::<u8>(Ok(blob_content("AAH/\n")));
    assert_eq!(content, Ok(vec![0, 1, 255]));
}

#[test]
fn blob_content_that_is_not_base64() {
    let content = blob().into_content::<u8>(Ok(blob_content("a*b=")));
    assert_eq!(
        content,
        Err(GetBlobContentError::DecodeError(base64::DecodeError::InvalidByte(1, b'*')))
    );
}

#[test]
fn blob_content_that_did_not_come() {
    assert_eq!(blob().into_content(Err("offline")), Err(GetBlobContentError::HTTPError("offline")));
}

#[test]
fn decoder_result_is_passed_on() {
    assert_eq!(decoded_content::<u8>(Ok(vec![1, 2])), Ok(vec![1, 2]));
    assert_eq!(
        decoded_content::<u8>(Err(base64::DecodeError::InvalidLength)),
        Err(GetBlobContentError::DecodeError(base64::DecodeError::InvalidLength))
    );
}

#[test]
fn tree_items_come_out_of_the_reply() {
    let tree = Tree { path: "src".to_string(), url: "u".to_string() };
    assert_eq!(tree.path(), "src");
    let reply: Result<TreeResponse, u8> = Ok(TreeResponse { tree: vec![TreeItem::Blob(blob())] });
    assert_eq!(tree.into_tree_items(reply), Ok(vec![TreeItem::Blob(blob())]));
    let tree = Tree { path: "src".to_string(), url: "u".to_string() };
    assert_eq!(tree.into_tree_items(Err(3)), Err(3));
}

#[test]
fn failed_request_ends_the_search() {
    for api in [
        root("o", "r", None, None),
        root("o", "r", Some("dev"), None),
        root("o", "r", None, Some(REV)),
    ] {
        assert_eq!(api.get_repository_tree_url(Some(Err("offline"))), RootLookup::Failed("offline"));
    }
}
