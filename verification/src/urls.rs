//! URLs: the pieces that `url::Url::parse` gives, and what the generator
//! reads from them (owner and repository, project path, repository base).

use vstd::prelude::*;
use crate::text::{before_char, first_segments, take_segments, prefix_before, is_prefix, decimal, decimal_u64};

verus! {

#[verifier::external_type_specification]
#[verifier::external_body]
pub struct ExUrlParseError(url::ParseError);

/// The scheme, host and path that `url::Url::parse` finds in `s`, or `None`
/// where it fails.
pub uninterp spec fn url_parts(s: Seq<char>) -> Option<(Seq<char>, Option<Seq<char>>, Seq<char>)>;

/// The URL that results from parsing `base` with `url::Url::parse`,
/// replacing its query with the form-encoded `pairs` and serializing it, or
/// `None` where `base` does not parse.
pub uninterp spec fn url_with_query(base: Seq<char>, pairs: Seq<(Seq<char>, Seq<char>)>) -> Option<Seq<char>>;

/// The pieces of a parsed URL that the generator reads.
#[derive(Debug)]
pub struct UrlParts {
    pub scheme: String,
    pub host: Option<String>,
    pub path: String,
}

/// The pieces of a parsed URL as plain values.
pub open spec fn parts_view(p: UrlParts) -> (Seq<char>, Option<Seq<char>>, Seq<char>) {
    (p.scheme@, p.host.deep_view(), p.path@)
}

/// Parses `s` with `url::Url::parse` and reads `scheme()`, `host_str()` and
/// `path()`. Besides naming the result, the contract states what the url
/// crate's parser guarantees for an `https://` URL, a special scheme: it has
/// a host, and its path starts with `/`.
#[verifier::external_body]
fn parse_url(s: &str) -> (r: Result<UrlParts, url::ParseError>)
    ensures
        r is Ok <==> url_parts(s@) is Some,
        r matches Ok(p) ==> url_parts(s@) == Some(parts_view(p)),
        r matches Ok(p) ==> (is_prefix("https://"@, s@) ==> p.host is Some && p.path@.len() > 0
            && p.path@[0] == '/'),
{
    match url::Url::parse(s) {
        Ok(u) => {
            let host = match u.host_str() {
                Some(h) => Some(h.to_string()),
                None => None,
            };
            Ok(UrlParts { scheme: u.scheme().to_string(), host, path: u.path().to_string() })
        },
        Err(e) => Err(e),
    }
}

/// Parses `base` with `url::Url::parse`, replaces its query by `pairs`
/// through `query_pairs_mut().clear().extend_pairs(..)` and serializes the
/// URL. The contract names the result; form encoding is not restated.
#[verifier::external_body]
fn set_query(base: &str, pairs: &Vec<(String, String)>) -> (r: Option<String>)
    ensures
        r.deep_view() == url_with_query(base@, pairs_text(pairs@)),
{
    match url::Url::parse(base) {
        Ok(mut u) => {
            u.query_pairs_mut().clear().extend_pairs(pairs.iter());
            Some(u.to_string())
        },
        Err(_) => None,
    }
}

/// Query pairs as plain values.
pub open spec fn pairs_text(pairs: Seq<(String, String)>) -> Seq<(Seq<char>, Seq<char>)> {
    pairs.map_values(|p: (String, String)| (p.0@, p.1@))
}

/// The pieces of a URL as `url::Url::parse` gives them.
pub fn url_pieces(s: &str) -> (r: Result<UrlParts, url::ParseError>)
    ensures
        r is Ok <==> url_parts(s@) is Some,
        r matches Ok(p) ==> url_parts(s@) == Some(parts_view(p)),
{
    parse_url(s)
}

/// A path of the shape `/<owner>/<repo>...`: it starts with `/`, and a `/`
/// follows the owner.
pub open spec fn is_owner_repo_path(path: Seq<char>) -> bool {
    path.len() > 0 && path[0] == '/' && path.skip(1).contains('/')
}

/// The owner: the first segment of the path.
pub open spec fn path_owner(path: Seq<char>) -> Seq<char> {
    before_char(path.skip(1), '/')
}

/// The repository: the second segment of the path.
pub open spec fn path_repo(path: Seq<char>) -> Seq<char> {
    before_char(path.skip(1).skip(path_owner(path).len() as int + 1), '/')
}

/// `owner` and `repo` are the first two segments of the path of `url`, which
/// parses and has a path of the shape `/<owner>/<repo>...`.
pub open spec fn names_github_repo(url: Seq<char>, owner: Seq<char>, repo: Seq<char>) -> bool {
    match url_parts(url) {
        Some(p) => is_owner_repo_path(p.2) && owner == path_owner(p.2) && repo == path_repo(p.2),
        None => false,
    }
}

/// Splits a repository path `/<owner>/<repo>/...` into owner and
/// repository.
pub fn owner_and_repo(path: &str) -> (r: (String, String))
    requires
        is_owner_repo_path(path@),
    ensures
        r.0@ == path_owner(path@),
        r.1@ == path_repo(path@),
{
    let rest = path.substring_char(1, path.unicode_len());
    let owner = prefix_before(rest, '/');
    proof {
        crate::text::lemma_before_char_found(rest@, '/');
    }
    let after = rest.substring_char(owner.unicode_len() + 1, rest.unicode_len());
    let repo = prefix_before(after, '/');
    (owner, repo)
}

/// The owner and repository of a GitHub URL, read from its path; `None`
/// where the URL does not parse or its path is not `/<owner>/<repo>...`.
pub fn github_owner_repo(url: &str) -> (r: Option<(String, String)>)
    ensures
        r is Some <==> (url_parts(url@) matches Some(p) && is_owner_repo_path(p.2)),
        r matches Some(pair) ==> (url_parts(url@) matches Some(p) && pair.0@ == path_owner(p.2)
            && pair.1@ == path_repo(p.2)),
        r matches Some(pair) ==> names_github_repo(url@, pair.0@, pair.1@),
{
    match parse_url(url) {
        Ok(parts) => {
            let path = parts.path.as_str();
            let n = path.unicode_len();
            if n > 0 && path.get_char(0) == '/' {
                let rest = path.substring_char(1, n);
                let (_, found) = crate::text::find_char(rest, '/');
                if found {
                    return Some(owner_and_repo(path));
                }
            }
            None
        },
        Err(_) => None,
    }
}

/// The project path of a GitLab URL: its path without the leading `/`;
/// `None` where the URL does not parse or its path does not start with `/`.
pub fn gitlab_project(url: &str) -> (r: Option<String>)
    ensures
        r is Some <==> (url_parts(url@) matches Some(p) && p.2.len() > 0 && p.2[0] == '/'),
        r matches Some(project) ==> (url_parts(url@) matches Some(p) && project@ == p.2.skip(1)),
{
    match parse_url(url) {
        Ok(parts) => {
            let path = parts.path.as_str();
            let n = path.unicode_len();
            if n > 0 && path.get_char(0) == '/' {
                Some(path.substring_char(1, n).to_owned())
            } else {
                None
            }
        },
        Err(_) => None,
    }
}

/// The repository base of parsed pieces: scheme, `://`, host, and the first
/// three pieces of the path split at `/` (so `/owner/repo`).
pub open spec fn base_of(p: (Seq<char>, Option<Seq<char>>, Seq<char>)) -> Seq<char> {
    p.0 + "://"@ + p.1->0 + take_segments(p.2, 3)
}

/// The repository base URL of parsed pieces that have a host.
pub fn base_url(parts: &UrlParts) -> (r: String)
    requires
        parts.host is Some,
    ensures
        r@ == base_of(parts_view(*parts)),
{
    let mut out = parts.scheme.clone();
    out.append("://");
    match &parts.host {
        Some(h) => out.append(h.as_str()),
        None => {},
    }
    let segments = first_segments(parts.path.as_str(), 3);
    out.append(segments.as_str());
    out
}

/// The repository base of an `https://` URL, which drops any path below
/// `/owner/repo`; the parse error where the URL does not parse.
pub fn repo_base_url(url: &str) -> (r: Result<String, url::ParseError>)
    requires
        is_prefix("https://"@, url@),
    ensures
        r is Ok <==> url_parts(url@) is Some,
        r matches Ok(b) ==> (url_parts(url@) matches Some(p) && p.1 is Some && b@ == base_of(p)),
{
    match parse_url(url) {
        Ok(parts) => Ok(base_url(&parts)),
        Err(e) => Err(e),
    }
}

/// The query of a Connect IQ keyword search for one page.
pub open spec fn page_query(keyword: Seq<char>, page_size: nat, start: nat) -> Seq<(Seq<char>, Seq<char>)> {
    seq![
        ("keywords"@, keyword),
        ("pageSize"@, decimal(page_size)),
        ("sortType"@, "mostPopular"@),
        ("startPageIndex"@, decimal(start)),
    ]
}

/// The address of the Connect IQ keyword search.
pub open spec fn search_base() -> Seq<char> {
    "https://apps.garmin.com/api/appsLibraryExternalServices/api/asw/apps/keywords"@
}

/// The URL of one page of a Connect IQ keyword search, sorted by
/// popularity; `None` only where the url crate refuses the address.
pub fn page_url(keyword: &str, page_size: usize, start_page_index: usize) -> (r: Option<String>)
    ensures
        r.deep_view() == url_with_query(search_base(), page_query(keyword@, page_size as nat, start_page_index as nat)),
{
    let mut pairs: Vec<(String, String)> = Vec::new();
    pairs.push(("keywords".to_owned(), keyword.to_owned()));
    pairs.push(("pageSize".to_owned(), decimal_u64(page_size as u64)));
    pairs.push(("sortType".to_owned(), "mostPopular".to_owned()));
    pairs.push(("startPageIndex".to_owned(), decimal_u64(start_page_index as u64)));
    assert(pairs_text(pairs@) =~= page_query(keyword@, page_size as nat, start_page_index as nat));
    set_query("https://apps.garmin.com/api/appsLibraryExternalServices/api/asw/apps/keywords", &pairs)
}

} // verus!
