//! What becomes of one entry of `awesome.toml`: where its data comes from,
//! the resource built from the API's answer, whether it is old, and the
//! fixes the TOML file needs.

use vstd::prelude::*;
use crate::order::Timestamp;
use crate::resource::{GarminResource, TomlFileItem};
use crate::text::{contains_str, has_substring, lowercase, replaced, replace_all, same_ignoring_case};
use crate::time::{is_old, is_older};
use crate::catalog::{GarminResources, ListKey, list_or_empty};
use crate::resource::{ResourceType, status_of};
use crate::urls::{github_owner_repo, names_github_repo};

verus! {

/// Where the data of a resource comes from.
#[derive(Clone, Copy, Debug, PartialEq, Eq, Structural)]
pub enum ResourceSource {
    GitHub,
    GitLab,
    Listed,
}

/// The source of the resource at `url`: GitHub for URLs containing
/// `github.com`, GitLab for URLs containing `gitlab.com`, the TOML entry
/// itself otherwise.
pub open spec fn source_of(url: Seq<char>) -> ResourceSource {
    if has_substring(url, "github.com"@) {
        ResourceSource::GitHub
    } else if has_substring(url, "gitlab.com"@) {
        ResourceSource::GitLab
    } else {
        ResourceSource::Listed
    }
}

/// Decides where the data of the resource at `url` comes from.
pub fn resource_source(url: &str) -> (r: ResourceSource)
    ensures
        r == source_of(url@),
{
    if contains_str(url, "github.com") {
        ResourceSource::GitHub
    } else if contains_str(url, "gitlab.com") {
        ResourceSource::GitLab
    } else {
        ResourceSource::Listed
    }
}

/// A URL whose owner in the TOML file differs from the repository's owner,
/// with the URL that names the right owner.
#[derive(Debug)]
pub struct OwnerFix {
    pub old_url: String,
    pub new_url: String,
}

/// The fixes that `awesome.toml` needs.
#[derive(Debug)]
pub struct TomlFixes {
    pub owner_mismatches: Vec<OwnerFix>,
    pub not_found: Vec<String>,
}

/// The fixes as plain values: the (old, new) URL pairs and the URLs to
/// remove.
pub open spec fn fixes_view(f: TomlFixes) -> (Seq<(Seq<char>, Seq<char>)>, Seq<Seq<char>>) {
    (
        f.owner_mismatches@.map_values(|o: OwnerFix| (o.old_url@, o.new_url@)),
        f.not_found@.map_values(|u: String| u@),
    )
}

impl TomlFixes {
    /// No fixes.
    pub fn new() -> (r: TomlFixes)
        ensures
            r.owner_mismatches@.len() == 0,
            r.not_found@.len() == 0,
    {
        TomlFixes { owner_mismatches: Vec::new(), not_found: Vec::new() }
    }

    /// Whether there is anything to fix.
    pub fn has_fixes(&self) -> (r: bool)
        ensures
            r == (self.owner_mismatches@.len() > 0 || self.not_found@.len() > 0),
    {
        self.owner_mismatches.len() > 0 || self.not_found.len() > 0
    }
}

/// What the GitHub API tells about a repository.
#[derive(Debug)]
pub struct GithubRepo {
    pub owner_login: Option<String>,
    pub description: Option<String>,
    pub pushed_at: Option<Timestamp>,
    pub archived: Option<bool>,
    pub stargazers_count: Option<u32>,
}

/// The answer to a GitHub repository request.
#[derive(Debug)]
pub enum GithubReply {
    /// The repository.
    Found(GithubRepo),
    /// An error reported by GitHub, with its message.
    ApiError(String),
    /// Any other failure.
    OtherError,
}

/// What the GitLab API tells about a project.
#[derive(Debug)]
pub struct GitLabProject {
    pub name: String,
    pub description: Option<String>,
    pub last_activity_at: Timestamp,
    pub archived: bool,
    pub star_count: u32,
}

/// `r` holds exactly these values.
pub open spec fn resource_is(
    r: GarminResource,
    name: Seq<char>,
    description: Option<Seq<char>>,
    url: Seq<char>,
    last_updated: Option<Timestamp>,
    is_archived: bool,
    star_count: Option<u32>,
) -> bool {
    &&& r.name@ == name
    &&& r.description.deep_view() == description
    &&& r.url@ == url
    &&& r.last_updated == last_updated
    &&& r.is_archived == is_archived
    &&& r.star_count == star_count
}

/// The description shown for a resource: the one in the TOML file when it
/// has one, else the API's, else the empty text.
pub open spec fn chosen_description(listed: Option<Seq<char>>, api: Option<Seq<char>>) -> Seq<char> {
    match listed {
        Some(d) => d,
        None => match api {
            Some(d) => d,
            None => Seq::empty(),
        },
    }
}

/// Picks the description shown for a resource.
pub fn choose_description(listed: &Option<String>, api: Option<String>) -> (r: String)
    ensures
        r@ == chosen_description(listed.deep_view(), api.deep_view()),
{
    match listed {
        Some(d) => d.clone(),
        None => match api {
            Some(d) => d,
            None => String::new(),
        },
    }
}

/// The resource of a TOML entry that no API knows: it is listed only when
/// the entry has a name, and then it counts as old.
pub fn listed_resource(url: String, item: TomlFileItem) -> (r: Option<(GarminResource, bool)>)
    ensures
        r is Some <==> item.name is Some,
        r matches Some(p) ==> p.1 && resource_is(
            p.0,
            item.name->0@,
            item.description.deep_view(),
            url@,
            None,
            false,
            None,
        ),
{
    match item.name {
        Some(name) => Some((
            GarminResource {
                name,
                description: item.description,
                url,
                last_updated: None,
                is_archived: false,
                star_count: None,
            },
            true,
        )),
        None => None,
    }
}

/// The URL `url` with the owner `owner` replaced by `login`.
pub open spec fn fixed_url(url: Seq<char>, owner: Seq<char>, login: Seq<char>) -> Seq<char> {
    replaced(url, "github.com/"@ + owner, "github.com/"@ + login)
}

/// The fix for a repository whose owner `login` differs, ignoring case, from
/// the `owner` in its TOML URL: every `github.com/<owner>` in the URL
/// becomes `github.com/<login>`.
pub fn owner_fix(url: &str, owner: &str, login: &str) -> (r: Option<OwnerFix>)
    ensures
        r is Some <==> lowercase(owner@) != lowercase(login@),
        r matches Some(f) ==> f.old_url@ == url@ && f.new_url@ == fixed_url(url@, owner@, login@),
{
    if same_ignoring_case(owner, login) {
        None
    } else {
        let mut from = "github.com/".to_owned();
        from.append(owner);
        let mut to = "github.com/".to_owned();
        to.append(login);
        proof {
            reveal_strlit("github.com/");
        }
        let new_url = replace_all(url, from.as_str(), to.as_str());
        Some(OwnerFix { old_url: url.to_owned(), new_url })
    }
}

/// The fixes after a GitHub answer for `url` whose TOML owner is `owner`.
pub open spec fn github_fixes(
    fixes: (Seq<(Seq<char>, Seq<char>)>, Seq<Seq<char>>),
    url: Seq<char>,
    owner: Seq<char>,
    reply: GithubReply,
) -> (Seq<(Seq<char>, Seq<char>)>, Seq<Seq<char>>) {
    match reply {
        GithubReply::Found(repo) => match repo.owner_login {
            Some(login) => if lowercase(owner) != lowercase(login@) {
                (fixes.0.push((url, fixed_url(url, owner, login@))), fixes.1)
            } else {
                fixes
            },
            None => fixes,
        },
        GithubReply::ApiError(message) => if has_substring(message@, "Not Found"@) {
            (fixes.0, fixes.1.push(url))
        } else {
            fixes
        },
        GithubReply::OtherError => fixes,
    }
}

/// Builds the resource for the GitHub repository `owner/repo` at `url` from
/// the API's `reply`, and records the fixes the TOML file needs: a
/// repository that GitHub does not find is to be removed, and one whose
/// owner differs is to be renamed. A failed request gives no resource. The
/// resource is old when its last push lies more than two years before
/// `now`. `owner` and `repo` are the first two segments of the URL's path;
/// a URL without them is no GitHub repository.
pub fn update_github_resource(
    url: String,
    owner: &str,
    repo: &str,
    item: &TomlFileItem,
    reply: GithubReply,
    now: Timestamp,
    fixes: &mut TomlFixes,
) -> (r: (Option<GarminResource>, bool))
    requires
        names_github_repo(url@, owner@, repo@),
    ensures
        fixes_view(*final(fixes)) == github_fixes(fixes_view(*old(fixes)), url@, owner@, reply),
        r.0 is Some <==> reply is Found,
        reply is Found ==> ({
            let info = reply->Found_0;
            &&& resource_is(
                r.0->0,
                repo@,
                Some(chosen_description(item.description.deep_view(), info.description.deep_view())),
                url@,
                info.pushed_at,
                info.archived.unwrap_or(false),
                info.stargazers_count,
            )
            &&& r.1 == match info.pushed_at {
                Some(t) => is_older(t, now),
                None => false,
            }
        }),
        !(reply is Found) ==> !r.1,
{
    let ghost before = fixes_view(*fixes);
    let ghost reply_spec = reply;
    match reply {
        GithubReply::Found(info) => {
            match &info.owner_login {
                Some(login) => {
                    match owner_fix(url.as_str(), owner, login.as_str()) {
                        Some(fix) => {
                            fixes.owner_mismatches.push(fix);
                            proof {
                                assert(fixes_view(*fixes).0 =~= before.0.push((url@, fixed_url(url@, owner@, login@))));
                                assert(fixes_view(*fixes).1 =~= before.1);
                            }
                        },
                        None => {},
                    }
                },
                None => {},
            }
            let description = choose_description(&item.description, info.description);
            let old = match &info.pushed_at {
                Some(t) => is_old(t, &now),
                None => false,
            };
            let archived = match info.archived {
                Some(a) => a,
                None => false,
            };
            (
                Some(GarminResource {
                    name: repo.to_owned(),
                    description: Some(description),
                    url,
                    last_updated: info.pushed_at,
                    is_archived: archived,
                    star_count: info.stargazers_count,
                }),
                old,
            )
        },
        GithubReply::ApiError(message) => {
            if contains_str(message.as_str(), "Not Found") {
                fixes.not_found.push(url);
                proof {
                    assert(fixes_view(*fixes).1 =~= before.1.push(url@));
                    assert(fixes_view(*fixes).0 =~= before.0);
                }
            }
            (None, false)
        },
        GithubReply::OtherError => (None, false),
    }
}

/// Builds the resource for a GitLab project at `url` from the API's answer;
/// a failed request (`None`) gives no resource. The resource is old when
/// its last activity lies more than two years before `now`.
pub fn update_gitlab_resource(
    url: String,
    item: &TomlFileItem,
    reply: Option<GitLabProject>,
    now: Timestamp,
) -> (r: (Option<GarminResource>, bool))
    ensures
        r.0 is Some <==> reply is Some,
        reply matches Some(p) ==> resource_is(
            r.0->0,
            p.name@,
            Some(chosen_description(item.description.deep_view(), p.description.deep_view())),
            url@,
            Some(p.last_activity_at),
            p.archived,
            Some(p.star_count),
        ) && r.1 == is_older(p.last_activity_at, now),
        reply is None ==> !r.1,
{
    match reply {
        Some(project) => {
            let old = is_old(&project.last_activity_at, &now);
            let description = choose_description(&item.description, project.description);
            (
                Some(GarminResource {
                    name: project.name,
                    description: Some(description),
                    url,
                    last_updated: Some(project.last_activity_at),
                    is_archived: project.archived,
                    star_count: Some(project.star_count),
                }),
                old,
            )
        },
        None => (None, false),
    }
}

/// What the API of a resource's source answered, or nothing for a resource
/// that the TOML file describes itself.
#[derive(Debug)]
pub enum Lookup {
    /// The GitHub repository `owner/repo` and the API's answer.
    GitHub { owner: String, repo: String, reply: GithubReply },
    /// The GitLab API's answer; `None` where the request failed.
    GitLab(Option<GitLabProject>),
    /// No API is asked.
    Listed,
}

/// The lookup fits the source of `url`; a GitHub lookup names the owner and
/// repository of the URL's path.
pub open spec fn lookup_fits(url: Seq<char>, lookup: Lookup) -> bool {
    match lookup {
        Lookup::GitHub { owner, repo, .. } => source_of(url) == ResourceSource::GitHub
            && names_github_repo(url, owner@, repo@),
        Lookup::GitLab(_) => source_of(url) == ResourceSource::GitLab,
        Lookup::Listed => source_of(url) == ResourceSource::Listed,
    }
}

/// The values of a resource: name, description, URL, last update, archived
/// flag and star count.
pub type ResourceFacts = (Seq<char>, Option<Seq<char>>, Seq<char>, Option<Timestamp>, bool, Option<u32>);

/// `r` holds the values `f`.
pub open spec fn resource_has(r: GarminResource, f: ResourceFacts) -> bool {
    resource_is(r, f.0, f.1, f.2, f.3, f.4, f.5)
}

/// The resource that a lookup gives for the entry `item` at `url`, and
/// whether it is old; `None` where there is no resource.
pub open spec fn lookup_outcome(url: Seq<char>, item: TomlFileItem, lookup: Lookup, now: Timestamp) -> Option<(ResourceFacts, bool)> {
    match lookup {
        Lookup::GitHub { owner, repo, reply } => match reply {
            GithubReply::Found(info) => Some((
                (
                    repo@,
                    Some(chosen_description(item.description.deep_view(), info.description.deep_view())),
                    url,
                    info.pushed_at,
                    info.archived.unwrap_or(false),
                    info.stargazers_count,
                ),
                match info.pushed_at {
                    Some(t) => is_older(t, now),
                    None => false,
                },
            )),
            _ => None,
        },
        Lookup::GitLab(reply) => match reply {
            Some(p) => Some((
                (
                    p.name@,
                    Some(chosen_description(item.description.deep_view(), p.description.deep_view())),
                    url,
                    Some(p.last_activity_at),
                    p.archived,
                    Some(p.star_count),
                ),
                is_older(p.last_activity_at, now),
            )),
            None => None,
        },
        Lookup::Listed => match item.name {
            Some(n) => Some(((n@, item.description.deep_view(), url, None, false, None), true)),
            None => None,
        },
    }
}

/// The lists after filing a resource with values `f` under `k`.
pub open spec fn filed(
    before: Map<ListKey, Seq<GarminResource>>,
    after: Map<ListKey, Seq<GarminResource>>,
    k: ListKey,
    f: ResourceFacts,
) -> bool {
    &&& after.dom() == before.dom().insert(k)
    &&& forall|k2: ListKey| k2 != k && #[trigger] before.contains_key(k2) ==> after[k2] == before[k2]
    &&& after[k].len() == list_or_empty(before, k).len() + 1
    &&& after[k].drop_last() == list_or_empty(before, k)
    &&& resource_has(after[k].last(), f)
}

/// The lists `after` hold what filing the outcome of `lookup` for the entry
/// `item` of type `resource_type` at `url` makes of `before`: unchanged
/// where there is no resource, else the resource added under its type and
/// the status its age gives it.
pub open spec fn entry_filed(
    before: Map<ListKey, Seq<GarminResource>>,
    after: Map<ListKey, Seq<GarminResource>>,
    resource_type: ResourceType,
    url: Seq<char>,
    item: TomlFileItem,
    lookup: Lookup,
    now: Timestamp,
) -> bool {
    match lookup_outcome(url, item, lookup, now) {
        None => after == before,
        Some((f, is_old)) => filed(before, after, (resource_type, status_of(resource_type, is_old)), f),
    }
}

/// The fixes `after` hold what `lookup` calls for at `url`, starting from
/// `before`: those of a GitHub answer, none for other sources.
pub open spec fn entry_fixes(
    before: (Seq<(Seq<char>, Seq<char>)>, Seq<Seq<char>>),
    after: (Seq<(Seq<char>, Seq<char>)>, Seq<Seq<char>>),
    url: Seq<char>,
    lookup: Lookup,
) -> bool {
    match lookup {
        Lookup::GitHub { owner, reply, .. } => after == github_fixes(before, url, owner@, reply),
        _ => after == before,
    }
}

/// Whether `lookup` fits the source of `url`.
pub fn lookup_fits_url(url: &str, lookup: &Lookup) -> (r: bool)
    ensures
        r == lookup_fits(url@, *lookup),
{
    let source = resource_source(url);
    match lookup {
        Lookup::GitHub { owner, repo, .. } => match source {
            ResourceSource::GitHub => match github_owner_repo(url) {
                Some((o, r)) => o.eq(owner) && r.eq(repo),
                None => false,
            },
            _ => false,
        },
        Lookup::GitLab(_) => match source {
            ResourceSource::GitLab => true,
            _ => false,
        },
        Lookup::Listed => match source {
            ResourceSource::Listed => true,
            _ => false,
        },
    }
}

/// Updates one entry of the TOML file of type `resource_type` at `url`
/// once its source has been asked (`lookup`): builds the resource as the
/// source's answer gives it, files it under its type and the status its
/// age gives it, and records the fixes a GitHub answer calls for.
pub fn update_resource(
    resources: &mut GarminResources,
    fixes: &mut TomlFixes,
    resource_type: ResourceType,
    url: String,
    item: TomlFileItem,
    lookup: Lookup,
    now: Timestamp,
)
    requires
        old(resources).wf(),
        lookup_fits(url@, lookup),
    ensures
        final(resources).wf(),
        entry_filed(old(resources)@, final(resources)@, resource_type, url@, item, lookup, now),
        entry_fixes(fixes_view(*old(fixes)), fixes_view(*final(fixes)), url@, lookup),
{
    let ghost before = resources@;
    let outcome = match lookup {
        Lookup::GitHub { owner, repo, reply } => update_github_resource(
            url,
            owner.as_str(),
            repo.as_str(),
            &item,
            reply,
            now,
            fixes,
        ),
        Lookup::GitLab(reply) => update_gitlab_resource(url, &item, reply, now),
        Lookup::Listed => match listed_resource(url, item) {
            Some((r, is_old)) => (Some(r), is_old),
            None => (None, false),
        },
    };
    let ghost got = outcome;
    resources.file(resource_type, outcome);
    proof {
        match got.0 {
            Some(r) => {
                let k = (resource_type, status_of(resource_type, got.1));
                assert(resources@[k] =~= list_or_empty(before, k).push(r));
                assert(resources@[k].drop_last() =~= list_or_empty(before, k));
                assert(resources@.dom() =~= before.dom().insert(k));
            },
            None => {},
        }
    }
}

/// The description shown is the TOML file's whenever it has one, whatever
/// the API answers; without one it is the API's, else the empty text. This
/// holds of every resource a lookup gives.
pub proof fn lemma_listed_description_wins(
    listed: Option<Seq<char>>,
    api: Option<Seq<char>>,
    url: Seq<char>,
    item: TomlFileItem,
    lookup: Lookup,
    now: Timestamp,
)
    ensures
        listed matches Some(d) ==> chosen_description(listed, api) == d,
        listed is None ==> (api matches Some(a) ==> chosen_description(listed, api) == a),
        listed is None && api is None ==> chosen_description(listed, api) == Seq::<char>::empty(),
        item.description is Some ==> match lookup_outcome(url, item, lookup, now) {
            Some((facts, _)) => facts.1 == item.description.deep_view(),
            None => true,
        },
{
}

/// The age rule: a resource from GitHub is filed as old exactly when its
/// last push lies more than two years before `now`, one from GitLab exactly
/// when its last activity does; it goes to the end of the list of its type
/// and the status that age gives it, under the name the source gives it.
pub proof fn lemma_filed_by_age(
    before: Map<ListKey, Seq<GarminResource>>,
    after: Map<ListKey, Seq<GarminResource>>,
    resource_type: ResourceType,
    url: Seq<char>,
    item: TomlFileItem,
    lookup: Lookup,
    now: Timestamp,
)
    requires
        entry_filed(before, after, resource_type, url, item, lookup, now),
    ensures
        lookup matches Lookup::GitLab(Some(p)) ==> ({
            let k = (resource_type, status_of(resource_type, is_older(p.last_activity_at, now)));
            &&& after.contains_key(k)
            &&& after[k].len() == list_or_empty(before, k).len() + 1
            &&& after[k].last().name@ == p.name@
            &&& after[k].last().last_updated == Some(p.last_activity_at)
        }),
        lookup matches Lookup::GitHub { repo, reply: GithubReply::Found(info), .. } ==> ({
            let old_push = match info.pushed_at {
                Some(t) => is_older(t, now),
                None => false,
            };
            let k = (resource_type, status_of(resource_type, old_push));
            &&& after.contains_key(k)
            &&& after[k].len() == list_or_empty(before, k).len() + 1
            &&& after[k].last().name@ == repo@
            &&& after[k].last().last_updated == info.pushed_at
        }),
{
}

/// Updates one entry as `update_resource` does where `lookup` fits the
/// source of `url`, and changes nothing where it does not (for GitHub, where
/// the URL has no `/<owner>/<repo>` path or the lookup names another
/// repository); says whether it updated.
pub fn update_entry(
    resources: &mut GarminResources,
    fixes: &mut TomlFixes,
    resource_type: ResourceType,
    url: String,
    item: TomlFileItem,
    lookup: Lookup,
    now: Timestamp,
) -> (done: bool)
    requires
        old(resources).wf(),
    ensures
        final(resources).wf(),
        done == lookup_fits(url@, lookup),
        done ==> entry_filed(old(resources)@, final(resources)@, resource_type, url@, item, lookup, now),
        done ==> entry_fixes(fixes_view(*old(fixes)), fixes_view(*final(fixes)), url@, lookup),
        !done ==> *final(resources) == *old(resources) && *final(fixes) == *old(fixes),
{
    if lookup_fits_url(url.as_str(), &lookup) {
        update_resource(resources, fixes, resource_type, url, item, lookup, now);
        true
    } else {
        false
    }
}

} // verus!
