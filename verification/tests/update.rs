use awesome_generator::catalog::GarminResources;
use awesome_generator::resource::{ResourceStatus, ResourceType};
use awesome_generator::update::{lookup_fits_url, update_entry, update_resource, Lookup};
use awesome_generator::order::Timestamp;
use awesome_generator::resource::TomlFileItem;
use awesome_generator::update::{
    listed_resource, owner_fix, resource_source, update_github_resource, update_gitlab_resource,
    GitLabProject, GithubReply, GithubRepo, ResourceSource, TomlFixes,
};

const NOW: Timestamp = Timestamp { secs: 1_750_000_000, nanos: 0 };

fn empty_item() -> TomlFileItem {
    TomlFileItem { name: None, description: None }
}

fn repo_info(login: &str, pushed: i64) -> GithubRepo {
    GithubRepo {
        owner_login: Some(login.to_string()),
        description: Some("From the API".to_string()),
        pushed_at: Some(Timestamp { secs: pushed, nanos: 0 }),
        archived: None,
        stargazers_count: Some(3),
    }
}

#[test]
fn sources_follow_the_host() {
    assert_eq!(resource_source("https://github.com/a/b"), ResourceSource::GitHub);
    assert_eq!(resource_source("https://gitlab.com/a/b"), ResourceSource::GitLab);
    assert_eq!(resource_source("https://example.com/github"), ResourceSource::Listed);
}

#[test]
fn listed_resources_need_a_name_and_count_as_old() {
    assert!(listed_resource("https://x".to_string(), empty_item()).is_none());
    let item = TomlFileItem { name: Some("X".to_string()), description: Some("d".to_string()) };
    let (r, old) = listed_resource("https://x".to_string(), item).unwrap();
    assert!(old);
    assert_eq!(r.name, "X");
    assert_eq!(r.description.as_deref(), Some("d"));
    assert_eq!(r.url, "https://x");
    assert_eq!(r.last_updated, None);
    assert_eq!(r.star_count, None);
    assert!(!r.is_archived);
}

#[test]
fn github_repository_becomes_a_resource() {
    let mut fixes = TomlFixes::new();
    let url = "https://github.com/bombsimon/garmin-seaside".to_string();
    let (r, old) = update_github_resource(
        url.clone(),
        "bombsimon",
        "garmin-seaside",
        &empty_item(),
        GithubReply::Found(repo_info("BombSimon", NOW.secs - 10)),
        NOW,
        &mut fixes,
    );
    let r = r.unwrap();
    assert!(!old);
    assert_eq!(r.name, "garmin-seaside");
    assert_eq!(r.url, url);
    assert_eq!(r.description.as_deref(), Some("From the API"));
    assert_eq!(r.star_count, Some(3));
    assert!(!r.is_archived);
    assert!(!fixes.has_fixes());
}

#[test]
fn toml_description_wins_and_old_pushes_are_old() {
    let mut fixes = TomlFixes::new();
    let item = TomlFileItem { name: None, description: Some("Mine".to_string()) };
    let (r, old) = update_github_resource(
        "https://github.com/a/b".to_string(),
        "a",
        "b",
        &item,
        GithubReply::Found(repo_info("a", NOW.secs - 63_072_001)),
        NOW,
        &mut fixes,
    );
    assert!(old);
    assert_eq!(r.unwrap().description.as_deref(), Some("Mine"));
}

#[test]
fn renamed_owner_is_recorded() {
    let mut fixes = TomlFixes::new();
    let (r, _) = update_github_resource(
        "https://github.com/old/repo".to_string(),
        "old",
        "repo",
        &empty_item(),
        GithubReply::Found(repo_info("new", NOW.secs)),
        NOW,
        &mut fixes,
    );
    assert!(r.is_some());
    assert_eq!(fixes.owner_mismatches.len(), 1);
    assert_eq!(fixes.owner_mismatches[0].old_url, "https://github.com/old/repo");
    assert_eq!(fixes.owner_mismatches[0].new_url, "https://github.com/new/repo");
    assert!(fixes.has_fixes());
}

#[test]
fn missing_repository_is_recorded() {
    let mut fixes = TomlFixes::new();
    let (r, old) = update_github_resource(
        "https://github.com/gone/repo".to_string(),
        "gone",
        "repo",
        &empty_item(),
        GithubReply::ApiError("Not Found".to_string()),
        NOW,
        &mut fixes,
    );
    assert!(r.is_none());
    assert!(!old);
    assert_eq!(fixes.not_found, vec!["https://github.com/gone/repo".to_string()]);

    let (r, _) = update_github_resource(
        "https://github.com/x/y".to_string(),
        "x",
        "y",
        &empty_item(),
        GithubReply::ApiError("API rate limit exceeded".to_string()),
        NOW,
        &mut fixes,
    );
    assert!(r.is_none());
    assert_eq!(fixes.not_found.len(), 1);
    let (r, _) = update_github_resource("https://github.com/x/y".to_string(), "x", "y", &empty_item(), GithubReply::OtherError, NOW, &mut fixes);
    assert!(r.is_none());
    assert_eq!(fixes.not_found.len(), 1);
}

#[test]
fn owner_fix_ignores_case() {
    assert!(owner_fix("https://github.com/Foo/x", "Foo", "foo").is_none());
    let fix = owner_fix("https://github.com/Foo/x", "Foo", "bar").unwrap();
    assert_eq!(fix.new_url, "https://github.com/bar/x");
}

#[test]
fn gitlab_project_becomes_a_resource() {
    let project = GitLabProject {
        name: "Plotty McClockface".to_string(),
        description: None,
        last_activity_at: Timestamp { secs: NOW.secs - 63_072_000 - 1, nanos: 0 },
        archived: true,
        star_count: 7,
    };
    let url = "https://gitlab.com/knusprjg/plotty-mcclockface".to_string();
    let (r, old) = update_gitlab_resource(url.clone(), &empty_item(), Some(project), NOW);
    let r = r.unwrap();
    assert!(old);
    assert_eq!(r.name, "Plotty McClockface");
    assert_eq!(r.description.as_deref(), Some(""));
    assert_eq!(r.url, url);
    assert!(r.is_archived);
    assert_eq!(r.star_count, Some(7));
    let (r, old) = update_gitlab_resource(url, &empty_item(), None, NOW);
    assert!(r.is_none());
    assert!(!old);
}

#[test]
fn update_resource_files_the_outcome() {

    let mut resources = GarminResources::new();
    let mut fixes = TomlFixes::new();
    update_resource(
        &mut resources,
        &mut fixes,
        ResourceType::WatchFace,
        "https://github.com/gone/repo".to_string(),
        empty_item(),
        Lookup::GitHub {
            owner: "gone".to_string(),
            repo: "repo".to_string(),
            reply: GithubReply::ApiError("Not Found".to_string()),
        },
        NOW,
    );
    assert_eq!(fixes.not_found.len(), 1);
    update_resource(
        &mut resources,
        &mut fixes,
        ResourceType::WatchFace,
        "https://github.com/a/b".to_string(),
        empty_item(),
        Lookup::GitHub {
            owner: "a".to_string(),
            repo: "b".to_string(),
            reply: GithubReply::Found(repo_info("a", NOW.secs - 63_072_001)),
        },
        NOW,
    );
    update_resource(
        &mut resources,
        &mut fixes,
        ResourceType::Tool,
        "https://example.com/tool".to_string(),
        TomlFileItem { name: Some("Tool".to_string()), description: None },
        Lookup::Listed,
        NOW,
    );
    update_resource(
        &mut resources,
        &mut fixes,
        ResourceType::Tool,
        "https://example.com/nameless".to_string(),
        empty_item(),
        Lookup::Listed,
        NOW,
    );
    let inactive = resources.take_list(ResourceType::WatchFace, ResourceStatus::Inactive).unwrap();
    assert_eq!(inactive.len(), 1);
    assert_eq!(inactive[0].name, "b");
    assert!(resources.take_list(ResourceType::WatchFace, ResourceStatus::Active).is_none());
    let tools = resources.take_list(ResourceType::Tool, ResourceStatus::Active).unwrap();
    assert_eq!(tools.len(), 1);
    assert_eq!(tools[0].name, "Tool");
}

#[test]
fn github_lookups_must_name_the_repository_of_the_url() {
    let found = |owner: &str, repo: &str| Lookup::GitHub {
        owner: owner.to_string(),
        repo: repo.to_string(),
        reply: GithubReply::Found(repo_info(owner, NOW.secs)),
    };
    assert!(lookup_fits_url("https://github.com/a/b/tree/main", &found("a", "b")));
    assert!(!lookup_fits_url("https://github.com/a/b", &found("a", "c")));
    assert!(!lookup_fits_url("https://github.com/a", &found("a", "")));
    assert!(!lookup_fits_url("https://gitlab.com/a/b", &found("a", "b")));
    assert!(lookup_fits_url("https://gitlab.com/a/b", &Lookup::GitLab(None)));
    assert!(lookup_fits_url("https://example.com/x", &Lookup::Listed));
    assert!(!lookup_fits_url("https://example.com/x", &Lookup::GitLab(None)));

    let mut resources = GarminResources::new();
    let mut fixes = TomlFixes::new();
    let done = update_entry(
        &mut resources,
        &mut fixes,
        ResourceType::WatchFace,
        "https://github.com/a".to_string(),
        empty_item(),
        found("a", ""),
        NOW,
    );
    assert!(!done);
    assert!(resources.take_list(ResourceType::WatchFace, ResourceStatus::Active).is_none());
    assert!(!fixes.has_fixes());

    let done = update_entry(
        &mut resources,
        &mut fixes,
        ResourceType::WatchFace,
        "https://github.com/a/b".to_string(),
        empty_item(),
        found("a", "b"),
        NOW,
    );
    assert!(done);
    let active = resources.take_list(ResourceType::WatchFace, ResourceStatus::Active).unwrap();
    assert_eq!(active.len(), 1);
    assert_eq!(active[0].name, "b");
}
