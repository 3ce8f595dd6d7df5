use awesome_generator::urls::{github_owner_repo, gitlab_project, owner_and_repo, page_url, repo_base_url, url_pieces};

#[test]
fn github_url_gives_owner_and_repo() {
    let (owner, repo) = github_owner_repo("https://github.com/bombsimon/garmin-seaside").unwrap();
    assert_eq!(owner, "bombsimon");
    assert_eq!(repo, "garmin-seaside");
    let (owner, repo) = github_owner_repo("https://github.com/a/b/tree/main").unwrap();
    assert_eq!((owner.as_str(), repo.as_str()), ("a", "b"));
}

#[test]
fn github_url_without_repo_gives_nothing() {
    assert!(github_owner_repo("https://github.com/bombsimon").is_none());
    assert!(github_owner_repo("not a url").is_none());
}

#[test]
fn owner_and_repo_of_a_path() {
    let (owner, repo) = owner_and_repo("/o/");
    assert_eq!(owner, "o");
    assert_eq!(repo, "");
}

#[test]
fn gitlab_url_gives_project_path() {
    assert_eq!(
        gitlab_project("https://gitlab.com/knusprjg/plotty-mcclockface").unwrap(),
        "knusprjg/plotty-mcclockface"
    );
    assert!(gitlab_project("::").is_none());
}

#[test]
fn repository_base_drops_deeper_paths() {
    assert_eq!(
        repo_base_url("https://gitlab.com/btpv/zermeloforgarmin/").unwrap(),
        "https://gitlab.com/btpv/zermeloforgarmin"
    );
    assert_eq!(
        repo_base_url("https://github.com/a/b/tree/main/app").unwrap(),
        "https://github.com/a/b"
    );
    assert_eq!(repo_base_url("https://GitHub.com/a").unwrap(), "https://github.com/a");
    assert!(repo_base_url("https://github.com:99999/a").is_err());
}

#[test]
fn pieces_of_a_url() {
    let p = url_pieces("https://example.com/x?y=1").unwrap();
    assert_eq!(p.scheme, "https");
    assert_eq!(p.host.as_deref(), Some("example.com"));
    assert_eq!(p.path, "/x");
}

#[test]
fn search_page_url() {
    assert_eq!(
        page_url("sailing watch", 30, 60).unwrap(),
        "https://apps.garmin.com/api/appsLibraryExternalServices/api/asw/apps/keywords?keywords=sailing+watch&pageSize=30&sortType=mostPopular&startPageIndex=60"
    );
}
