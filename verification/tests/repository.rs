use gitweb_release_downloader::repository::{
    get_github_asset_api_url, get_page_url, get_platform_headers, get_releases_api_url,
    get_scheme_from_repository_string, page_size, page_size_param, GitWebsite, Repository,
};

fn repository(website: GitWebsite, passed: &str, origin: &str, sub_path: &str) -> Repository {
    Repository {
        passed_string: passed.to_string(),
        website,
        origin: origin.to_string(),
        sub_path: sub_path.to_string(),
        owner: "owner".to_string(),
        name: "name".to_string(),
    }
}

#[test]
fn scheme_is_https_unless_http_is_written() {
    assert_eq!(get_scheme_from_repository_string("http://host/o/n"), "http");
    assert_eq!(get_scheme_from_repository_string("https://host/o/n"), "https");
    assert_eq!(get_scheme_from_repository_string("host/o/n"), "https");
    assert_eq!(get_scheme_from_repository_string(""), "https");
    assert_eq!(get_scheme_from_repository_string("HTTP://host/o/n"), "https");
}

#[test]
fn github_listing_is_at_the_api_host() {
    let r = repository(GitWebsite::GitHub, "github.com/owner/name", "github.com", "/");
    assert_eq!(get_releases_api_url(&r), "https://api.github.com/repos/owner/name/releases");
}

#[test]
fn gitea_listing_is_below_the_sub_path() {
    let r = repository(
        GitWebsite::Gitea,
        "http://host.example/git/owner/name",
        "host.example",
        "/git/",
    );
    assert_eq!(
        get_releases_api_url(&r),
        "http://host.example/git/api/v1/repos/owner/name/releases"
    );
}

#[test]
fn gitlab_listing_escapes_the_slash() {
    let r = repository(GitWebsite::GitLab, "gitlab.com/owner/name", "gitlab.com", "/");
    assert_eq!(
        get_releases_api_url(&r),
        "https://gitlab.com/api/v4/projects/owner%2Fname/releases"
    );
}

#[test]
fn github_assets_are_addressed_by_number() {
    assert_eq!(
        get_github_asset_api_url("VSCodium", "vscodium", 142),
        "https://api.github.com/repos/VSCodium/vscodium/releases/assets/142"
    );
    assert_eq!(
        get_github_asset_api_url("o", "n", -1),
        "https://api.github.com/repos/o/n/releases/assets/-1"
    );
}

#[test]
fn platform_headers() {
    assert_eq!(
        get_platform_headers(&GitWebsite::GitHub),
        vec!["X-GitHub-Api-Version: 2022-11-28"]
    );
    assert!(get_platform_headers(&GitWebsite::Gitea).is_empty());
    assert!(get_platform_headers(&GitWebsite::GitLab).is_empty());
}

#[test]
fn page_sizes() {
    assert_eq!(page_size(&GitWebsite::GitHub), 100);
    assert_eq!(page_size(&GitWebsite::GitLab), 100);
    assert_eq!(page_size(&GitWebsite::Gitea), 50);
    assert_eq!(page_size_param(&GitWebsite::GitHub), "per_page");
    assert_eq!(page_size_param(&GitWebsite::GitLab), "per_page");
    assert_eq!(page_size_param(&GitWebsite::Gitea), "limit");
}

#[test]
fn page_addresses() {
    assert_eq!(
        get_page_url("https://host/releases", &GitWebsite::GitHub, 1),
        "https://host/releases?per_page=100&page=1"
    );
    assert_eq!(
        get_page_url("https://host/releases", &GitWebsite::Gitea, 12),
        "https://host/releases?limit=50&page=12"
    );
    assert_eq!(
        get_page_url("https://host/releases?x=y", &GitWebsite::GitLab, 2),
        "https://host/releases?x=y&per_page=100&page=2"
    );
}

#[test]
fn pages_have_addresses_of_their_own() {
    let mut urls: Vec<String> = Vec::new();
    for page in 1..=30u32 {
        urls.push(get_page_url("https://host/releases", &GitWebsite::Gitea, page));
    }
    urls.sort();
    urls.dedup();
    assert_eq!(urls.len(), 30);
}
