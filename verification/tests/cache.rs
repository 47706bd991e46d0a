use gitweb_release_downloader::cache::{
    get_cache_dir, get_cache_path, read_cache, write_cache, CachedReleases,
    PathSteps, CACHE_TTL_SECS,
};
use gitweb_release_downloader::models::{Asset, Release};
use gitweb_release_downloader::repository::{GitWebsite, Repository};

fn steps(base: &str, steps: &[&str]) -> PathSteps {
    PathSteps {
        base: base.to_string(),
        steps: steps.iter().map(|s| s.to_string()).collect(),
    }
}

fn stored(cached_at: u64) -> CachedReleases {
    CachedReleases { cached_at, releases: listing() }
}

fn listing() -> Vec<Release> {
    vec![Release {
        tag_name: "v1".to_string(),
        prerelease: true,
        assets: vec![Asset {
            name: "a".to_string(),
            id: 7,
            browser_download_url: "https://host/a".to_string(),
        }],
    }]
}

fn project(origin: &str, owner: &str, name: &str) -> Repository {
    Repository {
        passed_string: format!("{}/{}/{}", origin, owner, name),
        website: GitWebsite::GitHub,
        origin: origin.to_string(),
        sub_path: "/".to_string(),
        owner: owner.to_string(),
        name: name.to_string(),
    }
}

#[test]
fn cache_directory_follows_the_environment() {
    assert_eq!(get_cache_dir(Some("/xdg"), Some("/home/u")), steps("/xdg", &["grd"]));
    assert_eq!(get_cache_dir(Some(""), None), steps("", &["grd"]));
    assert_eq!(get_cache_dir(None, Some("/home/u")), steps("/home/u", &[".cache", "grd"]));
    assert_eq!(get_cache_dir(None, None), steps("~", &[".cache", "grd"]));
}

#[test]
fn cache_path_names_host_owner_and_repository() {
    let r = project("github.com", "VSCodium", "vscodium");
    assert_eq!(
        get_cache_path(&r, Some("/xdg"), None),
        steps("/xdg", &["grd", "github.com", "VSCodium", "vscodium.json"])
    );
    assert_eq!(
        get_cache_path(&r, None, None),
        steps("~", &[".cache", "grd", "github.com", "VSCodium", "vscodium.json"])
    );
}

#[test]
fn cache_paths_differ() {
    let a = get_cache_path(&project("h", "o", "n"), None, None);
    let b = get_cache_path(&project("h", "o", "n.json"), None, None);
    let c = get_cache_path(&project("h", "n", "o"), None, None);
    assert_ne!(a, b);
    assert_ne!(a, c);
}

#[test]
fn listing_is_used_for_an_hour() {
    assert_eq!(CACHE_TTL_SECS, 3600);
    assert_eq!(read_cache(Some(stored(1000)), Some(1000)), Some(listing()));
    assert_eq!(read_cache(Some(stored(1000)), Some(4599)), Some(listing()));
    assert_eq!(read_cache(Some(stored(1000)), Some(4600)), None);
    assert_eq!(read_cache(Some(stored(0)), Some(u64::MAX)), None);
}

#[test]
fn clock_set_back_keeps_the_listing() {
    assert_eq!(read_cache(Some(stored(u64::MAX)), Some(0)), Some(listing()));
}

#[test]
fn no_file_or_no_clock_means_no_listing() {
    assert_eq!(read_cache(None, Some(0)), None);
    assert_eq!(read_cache(Some(stored(0)), None), None);
}

#[test]
fn what_is_written_is_read_back() {
    let entry = write_cache(Some(500), &listing());
    assert_eq!(entry, stored(500));
    assert_eq!(read_cache(Some(entry), Some(500 + 3599)), Some(listing()));
    assert_eq!(read_cache(Some(write_cache(Some(500), &listing())), Some(500 + 3600)), None);
    assert_eq!(write_cache(None, &listing()).cached_at, 0);
}
