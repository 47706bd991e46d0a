use gitweb_release_downloader::cache::CachedReleases;
use gitweb_release_downloader::fetch::{Fetch, FetchPhase};
use gitweb_release_downloader::models::Release;
use gitweb_release_downloader::repository::{GitWebsite, Repository};

fn version(tag: &str) -> Release {
    Release { tag_name: tag.to_string(), prerelease: false, assets: vec![] }
}

fn hub() -> Repository {
    Repository {
        passed_string: "github.com/o/n".to_string(),
        website: GitWebsite::GitHub,
        origin: "github.com".to_string(),
        sub_path: "/".to_string(),
        owner: "o".to_string(),
        name: "n".to_string(),
    }
}

fn kept(cached_at: u64) -> CachedReleases {
    CachedReleases { cached_at, releases: vec![version("kept")] }
}

#[test]
fn fresh_listing_answers() {
    let mut fetch = Fetch::begin(&hub(), false);
    assert_eq!(fetch.phase(), FetchPhase::LoadCache);
    fetch.on_cache(Some(kept(100)), Some(3699));
    assert_eq!(fetch.phase(), FetchPhase::Answered);
    assert_eq!(fetch.entry(Some(3699)), None);
    assert_eq!(fetch.finish(), vec![version("kept")]);
}

#[test]
fn stale_or_missing_listing_is_fetched() {
    for (stored, now) in [(Some(kept(100)), Some(3700)), (None, Some(0)), (Some(kept(0)), None)] {
        let mut fetch = Fetch::begin(&hub(), false);
        fetch.on_cache(stored, now);
        assert_eq!(fetch.phase(), FetchPhase::RequestPage);
        assert_eq!(
            fetch.next_url(),
            "https://api.github.com/repos/o/n/releases?per_page=100&page=1"
        );
    }
}

#[test]
fn forced_refresh_asks_the_website() {
    let mut fetch = Fetch::begin(&hub(), true);
    assert_eq!(fetch.phase(), FetchPhase::RequestPage);
    assert_eq!(fetch.page(), 1);
    fetch.on_page(vec![version("b")]);
    assert_eq!(fetch.phase(), FetchPhase::RequestPage);
    assert_eq!(
        fetch.next_url(),
        "https://api.github.com/repos/o/n/releases?per_page=100&page=2"
    );
    fetch.on_page(vec![version("a")]);
    assert_eq!(fetch.entry(Some(7)), None);
    fetch.on_page(vec![]);
    assert_eq!(fetch.phase(), FetchPhase::Fetched);
    assert_eq!(fetch.page(), 3);
    assert_eq!(
        fetch.entry(Some(7)),
        Some(CachedReleases { cached_at: 7, releases: vec![version("b"), version("a")] })
    );
    assert_eq!(fetch.entry(None).unwrap().cached_at, 0);
    assert_eq!(fetch.finish(), vec![version("b"), version("a")]);
}

#[test]
fn stored_listing_answers_the_next_run() {
    let mut first = Fetch::begin(&hub(), false);
    first.on_cache(None, Some(50));
    first.on_page(vec![version("b"), version("a")]);
    first.on_page(vec![]);
    let entry = first.entry(Some(50)).unwrap();
    let mut second = Fetch::begin(&hub(), false);
    second.on_cache(Some(entry), Some(50 + 3599));
    assert_eq!(second.phase(), FetchPhase::Answered);
    assert_eq!(second.finish(), first.finish());
}

#[test]
fn nothing_listed_is_stored_too() {
    let mut fetch = Fetch::begin(&hub(), true);
    fetch.on_page(vec![]);
    assert_eq!(fetch.entry(Some(1)), Some(CachedReleases { cached_at: 1, releases: vec![] }));
}
