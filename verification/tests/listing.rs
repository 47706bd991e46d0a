use gitweb_release_downloader::listing::{listing_headers, Listing};
use gitweb_release_downloader::models::Release;
use gitweb_release_downloader::repository::{GitWebsite, Repository};

fn tagged(tag: &str) -> Release {
    Release { tag_name: tag.to_string(), prerelease: false, assets: vec![] }
}

fn forge() -> Repository {
    Repository {
        passed_string: "codeberg.org/o/n".to_string(),
        website: GitWebsite::Gitea,
        origin: "codeberg.org".to_string(),
        sub_path: "/".to_string(),
        owner: "o".to_string(),
        name: "n".to_string(),
    }
}

#[test]
fn pages_are_fetched_until_one_is_empty() {
    let mut listing = Listing::begin(&forge());
    assert_eq!(
        listing.next_url(),
        "https://codeberg.org/api/v1/repos/o/n/releases?limit=50&page=1"
    );
    assert!(listing.accept(vec![tagged("c"), tagged("b")]));
    assert_eq!(listing.page(), 2);
    assert_eq!(
        listing.next_url(),
        "https://codeberg.org/api/v1/repos/o/n/releases?limit=50&page=2"
    );
    assert!(listing.accept(vec![tagged("a")]));
    assert_eq!(listing.page(), 3);
    assert!(!listing.accept(vec![]));
    assert_eq!(listing.page(), 3);
    assert_eq!(listing.finish(), vec![tagged("c"), tagged("b"), tagged("a")]);
}

#[test]
fn empty_listing() {
    let mut listing = Listing::begin(&forge());
    assert!(!listing.accept(vec![]));
    assert!(listing.finish().is_empty());
}

#[test]
fn listing_headers_put_the_platform_first() {
    let own = vec!["Authorization: Bearer x".to_string()];
    assert_eq!(
        listing_headers(&GitWebsite::GitHub, &own),
        vec!["X-GitHub-Api-Version: 2022-11-28", "Authorization: Bearer x"]
    );
    assert_eq!(listing_headers(&GitWebsite::Gitea, &own), own);
}
