use gitweb_release_downloader::models::{Asset, Release};
use gitweb_release_downloader::pattern::{accept_compiled, Pattern};
use gitweb_release_downloader::selection::{
    asset_flags, asset_not_found, asset_or_told, find_asset, find_assets_in_release, find_release,
    first_flagged_asset, flagged_assets, get_asset, list_release_tags, names_of, query_assets,
    query_assets_compiled, release_not_found, AssetQueryError,
};

fn asset(name: &str, id: i64) -> Asset {
    Asset {
        name: name.to_string(),
        id,
        browser_download_url: format!("https://host/{}", name),
    }
}

fn release(tag: &str, prerelease: bool, names: &[&str]) -> Release {
    let mut assets: Vec<Asset> = Vec::new();
    for (i, name) in names.iter().enumerate() {
        assets.push(asset(name, i as i64));
    }
    Release { tag_name: tag.to_string(), prerelease, assets }
}

fn sample() -> Vec<Release> {
    vec![
        release("v3-beta", true, &["app.deb", "app.rpm"]),
        release("v2", false, &["app.rpm", "app-amd64.deb", "app-arm64.deb"]),
        release("v1", false, &["app.deb"]),
        release("v2", false, &["other.deb"]),
    ]
}

fn pattern(source: &str) -> Pattern {
    Pattern::compile(source).unwrap()
}

#[test]
fn latest_release_is_no_prerelease_by_default() {
    let releases = sample();
    assert_eq!(find_release(&releases, None, false), Some(&releases[1]));
    assert_eq!(find_release(&releases, None, true), Some(&releases[0]));
}

#[test]
fn tag_picks_the_first_release_that_has_it() {
    let releases = sample();
    assert_eq!(find_release(&releases, Some("v1"), false), Some(&releases[2]));
    assert_eq!(find_release(&releases, Some("v2"), false), Some(&releases[1]));
    assert_eq!(find_release(&releases, Some("v2"), false).unwrap().assets.len(), 3);
    assert_eq!(find_release(&releases, Some("v"), true), None);
    assert_eq!(find_release(&releases, Some("V1"), true), None);
}

#[test]
fn tagged_prerelease_is_found_only_if_allowed() {
    let releases = sample();
    assert_eq!(find_release(&releases, Some("v3-beta"), false), None);
    assert_eq!(find_release(&releases, Some("v3-beta"), true), Some(&releases[0]));
}

#[test]
fn nothing_is_found_in_nothing() {
    assert_eq!(find_release(&[], None, true), None);
    let only_pre = vec![release("a", true, &[])];
    assert_eq!(find_release(&only_pre, None, false), None);
}

#[test]
fn first_matching_asset() {
    let releases = sample();
    let deb = pattern("\\.deb$");
    assert_eq!(find_asset(&releases, None, false, &deb), Some(&releases[1].assets[1]));
    assert_eq!(find_asset(&releases, None, true, &deb), Some(&releases[0].assets[0]));
    assert_eq!(find_asset(&releases, Some("v1"), false, &pattern("rpm")), None);
    assert_eq!(find_asset(&releases, Some("v9"), false, &pattern(".*")), None);
}

#[test]
fn all_matching_assets_in_order() {
    let releases = sample();
    let found = find_assets_in_release(&releases[1], &pattern("\\.deb$"));
    assert_eq!(names_of(&found), vec!["app-amd64.deb", "app-arm64.deb"]);
    assert!(find_assets_in_release(&releases[1], &pattern("exe")).is_empty());
    assert_eq!(find_assets_in_release(&releases[1], &pattern(".*")).len(), 3);
}

#[test]
fn flags_tell_which_names_match() {
    let releases = sample();
    assert_eq!(asset_flags(&releases[1], &pattern("64")), vec![false, true, true]);
    let flagged = flagged_assets(&releases[1], &[true, false, true]);
    assert_eq!(flagged, vec![&releases[1].assets[0], &releases[1].assets[2]]);
    assert_eq!(
        first_flagged_asset(&releases[1], &[false, false, true]),
        Some(&releases[1].assets[2])
    );
    assert_eq!(first_flagged_asset(&releases[1], &[false, false, false]), None);
}

#[test]
fn downloaded_asset_is_the_first_listed() {
    let releases = sample();
    for source in ["\\.deb$", "app", "arm", "nothing"] {
        let p = pattern(source);
        let listed = find_assets_in_release(&releases[1], &p);
        let found = find_asset(&releases, None, false, &p);
        assert_eq!(found, listed.first().copied());
    }
}

#[test]
fn tags_are_listed_up_to_a_count() {
    let releases = sample();
    assert_eq!(list_release_tags(&releases, false, 1), vec!["v2"]);
    assert_eq!(list_release_tags(&releases, true, 1), vec!["v3-beta"]);
    assert_eq!(list_release_tags(&releases, false, 2), vec!["v2", "v1"]);
    assert_eq!(list_release_tags(&releases, false, 5), vec!["v2", "v1", "v2"]);
    assert_eq!(list_release_tags(&releases, true, 5), vec!["v3-beta", "v2", "v1", "v2"]);
    assert!(list_release_tags(&releases, true, 0).is_empty());
    assert!(list_release_tags(&[], true, 3).is_empty());
}

#[test]
fn one_listed_tag_is_the_latest_release() {
    let releases = sample();
    for allow in [false, true] {
        let tags = list_release_tags(&releases, allow, 1);
        assert_eq!(tags[0], find_release(&releases, None, allow).unwrap().tag_name);
    }
}

#[test]
fn longer_listings_extend_shorter_ones() {
    let releases = sample();
    let all = list_release_tags(&releases, true, 10);
    for count in 0..=4usize {
        assert_eq!(list_release_tags(&releases, true, count), all[..count].to_vec());
    }
}

#[test]
fn asset_query_lists_names() {
    let releases = sample();
    assert_eq!(
        query_assets(&releases, None, "\\.deb$").unwrap(),
        vec!["app-amd64.deb", "app-arm64.deb"]
    );
    assert_eq!(
        query_assets(&releases, Some("v1"), ".*").unwrap(),
        vec!["app.deb"]
    );
}

#[test]
fn asset_query_with_tag_takes_prereleases() {
    let releases = sample();
    assert_eq!(
        query_assets(&releases, Some("v3-beta"), ".*").unwrap(),
        vec!["app.deb", "app.rpm"]
    );
}

#[test]
fn asset_query_tells_what_is_missing() {
    let releases = sample();
    match query_assets(&releases, Some("v9"), ".*") {
        Err(AssetQueryError::ReleaseNotFound(m)) => {
            assert_eq!(m, "Could not find release with tag \"v9\"")
        }
        _ => panic!("a release was found"),
    }
    match query_assets(&[], None, ".*") {
        Err(AssetQueryError::ReleaseNotFound(m)) => assert_eq!(m, "Could not find latest tag"),
        _ => panic!("a release was found"),
    }
    match query_assets(&releases, None, "(") {
        Err(AssetQueryError::InvalidPattern(e)) => assert_eq!(e.pattern, "("),
        _ => panic!("the pattern compiled"),
    }
}

#[test]
fn missing_release_is_told_before_an_invalid_pattern() {
    assert!(matches!(
        query_assets(&sample(), Some("v9"), "("),
        Err(AssetQueryError::ReleaseNotFound(_))
    ));
    let rejected = accept_compiled("(", Err(regex::Regex::new("(").unwrap_err()));
    assert!(matches!(
        query_assets_compiled(&sample(), None, rejected),
        Err(AssetQueryError::InvalidPattern(_))
    ));
}

#[test]
fn missing_release_texts() {
    assert_eq!(release_not_found(Some("t")), "Could not find release with tag \"t\"");
    assert_eq!(release_not_found(None), "Could not find latest tag");
}

#[test]
fn missing_asset_is_told() {
    assert_eq!(
        asset_not_found("\\.deb$", Some("v1"), "github.com/o/n"),
        "Could not find Pattern \"\\.deb$\" in tag \"v1\" in releases of repository \"github.com/o/n\""
    );
    assert_eq!(
        get_asset(&sample(), None, false, &pattern("exe"), "host/o/n").unwrap_err(),
        "Could not find Pattern \"exe\" in latest tag in releases of repository \"host/o/n\""
    );
    let given = asset("app", 1);
    assert_eq!(asset_or_told(Some(&given), "x", None, "r"), Ok(&given));
    assert_eq!(
        asset_or_told(None, "x", None, "r"),
        Err("Could not find Pattern \"x\" in latest tag in releases of repository \"r\"".to_string())
    );
    let releases = sample();
    assert_eq!(
        get_asset(&releases, Some("v1"), false, &pattern("deb"), "host/o/n"),
        Ok(&releases[2].assets[0])
    );
}
