use gitweb_release_downloader::bulk::{
    begin_bulk, find_matching_releases, flagged_releases, plan_bulk, plan_jobs_for,
    push_release_jobs, tag_flags, BulkAction, BulkDownload, DownloadJob, PAUSE_MILLIS,
};
use gitweb_release_downloader::models::{Asset, Release};
use gitweb_release_downloader::pattern::Pattern;
use gitweb_release_downloader::repository::{GitWebsite, Repository};

fn made(tag: &str, prerelease: bool, names: &[&str]) -> Release {
    let mut assets: Vec<Asset> = Vec::new();
    for name in names {
        assets.push(Asset {
            name: name.to_string(),
            id: 0,
            browser_download_url: format!("https://host/{}/{}", tag, name),
        });
    }
    Release { tag_name: tag.to_string(), prerelease, assets }
}

fn several() -> Vec<Release> {
    vec![
        made("v2-rc", true, &["a.tar", "b.zip"]),
        made("v1.1", false, &["a.tar", "b.zip"]),
        made("v1.0", false, &["b.zip"]),
        made("v1.0", false, &["a.tar", "aa.tar"]),
    ]
}

fn gitea() -> Repository {
    Repository {
        passed_string: "host/o/n".to_string(),
        website: GitWebsite::Gitea,
        origin: "host".to_string(),
        sub_path: "/".to_string(),
        owner: "o".to_string(),
        name: "n".to_string(),
    }
}

fn regex(source: &str) -> Pattern {
    Pattern::compile(source).unwrap()
}

fn job(release: usize, tag: &str, name: &str) -> DownloadJob {
    DownloadJob {
        release,
        tag_name: tag.to_string(),
        asset_name: name.to_string(),
        url: format!("https://host/{}/{}", tag, name),
    }
}

fn take(bulk: &mut BulkDownload, exists: bool) -> BulkAction {
    let action = bulk.on_exists(exists);
    if action == BulkAction::Download {
        bulk.on_downloaded();
    }
    action
}

#[test]
fn releases_are_filtered_by_tag_and_kind() {
    let releases = several();
    assert_eq!(
        find_matching_releases(&releases, false, &regex("^v1\\.")),
        vec![&releases[1], &releases[2], &releases[3]]
    );
    assert_eq!(
        find_matching_releases(&releases, true, &regex("^v2")),
        vec![&releases[0]]
    );
    assert!(find_matching_releases(&releases, false, &regex("^v2")).is_empty());
    assert_eq!(find_matching_releases(&releases, true, &regex(".*")).len(), 4);
}

#[test]
fn flagged_releases_must_be_allowed() {
    let releases = several();
    assert_eq!(tag_flags(&releases, &regex("1\\.0")), vec![false, false, true, true]);
    let flags = [true, false, true, false];
    assert_eq!(flagged_releases(&releases, false, &flags), vec![&releases[2]]);
    assert_eq!(
        flagged_releases(&releases, true, &flags),
        vec![&releases[0], &releases[2]]
    );
}

#[test]
fn every_matching_asset_has_its_job() {
    assert_eq!(
        plan_bulk(&several(), &gitea(), false, &regex("v1"), &regex("tar")),
        Ok(vec![
            job(0, "v1.1", "a.tar"),
            job(2, "v1.0", "a.tar"),
            job(2, "v1.0", "aa.tar"),
        ])
    );
    assert_eq!(
        plan_bulk(&several(), &gitea(), true, &regex(".*"), &regex(".*")).unwrap().len(),
        7
    );
}

#[test]
fn jobs_of_one_release_are_appended() {
    let releases = several();
    let mut jobs = vec![job(0, "x", "y")];
    push_release_jobs(
        &mut jobs,
        &gitea(),
        4,
        &releases[1],
        &vec![&releases[1].assets[1]],
    );
    assert_eq!(jobs, vec![job(0, "x", "y"), job(4, "v1.1", "b.zip")]);
}

#[test]
fn jobs_of_given_assets() {
    let releases = several();
    let planned = plan_jobs_for(
        &gitea(),
        &vec![&releases[1], &releases[2]],
        &vec![vec![&releases[1].assets[0]], vec![&releases[2].assets[0]]],
    );
    assert_eq!(planned, vec![job(0, "v1.1", "a.tar"), job(1, "v1.0", "b.zip")]);
}

#[test]
fn no_matching_release_is_told() {
    assert_eq!(
        plan_bulk(&several(), &gitea(), false, &regex("^v9"), &regex(".*")),
        Err("No releases matched the given filters".to_string())
    );
    assert_eq!(
        begin_bulk(&several(), &gitea(), false, &regex("^v9"), &regex(".*"), false).err(),
        Some("No releases matched the given filters".to_string())
    );
}

#[test]
fn a_file_counts_once_it_is_there() {
    assert_eq!(PAUSE_MILLIS, 200);
    let mut bulk = BulkDownload::begin(vec![job(0, "a", "x"), job(0, "a", "y")], false);
    assert_eq!(bulk.on_exists(false), BulkAction::Download);
    assert_eq!(bulk.current(), Some(&job(0, "a", "x")));
    assert_eq!(bulk.summary(), Err("No assets were downloaded".to_string()));
    bulk.on_downloaded();
    assert_eq!(bulk.current(), Some(&job(0, "a", "y")));
    assert_eq!(
        bulk.summary(),
        Ok("Downloaded 1 asset(s) across 1 release(s)".to_string())
    );
}

#[test]
fn files_go_into_directories_of_their_tags() {
    assert_eq!(job(0, "v1.0", "a.tar").path_steps(), vec!["v1.0", "a.tar"]);
}

#[test]
fn existing_files_are_skipped() {
    let mut bulk =
        begin_bulk(&several(), &gitea(), false, &regex("v1"), &regex(".*"), false).unwrap();
    assert_eq!(bulk.current(), Some(&job(0, "v1.1", "a.tar")));
    assert_eq!(take(&mut bulk, true), BulkAction::Skip);
    assert_eq!(bulk.current(), Some(&job(0, "v1.1", "b.zip")));
    assert_eq!(take(&mut bulk, false), BulkAction::Download);
    assert_eq!(bulk.current(), Some(&job(1, "v1.0", "b.zip")));
    assert_eq!(take(&mut bulk, true), BulkAction::Skip);
    assert_eq!(take(&mut bulk, false), BulkAction::Download);
    assert_eq!(take(&mut bulk, false), BulkAction::Download);
    assert_eq!(bulk.current(), None);
    assert_eq!(
        bulk.summary(),
        Ok("Downloaded 3 asset(s) across 2 release(s)".to_string())
    );
}

#[test]
fn second_run_downloads_nothing() {
    let mut bulk =
        begin_bulk(&several(), &gitea(), true, &regex(".*"), &regex(".*"), false).unwrap();
    while bulk.current().is_some() {
        assert_eq!(take(&mut bulk, true), BulkAction::Skip);
    }
    assert_eq!(bulk.summary(), Err("No assets were downloaded".to_string()));
}

#[test]
fn overwriting_downloads_everything() {
    let mut bulk =
        begin_bulk(&several(), &gitea(), true, &regex(".*"), &regex(".*"), true).unwrap();
    while bulk.current().is_some() {
        assert_eq!(take(&mut bulk, true), BulkAction::Download);
    }
    assert_eq!(
        bulk.summary(),
        Ok("Downloaded 7 asset(s) across 4 release(s)".to_string())
    );
}

#[test]
fn matching_releases_without_matching_assets() {
    let bulk =
        begin_bulk(&several(), &gitea(), true, &regex(".*"), &regex("exe$"), false).unwrap();
    assert_eq!(bulk.current(), None);
    assert_eq!(bulk.summary(), Err("No assets were downloaded".to_string()));
}

#[test]
fn releases_with_downloads_are_counted_once() {
    let mut bulk = BulkDownload::begin(
        vec![job(0, "a", "x"), job(0, "a", "y"), job(3, "b", "x"), job(3, "b", "y")],
        false,
    );
    take(&mut bulk, false);
    take(&mut bulk, false);
    take(&mut bulk, true);
    take(&mut bulk, true);
    assert_eq!(
        bulk.summary(),
        Ok("Downloaded 2 asset(s) across 1 release(s)".to_string())
    );
}
