use gitweb_release_downloader::download::{
    download_headers, download_url, plan_download, plan_single, DownloadPlan,
};
use gitweb_release_downloader::models::{Asset, Release};
use gitweb_release_downloader::pattern::Pattern;
use gitweb_release_downloader::repository::{GitWebsite, Repository};

fn on(website: GitWebsite) -> Repository {
    Repository {
        passed_string: "host/o/n".to_string(),
        website,
        origin: "host".to_string(),
        sub_path: "/".to_string(),
        owner: "o".to_string(),
        name: "n".to_string(),
    }
}

fn file() -> Asset {
    Asset {
        name: "app.deb".to_string(),
        id: 42,
        browser_download_url: "https://host/files/app.deb".to_string(),
    }
}

#[test]
fn github_is_asked_for_the_file_itself() {
    assert_eq!(
        plan_download(&on(GitWebsite::GitHub), &file(), &["A: 1".to_string()]),
        DownloadPlan {
            url: "https://api.github.com/repos/o/n/releases/assets/42".to_string(),
            headers: vec![
                "A: 1".to_string(),
                "Accept: application/octet-stream".to_string(),
                "X-GitHub-Api-Version: 2022-11-28".to_string(),
            ],
            file_name: "app.deb".to_string(),
        }
    );
}

#[test]
fn other_websites_give_the_address() {
    for website in [GitWebsite::Gitea, GitWebsite::GitLab] {
        assert_eq!(download_url(&on(website), &file()), "https://host/files/app.deb");
        assert_eq!(download_headers(&website, &["A: 1".to_string()]), vec!["A: 1"]);
    }
}

#[test]
fn single_download_is_planned_or_told_missing() {
    let releases = vec![Release {
        tag_name: "v1".to_string(),
        prerelease: false,
        assets: vec![file()],
    }];
    let repository = on(GitWebsite::Gitea);
    let deb = Pattern::compile("deb").unwrap();
    let rpm = Pattern::compile("rpm").unwrap();
    assert_eq!(
        plan_single(&releases, &repository, None, false, &deb, &[]),
        Ok(DownloadPlan {
            url: "https://host/files/app.deb".to_string(),
            headers: vec![],
            file_name: "app.deb".to_string(),
        })
    );
    assert_eq!(
        plan_single(&releases, &repository, Some("v1"), false, &rpm, &[]),
        Err("Could not find Pattern \"rpm\" in tag \"v1\" in releases of repository \"host/o/n\""
            .to_string())
    );
}
