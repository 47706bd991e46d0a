use gitweb_release_downloader::models::{copy_releases, Asset, Release};

#[test]
fn copies_say_the_same() {
    let releases = vec![
        Release {
            tag_name: "v2".to_string(),
            prerelease: true,
            assets: vec![Asset {
                name: "n".to_string(),
                id: -3,
                browser_download_url: "u".to_string(),
            }],
        },
        Release { tag_name: "v1".to_string(), prerelease: false, assets: vec![] },
    ];
    assert_eq!(copy_releases(&releases), releases);
    assert_eq!(releases[0].clone(), releases[0]);
}
