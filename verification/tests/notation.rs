use gitweb_release_downloader::notation::{guess_website, parse_repository, RepositoryError};
use gitweb_release_downloader::repository::{get_releases_api_url, GitWebsite, Repository};

fn expected(
    passed: &str,
    website: GitWebsite,
    origin: &str,
    sub_path: &str,
    owner: &str,
    name: &str,
) -> Result<Repository, RepositoryError> {
    Ok(Repository {
        passed_string: passed.to_string(),
        website,
        origin: origin.to_string(),
        sub_path: sub_path.to_string(),
        owner: owner.to_string(),
        name: name.to_string(),
    })
}

#[test]
fn known_hosts_need_no_website_type() {
    assert_eq!(
        parse_repository("github.com/VSCodium/vscodium", None),
        expected(
            "github.com/VSCodium/vscodium",
            GitWebsite::GitHub,
            "github.com",
            "/",
            "VSCodium",
            "vscodium"
        )
    );
    assert_eq!(
        parse_repository("https://gitlab.com/a/b", None),
        expected("https://gitlab.com/a/b", GitWebsite::GitLab, "gitlab.com", "/", "a", "b")
    );
}

#[test]
fn other_hosts_need_a_website_type() {
    assert_eq!(
        parse_repository("codeberg.org/forgejo/forgejo", None),
        Err(RepositoryError::UnknownWebsite)
    );
    assert_eq!(
        parse_repository("codeberg.org/forgejo/forgejo", Some(GitWebsite::Gitea)),
        expected(
            "codeberg.org/forgejo/forgejo",
            GitWebsite::Gitea,
            "codeberg.org",
            "/",
            "forgejo",
            "forgejo"
        )
    );
}

#[test]
fn a_given_website_type_is_taken() {
    assert_eq!(
        parse_repository("github.com/a/b", Some(GitWebsite::Gitea)),
        expected("github.com/a/b", GitWebsite::Gitea, "github.com", "/", "a", "b")
    );
}

#[test]
fn the_root_may_be_a_sub_path() {
    let parsed = parse_repository("http://host/some/git/a/b", Some(GitWebsite::Gitea));
    assert_eq!(
        parsed,
        expected("http://host/some/git/a/b", GitWebsite::Gitea, "host", "/some/git/", "a", "b")
    );
    assert_eq!(
        get_releases_api_url(&parsed.unwrap()),
        "http://host/some/git/api/v1/repos/a/b/releases"
    );
}

#[test]
fn texts_that_are_no_repository() {
    for text in ["", "/", "host", "host/", "host/name", "host//name", "/a/b", "host/a/", "http://"] {
        assert_eq!(
            parse_repository(text, Some(GitWebsite::GitHub)),
            Err(RepositoryError::Malformed),
            "{}",
            text
        );
        assert_eq!(parse_repository(text, None), Err(RepositoryError::Malformed), "{}", text);
    }
}

#[test]
fn website_guesses() {
    assert_eq!(guess_website("github.com"), Some(GitWebsite::GitHub));
    assert_eq!(guess_website("gitlab.com"), Some(GitWebsite::GitLab));
    assert_eq!(guess_website("codeberg.org"), None);
    assert_eq!(guess_website("www.github.com"), None);
}
