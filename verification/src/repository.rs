//! Repositories, how they are written, and the addresses of their releases.

use crate::text;
use vstd::prelude::*;

verus! {

/// The kinds of websites whose interface is known. Gitea stands for Forgejo too.
#[derive(Debug, Clone, Copy, PartialEq, Eq, Structural)]
pub enum GitWebsite {
    GitHub,
    Gitea,
    GitLab,
}

/// A repository on a website.
#[derive(Debug, PartialEq, Eq)]
pub struct Repository {
    /// The repository as the user wrote it.
    pub passed_string: String,
    pub website: GitWebsite,
    /// The host.
    pub origin: String,
    /// The path from the host to the website's root, from slash to slash.
    pub sub_path: String,
    pub owner: String,
    pub name: String,
}

/// The scheme of the requests for a repository that is written in a given way.
pub open spec fn scheme_text(passed_string: Seq<char>) -> Seq<char> {
    if text::begins_with(passed_string, "http://"@) {
        "http"@
    } else {
        "https"@
    }
}

/// The scheme of the requests: plain HTTP only where the user wrote it, else HTTPS.
pub fn get_scheme_from_repository_string(url: &str) -> (scheme: &'static str)
    ensures
        scheme@ == scheme_text(url@),
{
    if text::starts_with(url, "http://") {
        "http"
    } else {
        "https"
    }
}

/// Where the releases of a repository are listed.
pub open spec fn releases_api_url_text(repository: Repository) -> Seq<char> {
    let scheme = scheme_text(repository.passed_string@);
    let origin = repository.origin@;
    let sub_path = repository.sub_path@;
    let owner = repository.owner@;
    let name = repository.name@;
    match repository.website {
        GitWebsite::GitHub => scheme + "://api.github.com/repos/"@ + owner + "/"@ + name
            + "/releases"@,
        GitWebsite::Gitea => scheme + "://"@ + origin + sub_path + "api/v1/repos/"@ + owner + "/"@
            + name + "/releases"@,
        GitWebsite::GitLab => scheme + "://"@ + origin + sub_path + "api/v4/projects/"@ + owner
            + "%2F"@ + name + "/releases"@,
    }
}

/// Where the releases of a repository are listed.
pub fn get_releases_api_url(repository: &Repository) -> (url: String)
    ensures
        url@ == releases_api_url_text(*repository),
        ({
            let scheme = if exists|rest: Seq<char>|
                repository.passed_string@ == #[trigger] ("http://"@ + rest) {
                "http"@
            } else {
                "https"@
            };
            let origin = repository.origin@;
            let sub_path = repository.sub_path@;
            let owner = repository.owner@;
            let name = repository.name@;
            match repository.website {
                GitWebsite::GitHub => url@ == scheme + "://api.github.com/repos/"@ + owner + "/"@
                    + name + "/releases"@,
                GitWebsite::Gitea => url@ == scheme + "://"@ + origin + sub_path
                    + "api/v1/repos/"@ + owner + "/"@ + name + "/releases"@,
                GitWebsite::GitLab => url@ == scheme + "://"@ + origin + sub_path
                    + "api/v4/projects/"@ + owner + "%2F"@ + name + "/releases"@,
            }
        }),
{
    proof {
        text::lemma_begins_with_is_prefix(repository.passed_string@, "http://"@);
    }
    let scheme = get_scheme_from_repository_string(repository.passed_string.as_str());
    let mut url = scheme.to_owned();
    match repository.website {
        GitWebsite::GitHub => {
            url.append("://api.github.com/repos/");
            url.append(repository.owner.as_str());
            url.append("/");
        },
        GitWebsite::Gitea => {
            url.append("://");
            url.append(repository.origin.as_str());
            url.append(repository.sub_path.as_str());
            url.append("api/v1/repos/");
            url.append(repository.owner.as_str());
            url.append("/");
        },
        GitWebsite::GitLab => {
            url.append("://");
            url.append(repository.origin.as_str());
            url.append(repository.sub_path.as_str());
            url.append("api/v4/projects/");
            url.append(repository.owner.as_str());
            url.append("%2F");
        },
    }
    url.append(repository.name.as_str());
    url.append("/releases");
    url
}

/// Where GitHub serves an asset by its number.
pub open spec fn github_asset_api_url_text(owner: Seq<char>, repository: Seq<char>, asset_id: int) -> Seq<
    char,
> {
    "https://api.github.com/repos/"@ + owner + "/"@ + repository + "/releases/assets/"@
        + text::signed_decimal(asset_id)
}

/// Where GitHub serves an asset by its number.
pub fn get_github_asset_api_url(owner: &str, repository: &str, asset_id: i64) -> (url: String)
    ensures
        url@ == github_asset_api_url_text(owner@, repository@, asset_id as int),
{
    let mut url = "https://api.github.com/repos/".to_owned();
    url.append(owner);
    url.append("/");
    url.append(repository);
    url.append("/releases/assets/");
    url.append(text::write_signed_decimal(asset_id).as_str());
    url
}

/// The headers that a website asks for in every request for a listing.
pub open spec fn platform_header_texts(website: GitWebsite) -> Seq<Seq<char>> {
    match website {
        GitWebsite::GitHub => seq!["X-GitHub-Api-Version: 2022-11-28"@],
        _ => seq![],
    }
}

/// The headers that a website asks for in every request for a listing.
pub fn get_platform_headers(website: &GitWebsite) -> (headers: Vec<String>)
    ensures
        text::texts(headers@) == platform_header_texts(*website),
{
    let mut headers: Vec<String> = Vec::new();
    match website {
        GitWebsite::GitHub => {
            headers.push("X-GitHub-Api-Version: 2022-11-28".to_owned());
        },
        _ => {},
    }
    assert(text::texts(headers@) == platform_header_texts(*website));
    headers
}

/// How many releases a website is asked for at once.
pub open spec fn page_size_of(website: GitWebsite) -> nat {
    match website {
        GitWebsite::GitHub | GitWebsite::GitLab => 100,
        GitWebsite::Gitea => 50,
    }
}

/// How many releases a website is asked for at once.
pub fn page_size(website: &GitWebsite) -> (size: u64)
    ensures
        size == page_size_of(*website),
{
    match website {
        GitWebsite::GitHub | GitWebsite::GitLab => 100,
        GitWebsite::Gitea => 50,
    }
}

/// The name of the query parameter for the page size.
pub open spec fn page_size_param_text(website: GitWebsite) -> Seq<char> {
    match website {
        GitWebsite::GitHub | GitWebsite::GitLab => "per_page"@,
        GitWebsite::Gitea => "limit"@,
    }
}

/// The name of the query parameter for the page size.
pub fn page_size_param(website: &GitWebsite) -> (param: &'static str)
    ensures
        param@ == page_size_param_text(*website),
{
    match website {
        GitWebsite::GitHub | GitWebsite::GitLab => "per_page",
        GitWebsite::Gitea => "limit",
    }
}

/// Where one page of a listing stands. Pages are counted from one.
pub open spec fn page_url_text(base_url: Seq<char>, website: GitWebsite, page: nat) -> Seq<char> {
    let separator = if base_url.contains('?') {
        "&"@
    } else {
        "?"@
    };
    base_url + separator + page_size_param_text(website) + "="@ + text::decimal(
        page_size_of(website),
    ) + "&page="@ + text::decimal(page)
}

/// Where one page of a listing stands.
pub fn get_page_url(base_url: &str, website: &GitWebsite, page: u32) -> (url: String)
    ensures
        url@ == page_url_text(base_url@, *website, page as nat),
{
    let separator = if text::contains_char(base_url, '?') {
        "&"
    } else {
        "?"
    };
    let mut url = base_url.to_owned();
    url.append(separator);
    url.append(page_size_param(website));
    url.append("=");
    url.append(text::write_decimal(page_size(website)).as_str());
    url.append("&page=");
    url.append(text::write_decimal(page as u64).as_str());
    url
}

/// Different pages of a listing stand at different addresses.
pub proof fn lemma_page_urls_differ(
    base_url: Seq<char>,
    website: GitWebsite,
    left: nat,
    right: nat,
)
    requires
        left != right,
    ensures
        page_url_text(base_url, website, left) != page_url_text(base_url, website, right),
{
    let start = page_url_text(base_url, website, left).take(
        page_url_text(base_url, website, left).len() - text::decimal(left).len(),
    );
    let left_url = page_url_text(base_url, website, left);
    let right_url = page_url_text(base_url, website, right);
    assert(left_url == start + text::decimal(left));
    assert(right_url == start + text::decimal(right));
    if left_url == right_url {
        assert(left_url.skip(start.len() as int) == text::decimal(left));
        assert(right_url.skip(start.len() as int) == text::decimal(right));
        text::lemma_decimal_value(left);
        text::lemma_decimal_value(right);
    }
}

/// A repository is asked over plain HTTP exactly if it is written with `http://` in front.
pub proof fn lemma_scheme_as_written(passed_string: Seq<char>, rest: Seq<char>)
    ensures
        passed_string == "http://"@ + rest ==> scheme_text(passed_string) == "http"@,
        (forall|tail: Seq<char>| passed_string != #[trigger] ("http://"@ + tail)) ==> scheme_text(
            passed_string,
        ) == "https"@,
{
    text::lemma_begins_with_is_prefix(passed_string, "http://"@);
}

/// The listing stands on the host that the repository is on, below the sub path; for
/// GitHub alone it stands on the one host of its interface. Owner and name follow, in this
/// order, escaped into one piece on GitLab.
pub proof fn lemma_listing_is_on_its_host(repository: Repository, scheme: Seq<char>)
    requires
        if exists|rest: Seq<char>| repository.passed_string@ == #[trigger] ("http://"@ + rest) {
            scheme == "http"@
        } else {
            scheme == "https"@
        },
    ensures
        repository.website == GitWebsite::GitHub ==> releases_api_url_text(repository) == scheme
            + "://api.github.com/repos/"@ + repository.owner@ + "/"@ + repository.name@
            + "/releases"@,
        repository.website == GitWebsite::Gitea ==> releases_api_url_text(repository) == scheme
            + "://"@ + repository.origin@ + repository.sub_path@ + "api/v1/repos/"@
            + repository.owner@ + "/"@ + repository.name@ + "/releases"@,
        repository.website == GitWebsite::GitLab ==> releases_api_url_text(repository) == scheme
            + "://"@ + repository.origin@ + repository.sub_path@ + "api/v4/projects/"@
            + repository.owner@ + "%2F"@ + repository.name@ + "/releases"@,
{
    text::lemma_begins_with_is_prefix(repository.passed_string@, "http://"@);
}

/// Where scheme and host end in an address.
proof fn lemma_host_can_be_read_off(
    url: Seq<char>,
    scheme: Seq<char>,
    host: Seq<char>,
    path: Seq<char>,
)
    requires
        scheme == "http"@ || scheme == "https"@,
        url == scheme + "://"@ + host + path,
        !host.contains('/'),
        path.len() > 0,
        path[0] == '/',
    ensures
        url.len() > 7,
        url[4] == 's' <==> scheme == "https"@,
        scheme.len() == 4 || scheme.len() == 5,
        forall|i: int|
            scheme.len() + 3 <= i < scheme.len() + 3 + host.len() ==> #[trigger] url[i] != '/',
        url[(scheme.len() + 3 + host.len()) as int] == '/',
        host == url.subrange(
            (scheme.len() + 3) as int,
            (scheme.len() + 3 + host.len()) as int,
        ),
{
    reveal_strlit("http");
    reveal_strlit("https");
    reveal_strlit("://");
    let start = scheme.len() + 3;
    assert forall|i: int| start <= i < start + host.len() implies #[trigger] url[i] != '/' by {
        assert(url[i] == host[i - start]);
    }
    if scheme == "http"@ {
        assert(url[4] == "://"@[0]);
    } else {
        assert(url[4] == "https"@[4]);
    }
    assert(url[(start + host.len()) as int] == path[0]);
}

/// Repositories on different hosts never have the same listing: the host can be read off
/// the address.
pub proof fn lemma_hosts_have_their_own_listings(left: Repository, right: Repository)
    requires
        left.website != GitWebsite::GitHub,
        right.website != GitWebsite::GitHub,
        !left.origin@.contains('/'),
        !right.origin@.contains('/'),
        left.sub_path@.len() > 0 && left.sub_path@[0] == '/',
        right.sub_path@.len() > 0 && right.sub_path@[0] == '/',
        releases_api_url_text(left) == releases_api_url_text(right),
    ensures
        left.origin@ == right.origin@,
{
    let url = releases_api_url_text(left);
    let left_scheme = scheme_text(left.passed_string@);
    let right_scheme = scheme_text(right.passed_string@);
    let left_start = (left_scheme.len() + 3 + left.origin@.len()) as int;
    let right_start = (right_scheme.len() + 3 + right.origin@.len()) as int;
    let left_path = url.skip(left_start);
    let right_path = url.skip(right_start);
    reveal_strlit("://");
    assert(url == left_scheme + "://"@ + left.origin@ + left_path);
    assert(url == right_scheme + "://"@ + right.origin@ + right_path);
    assert(left_path[0] == left.sub_path@[0]);
    assert(right_path[0] == right.sub_path@[0]);
    lemma_host_can_be_read_off(url, left_scheme, left.origin@, left_path);
    lemma_host_can_be_read_off(url, right_scheme, right.origin@, right_path);
    if left_start < right_start {
        assert(url[left_start] != '/');
    }
    if right_start < left_start {
        assert(url[right_start] != '/');
    }
}

/// An asset on GitHub is addressed by owner, name and number, in this order.
pub proof fn lemma_github_assets_are_numbered(owner: Seq<char>, name: Seq<char>, id: nat)
    ensures
        github_asset_api_url_text(owner, name, id as int) == "https://api.github.com/repos/"@
            + owner + "/"@ + name + "/releases/assets/"@ + text::decimal(id),
        id > 0 ==> github_asset_api_url_text(owner, name, -(id as int))
            == "https://api.github.com/repos/"@ + owner + "/"@ + name + "/releases/assets/"@ + (
        "-"@ + text::decimal(id)),
{
    reveal_strlit("-");
    assert("-"@ == seq!['-']);
}

/// GitHub asks for one header, with the version of its interface; the others ask for none.
pub proof fn lemma_platform_headers(website: GitWebsite)
    ensures
        website == GitWebsite::GitHub ==> platform_header_texts(website).len() == 1
            && platform_header_texts(website)[0] == "X-GitHub-Api-Version: 2022-11-28"@,
        website != GitWebsite::GitHub ==> platform_header_texts(website).len() == 0,
{
}

/// What is added to the address of a listing asks for a page of a hundred releases, or on
/// Gitea of fifty, by its number. It is the first query of the address, or a further one.
pub proof fn lemma_pages_are_asked_for(base_url: Seq<char>, website: GitWebsite, page: nat)
    ensures
        ({
            let url = page_url_text(base_url, website, page);
            if website == GitWebsite::Gitea {
                if base_url.contains('?') {
                    url == base_url + "&limit=50&page="@ + text::decimal(page)
                } else {
                    url == base_url + "?limit=50&page="@ + text::decimal(page)
                }
            } else {
                if base_url.contains('?') {
                    url == base_url + "&per_page=100&page="@ + text::decimal(page)
                } else {
                    url == base_url + "?per_page=100&page="@ + text::decimal(page)
                }
            }
        }),
{
    reveal_strlit("&");
    reveal_strlit("?");
    reveal_strlit("=");
    reveal_strlit("limit");
    reveal_strlit("per_page");
    reveal_strlit("&page=");
    reveal_strlit("&limit=50&page=");
    reveal_strlit("?limit=50&page=");
    reveal_strlit("&per_page=100&page=");
    reveal_strlit("?per_page=100&page=");
    reveal_with_fuel(text::decimal, 4);
    assert(text::decimal(50) == seq!['5', '0']);
    assert(text::decimal(100) == seq!['1', '0', '0']);
    let number = text::decimal(page);
    assert("&"@ + "limit"@ + "="@ + seq!['5', '0'] + "&page="@ == "&limit=50&page="@);
    assert("?"@ + "limit"@ + "="@ + seq!['5', '0'] + "&page="@ == "?limit=50&page="@);
    assert("&"@ + "per_page"@ + "="@ + seq!['1', '0', '0'] + "&page="@ == "&per_page=100&page="@);
    assert("?"@ + "per_page"@ + "="@ + seq!['1', '0', '0'] + "&page="@ == "?per_page=100&page="@);
    let separator = if base_url.contains('?') {
        "&"@
    } else {
        "?"@
    };
    let param = page_size_param_text(website);
    let size = text::decimal(page_size_of(website));
    assert(page_url_text(base_url, website, page) == base_url + (separator + param + "="@ + size
        + "&page="@) + number);
}

/// The parts that a listing's address is made of stand in it in their order: on Gitea and
/// GitLab scheme, host and sub path come first, whatever the host is.
pub proof fn lemma_listing_begins_with_its_host(repository: Repository)
    requires
        repository.website != GitWebsite::GitHub,
    ensures
        (scheme_text(repository.passed_string@) + "://"@ + repository.origin@
            + repository.sub_path@).is_prefix_of(releases_api_url_text(repository)),
        repository.website == GitWebsite::GitLab ==> releases_api_url_text(repository).skip(
            (scheme_text(repository.passed_string@) + "://"@ + repository.origin@
                + repository.sub_path@).len() as int,
        ) == "api/v4/projects/"@ + repository.owner@ + "%2F"@ + repository.name@ + "/releases"@,
        repository.website == GitWebsite::Gitea ==> releases_api_url_text(repository).skip(
            (scheme_text(repository.passed_string@) + "://"@ + repository.origin@
                + repository.sub_path@).len() as int,
        ) == "api/v1/repos/"@ + repository.owner@ + "/"@ + repository.name@ + "/releases"@,
{
}

/// GitHub and GitLab are asked for a hundred releases at once, under one name, and Gitea for
/// fifty under another.
pub proof fn lemma_page_sizes(website: GitWebsite)
    ensures
        website == GitWebsite::Gitea ==> page_size_of(website) == 50 && page_size_param_text(
            website,
        ) == "limit"@,
        website != GitWebsite::Gitea ==> page_size_of(website) == 100 && page_size_param_text(
            website,
        ) == "per_page"@,
{
}

} // verus!
