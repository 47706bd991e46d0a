//! What is downloaded, from where, and where to.

use crate::models::{Asset, Release};
use crate::pattern::Pattern;
use crate::repository;
use crate::repository::{GitWebsite, Repository};
use crate::selection;
use crate::text;
use vstd::prelude::*;

verus! {

/// The headers of the requests for an asset: the user's, and on GitHub those that ask
/// for the file itself.
pub open spec fn download_header_texts(website: GitWebsite, headers: Seq<Seq<char>>) -> Seq<
    Seq<char>,
> {
    match website {
        GitWebsite::GitHub => headers + seq![
            "Accept: application/octet-stream"@,
            "X-GitHub-Api-Version: 2022-11-28"@,
        ],
        _ => headers,
    }
}

/// The headers of the requests for an asset.
pub fn download_headers(website: &GitWebsite, headers: &[String]) -> (all: Vec<String>)
    ensures
        text::texts(all@) == download_header_texts(*website, text::texts(headers@)),
{
    let mut all: Vec<String> = Vec::new();
    text::append_copies(&mut all, headers);
    assert(text::texts(all@) == text::texts(headers@));
    match website {
        GitWebsite::GitHub => {
            all.push("Accept: application/octet-stream".to_owned());
            all.push("X-GitHub-Api-Version: 2022-11-28".to_owned());
        },
        _ => {},
    }
    assert(text::texts(all@) == download_header_texts(*website, text::texts(headers@)));
    all
}

/// Where an asset is downloaded from: on GitHub by its number, elsewhere from the
/// address that the listing gives.
pub open spec fn download_url_text(repository: Repository, asset: Asset) -> Seq<char> {
    match repository.website {
        GitWebsite::GitHub => repository::github_asset_api_url_text(
            repository.owner@,
            repository.name@,
            asset.id as int,
        ),
        _ => asset.browser_download_url@,
    }
}

/// Where an asset is downloaded from.
pub fn download_url(repository: &Repository, asset: &Asset) -> (url: String)
    ensures
        url@ == download_url_text(*repository, *asset),
        repository.website == GitWebsite::GitHub ==> url@ == "https://api.github.com/repos/"@
            + repository.owner@ + "/"@ + repository.name@ + "/releases/assets/"@
            + text::signed_decimal(asset.id as int),
        repository.website != GitWebsite::GitHub ==> url@ == asset.browser_download_url@,
{
    match repository.website {
        GitWebsite::GitHub => repository::get_github_asset_api_url(
            repository.owner.as_str(),
            repository.name.as_str(),
            asset.id,
        ),
        _ => asset.browser_download_url.clone(),
    }
}

/// The download of one asset: the request, and the name of the file to write.
#[derive(Debug, PartialEq, Eq)]
pub struct DownloadPlan {
    pub url: String,
    pub headers: Vec<String>,
    pub file_name: String,
}

/// Plans the download of one asset into a file of its name.
pub fn plan_download(repository: &Repository, asset: &Asset, headers: &[String]) -> (plan:
    DownloadPlan)
    ensures
        plan.url@ == download_url_text(*repository, *asset),
        text::texts(plan.headers@) == download_header_texts(
            repository.website,
            text::texts(headers@),
        ),
        plan.file_name@ == asset.name@,
        repository.website == GitWebsite::GitHub ==> plan.url@
            == "https://api.github.com/repos/"@ + repository.owner@ + "/"@ + repository.name@
            + "/releases/assets/"@ + text::signed_decimal(asset.id as int),
        repository.website != GitWebsite::GitHub ==> plan.url@ == asset.browser_download_url@,
{
    DownloadPlan {
        url: download_url(repository, asset),
        headers: download_headers(&repository.website, headers),
        file_name: asset.name.clone(),
    }
}

/// Finds the asset that a request for a single download means, and plans its download;
/// or tells that there is none.
pub fn plan_single(
    releases: &[Release],
    repository: &Repository,
    tag: Option<&str>,
    allow_prerelease: bool,
    asset_pattern: &Pattern,
    headers: &[String],
) -> (planned: Result<DownloadPlan, String>)
    ensures
        match selection::found_asset(
            releases@,
            text::optional_text(tag),
            allow_prerelease,
            asset_pattern@,
        ) {
            Some(asset) => planned matches Ok(plan) && plan.url@ == download_url_text(
                *repository,
                asset,
            ) && text::texts(plan.headers@) == download_header_texts(
                repository.website,
                text::texts(headers@),
            ) && plan.file_name@ == asset.name@,
            None => planned matches Err(message) && message@ == selection::asset_not_found_text(
                asset_pattern@,
                text::optional_text(tag),
                repository.passed_string@,
            ),
        },
{
    match selection::get_asset(
        releases,
        tag,
        allow_prerelease,
        asset_pattern,
        repository.passed_string.as_str(),
    ) {
        Ok(asset) => Ok(plan_download(repository, asset, headers)),
        Err(message) => Err(message),
    }
}

/// The user's headers come first and all come through. Behind them GitHub is asked for the
/// file itself; the others are asked for nothing more.
pub proof fn lemma_user_headers_come_first(website: GitWebsite, headers: Seq<Seq<char>>)
    ensures
        ({
            let all = download_header_texts(website, headers);
            &&& all.take(headers.len() as int) == headers
            &&& forall|i: int| 0 <= i < headers.len() ==> all[i] == #[trigger] headers[i]
            &&& website == GitWebsite::GitHub ==> {
                &&& all.len() == headers.len() + 2
                &&& all[headers.len() as int] == "Accept: application/octet-stream"@
                &&& all[(headers.len() + 1) as int] == "X-GitHub-Api-Version: 2022-11-28"@
            }
            &&& website != GitWebsite::GitHub ==> all.len() == headers.len()
        }),
{
}

/// On GitHub an asset is asked for by the repository's owner and name and the asset's
/// number; elsewhere its address is the one in the listing, whatever the repository is.
pub proof fn lemma_asset_address(repository: Repository, asset: Asset)
    ensures
        repository.website == GitWebsite::GitHub && asset.id >= 0 ==> download_url_text(
            repository,
            asset,
        ) == "https://api.github.com/repos/"@ + repository.owner@ + "/"@ + repository.name@
            + "/releases/assets/"@ + text::decimal(asset.id as nat),
        repository.website == GitWebsite::GitHub && asset.id < 0 ==> download_url_text(
            repository,
            asset,
        ) == "https://api.github.com/repos/"@ + repository.owner@ + "/"@ + repository.name@
            + "/releases/assets/"@ + ("-"@ + text::decimal((-asset.id) as nat)),
        repository.website != GitWebsite::GitHub ==> download_url_text(repository, asset)
            == asset.browser_download_url@,
{
    if asset.id >= 0 {
        repository::lemma_github_assets_are_numbered(
            repository.owner@,
            repository.name@,
            asset.id as nat,
        );
    } else {
        repository::lemma_github_assets_are_numbered(
            repository.owner@,
            repository.name@,
            (-asset.id) as nat,
        );
    }
}

} // verus!
