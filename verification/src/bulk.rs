//! Downloading the assets of many releases.

use crate::download;
use crate::models::{Asset, Release};
use crate::pattern;
use crate::pattern::Pattern;
use crate::repository::{GitWebsite, Repository};
use crate::selection;
use crate::text;
use vstd::prelude::*;

verus! {

/// The allowed releases with a tag that a pattern matches.
pub open spec fn tagged_like(pattern: Seq<char>, allow_prerelease: bool) -> spec_fn(Release) -> bool {
    |release: Release|
        (allow_prerelease || !release.prerelease) && pattern::pattern_is_match(
            pattern,
            release.tag_name@,
        )
}

/// Tells of each release whether its tag matches.
pub fn tag_flags(releases: &[Release], pattern: &Pattern) -> (flags: Vec<bool>)
    ensures
        flags@ == releases@.map_values(
            |release: Release| pattern::pattern_is_match(pattern@, release.tag_name@),
        ),
{
    let mut flags: Vec<bool> = Vec::new();
    let mut i: usize = 0;
    while i < releases.len()
        invariant
            i <= releases@.len(),
            flags@.len() == i,
            forall|j: int|
                0 <= j < i ==> #[trigger] flags@[j] == pattern::pattern_is_match(
                    pattern@,
                    releases@[j].tag_name@,
                ),
        decreases releases@.len() - i,
    {
        flags.push(pattern.is_match(releases[i].tag_name.as_str()));
        i += 1;
    }
    flags
}

/// The flags of the releases that are also allowed.
pub open spec fn allowed_flags(releases: Seq<Release>, allow_prerelease: bool, flags: Seq<bool>) -> Seq<
    bool,
> {
    Seq::new(
        releases.len(),
        |i: int| (allow_prerelease || !releases[i].prerelease) && flags[i],
    )
}

/// The flagged releases, of those that are allowed, in order.
pub fn flagged_releases<'a>(
    releases: &'a [Release],
    allow_prerelease: bool,
    flags: &[bool],
) -> (matching: Vec<&'a Release>)
    requires
        flags@.len() == releases@.len(),
    ensures
        matching@.unref() == selection::flagged(
            releases@,
            allowed_flags(releases@, allow_prerelease, flags@),
        ),
{
    let ghost both = allowed_flags(releases@, allow_prerelease, flags@);
    let mut matching: Vec<&'a Release> = Vec::new();
    let mut i: usize = 0;
    while i < releases.len()
        invariant
            i <= releases@.len(),
            flags@.len() == releases@.len(),
            both == allowed_flags(releases@, allow_prerelease, flags@),
            matching@.unref() == selection::flagged(
                releases@.take(i as int),
                both.take(i as int),
            ),
        decreases releases@.len() - i,
    {
        assert(releases@.take(i + 1).drop_last() == releases@.take(i as int));
        assert(both.take(i + 1).drop_last() == both.take(i as int));
        let ghost before = matching@;
        if (allow_prerelease || !releases[i].prerelease) && flags[i] {
            matching.push(&releases[i]);
            assert(matching@.unref() == before.unref().push(releases@[i as int]));
        }
        i += 1;
    }
    assert(releases@.take(i as int) == releases@);
    assert(both.take(i as int) == both);
    matching
}

/// All allowed releases with a tag that the pattern matches, in order.
pub fn find_matching_releases<'a>(
    releases: &'a [Release],
    allow_prerelease: bool,
    release_pattern: &Pattern,
) -> (matching: Vec<&'a Release>)
    ensures
        matching@.unref() == releases@.filter(tagged_like(release_pattern@, allow_prerelease)),
        matching@.unref() == releases@.filter(
            |release: Release|
                (allow_prerelease || !release.prerelease) && pattern::pattern_is_match(
                    release_pattern@,
                    release.tag_name@,
                ),
        ),
{
    let flags = tag_flags(releases, release_pattern);
    proof {
        let keep = tagged_like(release_pattern@, allow_prerelease);
        let both = allowed_flags(releases@, allow_prerelease, flags@);
        assert(both == releases@.map_values(keep));
        selection::lemma_flagged_is_filter(releases@, both, keep);
        let plainly = |release: Release|
            (allow_prerelease || !release.prerelease) && pattern::pattern_is_match(
                release_pattern@,
                release.tag_name@,
            );
        assert(both == releases@.map_values(plainly));
        selection::lemma_flagged_is_filter(releases@, both, plainly);
    }
    flagged_releases(releases, allow_prerelease, flags.as_slice())
}

/// How long to wait after a download, in milliseconds.
pub const PAUSE_MILLIS: u64 = 200;

/// One file to download: the position of its release among the matching ones, the
/// directory and the name under which it is written, and where it comes from.
#[derive(Debug, PartialEq, Eq)]
pub struct DownloadJob {
    pub release: usize,
    pub tag_name: String,
    pub asset_name: String,
    pub url: String,
}

/// What a [`DownloadJob`] says.
pub struct DownloadJobView {
    pub release: int,
    pub tag_name: Seq<char>,
    pub asset_name: Seq<char>,
    pub url: Seq<char>,
}

impl View for DownloadJob {
    type V = DownloadJobView;

    open spec fn view(&self) -> DownloadJobView {
        DownloadJobView {
            release: self.release as int,
            tag_name: self.tag_name@,
            asset_name: self.asset_name@,
            url: self.url@,
        }
    }
}

impl DownloadJob {
    /// The steps from the output directory to the file: a directory named after the tag,
    /// and in it the file with the name of the asset.
    pub fn path_steps(&self) -> (steps: Vec<String>)
        ensures
            text::texts(steps@) == seq![self@.tag_name, self@.asset_name],
            text::texts(steps@) == seq![self.tag_name@, self.asset_name@],
    {
        let mut steps: Vec<String> = Vec::new();
        steps.push(self.tag_name.clone());
        steps.push(self.asset_name.clone());
        assert(text::texts(steps@) == seq![self@.tag_name, self@.asset_name]);
        steps
    }
}

/// What a list of jobs says.
pub open spec fn job_views(jobs: Seq<DownloadJob>) -> Seq<DownloadJobView> {
    jobs.map_values(|job: DownloadJob| job@)
}

/// The job for one asset of a release.
pub open spec fn job_for(repository: Repository, position: int, release: Release, asset: Asset) -> DownloadJobView {
    DownloadJobView {
        release: position,
        tag_name: release.tag_name@,
        asset_name: asset.name@,
        url: download::download_url_text(repository, asset),
    }
}

/// The jobs for some assets of a release.
pub open spec fn release_jobs(
    repository: Repository,
    position: int,
    release: Release,
    assets: Seq<Asset>,
) -> Seq<DownloadJobView> {
    assets.map_values(|asset: Asset| job_for(repository, position, release, asset))
}

/// The jobs for some assets of some releases, release by release.
pub open spec fn jobs_for(
    repository: Repository,
    releases: Seq<Release>,
    assets: Seq<Seq<Asset>>,
) -> Seq<DownloadJobView>
    decreases releases.len(),
{
    if releases.len() == 0 || assets.len() == 0 {
        Seq::empty()
    } else {
        jobs_for(repository, releases.drop_last(), assets.drop_last()) + release_jobs(
            repository,
            releases.len() - 1,
            releases.last(),
            assets.last(),
        )
    }
}

/// The matching assets of each release.
pub open spec fn matching_assets(releases: Seq<Release>, asset_pattern: Seq<char>) -> Seq<
    Seq<Asset>,
> {
    releases.map_values(
        |release: Release| release.assets@.filter(selection::named_like(asset_pattern)),
    )
}

/// The jobs for the matching assets of some releases, release by release.
pub open spec fn all_jobs(repository: Repository, releases: Seq<Release>, asset_pattern: Seq<char>) -> Seq<
    DownloadJobView,
> {
    jobs_for(repository, releases, matching_assets(releases, asset_pattern))
}

/// Appends the jobs for some assets of a release.
pub fn push_release_jobs(
    jobs: &mut Vec<DownloadJob>,
    repository: &Repository,
    position: usize,
    release: &Release,
    assets: &Vec<&Asset>,
)
    ensures
        job_views(final(jobs)@) == job_views(old(jobs)@) + release_jobs(
            *repository,
            position as int,
            *release,
            assets@.unref(),
        ),
        final(jobs)@.len() == old(jobs)@.len() + assets@.len(),
        final(jobs)@.take(old(jobs)@.len() as int) == old(jobs)@,
        forall|n: int| #![trigger final(jobs)@[n]]
            old(jobs)@.len() <= n < final(jobs)@.len() ==> {
                let asset = assets@[n - old(jobs)@.len()];
                &&& final(jobs)@[n].release == position
                &&& final(jobs)@[n].tag_name@ == release.tag_name@
                &&& final(jobs)@[n].asset_name@ == asset.name@
                &&& repository.website == GitWebsite::GitHub ==> final(jobs)@[n].url@
                    == "https://api.github.com/repos/"@ + repository.owner@ + "/"@ + repository.name@
                    + "/releases/assets/"@ + text::signed_decimal(asset.id as int)
                &&& repository.website != GitWebsite::GitHub ==> final(jobs)@[n].url@
                    == asset.browser_download_url@
            },
{
    let ghost added = release_jobs(*repository, position as int, *release, assets@.unref());
    let mut i: usize = 0;
    while i < assets.len()
        invariant
            i <= assets@.len(),
            added == release_jobs(*repository, position as int, *release, assets@.unref()),
            job_views(jobs@) == job_views(old(jobs)@) + added.take(i as int),
            jobs@.len() == old(jobs)@.len() + i,
            jobs@.take(old(jobs)@.len() as int) == old(jobs)@,
            forall|n: int| #![trigger jobs@[n]]
                old(jobs)@.len() <= n < jobs@.len() ==> {
                    let asset = assets@[n - old(jobs)@.len()];
                    &&& jobs@[n].release == position
                    &&& jobs@[n].tag_name@ == release.tag_name@
                    &&& jobs@[n].asset_name@ == asset.name@
                    &&& repository.website == GitWebsite::GitHub ==> jobs@[n].url@
                        == "https://api.github.com/repos/"@ + repository.owner@ + "/"@ + repository.name@
                        + "/releases/assets/"@ + text::signed_decimal(asset.id as int)
                    &&& repository.website != GitWebsite::GitHub ==> jobs@[n].url@
                        == asset.browser_download_url@
                },
        decreases assets@.len() - i,
    {
        let ghost before = jobs@;
        let job = DownloadJob {
            release: position,
            tag_name: release.tag_name.clone(),
            asset_name: assets[i].name.clone(),
            url: download::download_url(repository, assets[i]),
        };
        assert(job@ == added[i as int]);
        jobs.push(job);
        assert(job_views(jobs@) == job_views(before).push(job@));
        i += 1;
        assert(job_views(jobs@) == job_views(old(jobs)@) + added.take(i as int));
    }
    assert(added.take(i as int) == added);
}

/// The assets in some lists of references.
pub open spec fn referenced(lists: Seq<Vec<&Asset>>) -> Seq<Seq<Asset>> {
    lists.map_values(|list: Vec<&Asset>| list@.unref())
}

/// Plans the download of given assets of some releases.
pub fn plan_jobs_for(
    repository: &Repository,
    releases: &Vec<&Release>,
    assets: &Vec<Vec<&Asset>>,
) -> (jobs: Vec<DownloadJob>)
    requires
        releases@.len() == assets@.len(),
    ensures
        job_views(jobs@) == jobs_for(*repository, releases@.unref(), referenced(assets@)),
{
    let ghost listed = releases@.unref();
    let ghost chosen = referenced(assets@);
    let mut jobs: Vec<DownloadJob> = Vec::new();
    let mut i: usize = 0;
    assert(job_views(jobs@) == jobs_for(*repository, listed.take(0), chosen.take(0)));
    while i < releases.len()
        invariant
            i <= releases@.len(),
            releases@.len() == assets@.len(),
            listed == releases@.unref(),
            chosen == referenced(assets@),
            job_views(jobs@) == jobs_for(*repository, listed.take(i as int), chosen.take(i as int)),
        decreases releases@.len() - i,
    {
        push_release_jobs(&mut jobs, repository, i, releases[i], &assets[i]);
        assert(listed.take(i + 1).drop_last() == listed.take(i as int));
        assert(listed.take(i + 1).last() == *releases@[i as int]);
        assert(chosen.take(i + 1).drop_last() == chosen.take(i as int));
        assert(chosen.take(i + 1).last() == assets@[i as int]@.unref());
        i += 1;
    }
    assert(listed.take(i as int) == listed);
    assert(chosen.take(i as int) == chosen);
    jobs
}

/// Plans the download of the matching assets of some releases.
pub fn plan_jobs(repository: &Repository, releases: &Vec<&Release>, asset_pattern: &Pattern) -> (jobs:
    Vec<DownloadJob>)
    ensures
        job_views(jobs@) == all_jobs(*repository, releases@.unref(), asset_pattern@),
{
    let mut assets: Vec<Vec<&Asset>> = Vec::new();
    let mut i: usize = 0;
    while i < releases.len()
        invariant
            i <= releases@.len(),
            assets@.len() == i,
            forall|j: int|
                0 <= j < i ==> (#[trigger] assets@[j])@.unref() == releases@[j].assets@.filter(
                    selection::named_like(asset_pattern@),
                ),
        decreases releases@.len() - i,
    {
        assets.push(selection::find_assets_in_release(releases[i], asset_pattern));
        i += 1;
    }
    assert(referenced(assets@) == matching_assets(releases@.unref(), asset_pattern@));
    plan_jobs_for(repository, releases, &assets)
}

/// Plans the download of the matching assets of all matching releases, or tells that no
/// release matches.
pub fn plan_bulk(
    releases: &[Release],
    repository: &Repository,
    allow_prerelease: bool,
    release_pattern: &Pattern,
    asset_pattern: &Pattern,
) -> (planned: Result<Vec<DownloadJob>, String>)
    ensures
        ({
            let matching = releases@.filter(tagged_like(release_pattern@, allow_prerelease));
            if matching.len() == 0 {
                planned matches Err(message) && message@
                    == "No releases matched the given filters"@
            } else {
                planned matches Ok(jobs) && job_views(jobs@) == all_jobs(
                    *repository,
                    matching,
                    asset_pattern@,
                )
            }
        }),
        planned is Err <==> forall|i: int|
            0 <= i < releases@.len() ==> (!allow_prerelease && (#[trigger] releases@[i]).prerelease)
                || !pattern::pattern_is_match(release_pattern@, releases@[i].tag_name@),
        planned matches Ok(jobs) ==> forall|n: int|
            0 <= n < jobs@.len() ==> (#[trigger] jobs@[n]).release < releases@.len() && exists|
                i: int,
                k: int,
            |
                {
                    &&& 0 <= i < releases@.len()
                    &&& 0 <= k < releases@[i].assets@.len()
                    &&& allow_prerelease || !releases@[i].prerelease
                    &&& pattern::pattern_is_match(release_pattern@, releases@[i].tag_name@)
                    &&& pattern::pattern_is_match(asset_pattern@, releases@[i].assets@[k].name@)
                    &&& jobs@[n].tag_name@ == releases@[i].tag_name@
                    &&& jobs@[n].asset_name@ == (#[trigger] releases@[i].assets@[k]).name@
                    &&& repository.website == GitWebsite::GitHub ==> jobs@[n].url@
                        == "https://api.github.com/repos/"@ + repository.owner@ + "/"@
                        + repository.name@ + "/releases/assets/"@ + text::signed_decimal(
                        releases@[i].assets@[k].id as int,
                    )
                    &&& repository.website != GitWebsite::GitHub ==> jobs@[n].url@
                        == releases@[i].assets@[k].browser_download_url@
                },
{
    proof {
        lemma_nothing_is_planned_only_if_nothing_matches(
            releases@,
            allow_prerelease,
            release_pattern@,
        );
    }
    let matching = find_matching_releases(releases, allow_prerelease, release_pattern);
    assert(matching@.unref().len() == matching@.len());
    if matching.is_empty() {
        Err("No releases matched the given filters".to_owned())
    } else {
        let jobs = plan_jobs(repository, &matching, asset_pattern);
        proof {
            lemma_planned_files(
                *repository,
                releases@,
                allow_prerelease,
                release_pattern@,
                asset_pattern@,
                jobs@,
            );
        }
        Ok(jobs)
    }
}

/// Whether jobs come release by release.
pub open spec fn is_ordered(jobs: Seq<DownloadJobView>) -> bool {
    forall|i: int, j: int| 0 <= i <= j < jobs.len() ==> jobs[i].release <= jobs[j].release
}

/// Planned jobs come release by release.
pub proof fn lemma_jobs_ordered(
    repository: Repository,
    releases: Seq<Release>,
    assets: Seq<Seq<Asset>>,
)
    ensures
        is_ordered(jobs_for(repository, releases, assets)),
        forall|i: int|
            0 <= i < jobs_for(repository, releases, assets).len() ==> 0 <= (#[trigger] jobs_for(
                repository,
                releases,
                assets,
            )[i]).release < releases.len(),
    decreases releases.len(),
{
    if releases.len() > 0 && assets.len() > 0 {
        lemma_jobs_ordered(repository, releases.drop_last(), assets.drop_last());
    }
}

/// The number of downloads among some decisions.
pub open spec fn downloads(decisions: Seq<bool>) -> nat
    decreases decisions.len(),
{
    if decisions.len() == 0 {
        0
    } else {
        downloads(decisions.drop_last()) + if decisions.last() {
            1nat
        } else {
            0nat
        }
    }
}

/// The releases of which something is downloaded when the first jobs are decided in a
/// given way.
pub open spec fn downloaded_releases(jobs: Seq<DownloadJobView>, decisions: Seq<bool>) -> Set<int>
    decreases decisions.len(),
{
    if decisions.len() == 0 {
        Set::empty()
    } else {
        let before = downloaded_releases(jobs, decisions.drop_last());
        if decisions.last() {
            before.insert(jobs[decisions.len() - 1].release)
        } else {
            before
        }
    }
}

/// The releases of which something is downloaded are exactly those of the jobs that are
/// decided for, and no more than there are downloads.
pub proof fn lemma_downloaded_releases(jobs: Seq<DownloadJobView>, decisions: Seq<bool>)
    requires
        decisions.len() <= jobs.len(),
    ensures
        downloaded_releases(jobs, decisions).finite(),
        downloaded_releases(jobs, decisions).len() <= downloads(decisions) <= decisions.len(),
        forall|release: int| #[trigger]
            downloaded_releases(jobs, decisions).contains(release) <==> exists|i: int|
                0 <= i < decisions.len() && decisions[i] && (#[trigger] jobs[i]).release
                    == release,
    decreases decisions.len(),
{
    if decisions.len() > 0 {
        let front = decisions.drop_last();
        let last = decisions.len() - 1;
        lemma_downloaded_releases(jobs, front);
        assert forall|release: int| #[trigger]
            downloaded_releases(jobs, decisions).contains(release) <==> exists|i: int|
            0 <= i < decisions.len() && decisions[i] && (#[trigger] jobs[i]).release == release by {
            if downloaded_releases(jobs, front).contains(release) {
                let i = choose|i: int|
                    0 <= i < front.len() && front[i] && (#[trigger] jobs[i]).release == release;
                assert(decisions[i]);
            } else if downloaded_releases(jobs, decisions).contains(release) {
                assert(decisions[last]);
                assert(jobs[last].release == release);
            } else if exists|i: int|
                0 <= i < decisions.len() && decisions[i] && (#[trigger] jobs[i]).release
                    == release {
                let i = choose|i: int|
                    0 <= i < decisions.len() && decisions[i] && (#[trigger] jobs[i]).release
                        == release;
                if i < last {
                    assert(front[i]);
                }
            }
        }
    }
}

/// Downloads of many files, one after the other.
pub struct BulkDownload {
    jobs: Vec<DownloadJob>,
    overwrite: bool,
    next: usize,
    downloaded: usize,
    releases: usize,
    last_release: Option<usize>,
    pending: bool,
    decisions: Ghost<Seq<bool>>,
}

/// The state of a [`BulkDownload`]: the jobs, whether files are overwritten, of each job
/// that is done whether its file was downloaded, and whether the file of the next is being
/// downloaded.
pub struct BulkView {
    pub jobs: Seq<DownloadJobView>,
    pub overwrite: bool,
    pub decisions: Seq<bool>,
    pub pending: bool,
}

impl View for BulkDownload {
    type V = BulkView;

    closed spec fn view(&self) -> BulkView {
        BulkView {
            jobs: job_views(self.jobs@),
            overwrite: self.overwrite,
            decisions: self.decisions@,
            pending: self.pending,
        }
    }
}

/// What to do about a file.
#[derive(Debug, Clone, Copy, PartialEq, Eq, Structural)]
pub enum BulkAction {
    /// Leave the existing file.
    Skip,
    /// Download the file.
    Download,
}

/// Whether a file is downloaded: if it does not exist yet, or is to be overwritten.
pub open spec fn is_downloaded(exists_already: bool, overwrite: bool) -> bool {
    !exists_already || overwrite
}

/// The state once it is known whether the file of the next job exists: the job is done
/// with, or its file is being downloaded.
pub open spec fn after_question(bulk: BulkView, exists_already: bool) -> BulkView {
    if is_downloaded(exists_already, bulk.overwrite) {
        BulkView { pending: true, ..bulk }
    } else {
        BulkView { decisions: bulk.decisions.push(false), ..bulk }
    }
}

/// The state once the file is there.
pub open spec fn after_download(bulk: BulkView) -> BulkView {
    BulkView { decisions: bulk.decisions.push(true), pending: false, ..bulk }
}

/// The state after one job.
pub open spec fn after_job(bulk: BulkView, exists_already: bool) -> BulkView {
    let asked = after_question(bulk, exists_already);
    if asked.pending {
        after_download(asked)
    } else {
        asked
    }
}

/// The state after some jobs, given of which the files exist.
pub open spec fn after_jobs(bulk: BulkView, existing: Seq<bool>) -> BulkView
    decreases existing.len(),
{
    if existing.len() == 0 {
        bulk
    } else {
        after_job(after_jobs(bulk, existing.drop_last()), existing.last())
    }
}

/// A run decides about each file by whether it exists, and changes nothing else.
pub proof fn lemma_run_decides(bulk: BulkView, existing: Seq<bool>)
    requires
        !bulk.pending,
    ensures
        after_jobs(bulk, existing) == (BulkView {
            decisions: bulk.decisions + decided(existing, bulk.overwrite),
            ..bulk
        }),
    decreases existing.len(),
{
    if existing.len() == 0 {
        assert(bulk.decisions + decided(existing, bulk.overwrite) == bulk.decisions);
    } else {
        lemma_run_decides(bulk, existing.drop_last());
        assert(bulk.decisions + decided(existing, bulk.overwrite) == (bulk.decisions + decided(
            existing.drop_last(),
            bulk.overwrite,
        )).push(is_downloaded(existing.last(), bulk.overwrite)));
    }
}

/// The decisions about files of which it is known which exist.
pub open spec fn decided(existing: Seq<bool>, overwrite: bool) -> Seq<bool> {
    existing.map_values(|exists_already: bool| is_downloaded(exists_already, overwrite))
}

/// When files are overwritten, all are downloaded. Otherwise those are downloaded that do
/// not exist: all of them if none exists, and none if all do.
pub proof fn lemma_existing_files_are_skipped(existing: Seq<bool>)
    ensures
        downloads(decided(existing, true)) == existing.len(),
        downloads(decided(existing, false)) + downloads(existing) == existing.len(),
        (forall|i: int| 0 <= i < existing.len() ==> existing[i]) ==> downloads(
            decided(existing, false),
        ) == 0,
        (forall|i: int| 0 <= i < existing.len() ==> !existing[i]) ==> downloads(
            decided(existing, false),
        ) == existing.len(),
    decreases existing.len(),
{
    if existing.len() > 0 {
        let front = existing.drop_last();
        lemma_existing_files_are_skipped(front);
        assert(decided(existing, true).drop_last() == decided(front, true));
        assert(decided(existing, false).drop_last() == decided(front, false));
        assert(existing.last() == existing[existing.len() - 1]);
        if forall|i: int| 0 <= i < existing.len() ==> existing[i] {
            assert(forall|i: int| 0 <= i < front.len() ==> front[i] == existing[i]);
        }
        if forall|i: int| 0 <= i < existing.len() ==> !existing[i] {
            assert(forall|i: int| 0 <= i < front.len() ==> front[i] == existing[i]);
        }
    }
}

/// Whether a job is that of one of the given assets of the releases.
pub open spec fn is_job_of(
    repository: Repository,
    releases: Seq<Release>,
    assets: Seq<Seq<Asset>>,
    job: DownloadJobView,
) -> bool {
    exists|i: int, k: int|
        0 <= i < releases.len() && 0 <= k < assets[i].len() && job == #[trigger] job_for(
            repository,
            i,
            releases[i],
            assets[i][k],
        )
}

/// Every given asset of every release has its job, and there is no other job.
pub proof fn lemma_jobs_cover(
    repository: Repository,
    releases: Seq<Release>,
    assets: Seq<Seq<Asset>>,
)
    requires
        releases.len() == assets.len(),
    ensures
        forall|i: int, k: int|
            0 <= i < releases.len() && 0 <= k < assets[i].len() ==> jobs_for(
                repository,
                releases,
                assets,
            ).contains(#[trigger] job_for(repository, i, releases[i], assets[i][k])),
        forall|n: int|
            0 <= n < jobs_for(repository, releases, assets).len() ==> is_job_of(
                repository,
                releases,
                assets,
                #[trigger] jobs_for(repository, releases, assets)[n],
            ),
        jobs_for(repository, releases, assets).len() == assets.flatten().len(),
    decreases releases.len(),
{
    let jobs = jobs_for(repository, releases, assets);
    if releases.len() > 0 {
        let last = releases.len() - 1;
        let front = jobs_for(repository, releases.drop_last(), assets.drop_last());
        let added = release_jobs(repository, last, releases.last(), assets.last());
        lemma_jobs_cover(repository, releases.drop_last(), assets.drop_last());
        assert(assets.drop_last().push(assets.last()) == assets);
        assets.drop_last().lemma_flatten_push(assets.last());
        assert forall|i: int, k: int|
            0 <= i < releases.len() && 0 <= k < assets[i].len() implies jobs.contains(
            #[trigger] job_for(repository, i, releases[i], assets[i][k]),
        ) by {
            if i == last {
                assert(jobs[front.len() + k] == added[k]);
            } else {
                let job = job_for(
                    repository,
                    i,
                    releases.drop_last()[i],
                    assets.drop_last()[i][k],
                );
                assert(front.contains(job));
                let n = choose|n: int| 0 <= n < front.len() && front[n] == job;
                assert(jobs[n] == job);
            }
        }
        assert forall|n: int| 0 <= n < jobs.len() implies is_job_of(
            repository,
            releases,
            assets,
            #[trigger] jobs[n],
        ) by {
            if n < front.len() {
                assert(jobs[n] == front[n]);
                let (i, k) = choose|i: int, k: int|
                    0 <= i < releases.drop_last().len() && 0 <= k < assets.drop_last()[i].len()
                        && front[n] == #[trigger] job_for(
                        repository,
                        i,
                        releases.drop_last()[i],
                        assets.drop_last()[i][k],
                    );
                assert(jobs[n] == job_for(repository, i, releases[i], assets[i][k]));
            } else {
                assert(jobs[n] == added[n - front.len()]);
                assert(jobs[n] == job_for(
                    repository,
                    last,
                    releases[last],
                    assets[last][n - front.len()],
                ));
            }
        }
    } else {
        assert(assets.flatten().len() == 0);
    }
}

/// What is told at the end.
pub open spec fn summary_text(assets: nat, releases: nat) -> Seq<char> {
    "Downloaded "@ + text::decimal(assets) + " asset(s) across "@ + text::decimal(releases)
        + " release(s)"@
}

impl BulkDownload {
    /// The counters agree with what was decided.
    pub closed spec fn wf(&self) -> bool {
        &&& self.next == self.decisions@.len()
        &&& self.next <= self.jobs@.len()
        &&& self.pending ==> self.next < self.jobs@.len()
        &&& is_ordered(self@.jobs)
        &&& self.downloaded == downloads(self.decisions@)
        &&& self.releases == downloaded_releases(self@.jobs, self.decisions@).len()
        &&& match self.last_release {
            Some(last) => {
                &&& downloaded_releases(self@.jobs, self.decisions@).contains(last as int)
                &&& forall|release: int| #[trigger]
                    downloaded_releases(self@.jobs, self.decisions@).contains(release) ==> release
                        <= last
            },
            None => forall|release: int|
                !(#[trigger] downloaded_releases(self@.jobs, self.decisions@).contains(release)),
        }
    }

    /// Begins with the first of some jobs.
    pub fn begin(jobs: Vec<DownloadJob>, overwrite: bool) -> (bulk: BulkDownload)
        requires
            is_ordered(job_views(jobs@)),
        ensures
            bulk.wf(),
            bulk@ == (BulkView {
                jobs: job_views(jobs@),
                overwrite,
                decisions: Seq::empty(),
                pending: false,
            }),
    {
        BulkDownload {
            jobs,
            overwrite,
            next: 0,
            downloaded: 0,
            releases: 0,
            last_release: None,
            pending: false,
            decisions: Ghost(Seq::empty()),
        }
    }

    /// The job at hand, until all are done.
    pub fn current(&self) -> (job: Option<&DownloadJob>)
        requires
            self.wf(),
        ensures
            match job {
                Some(j) => self@.decisions.len() < self@.jobs.len() && j@
                    == self@.jobs[self@.decisions.len() as int],
                None => self@.decisions.len() == self@.jobs.len(),
            },
    {
        if self.next < self.jobs.len() {
            Some(&self.jobs[self.next])
        } else {
            None
        }
    }

    /// Decides about the job at hand, given whether its file exists. A job whose file is
    /// left is done with.
    pub fn on_exists(&mut self, exists_already: bool) -> (action: BulkAction)
        requires
            old(self).wf(),
            !old(self)@.pending,
            old(self)@.decisions.len() < old(self)@.jobs.len(),
        ensures
            final(self).wf(),
            final(self)@ == after_question(old(self)@, exists_already),
            action == if is_downloaded(exists_already, old(self)@.overwrite) {
                BulkAction::Download
            } else {
                BulkAction::Skip
            },
            action == BulkAction::Skip <==> exists_already && !old(self)@.overwrite,
            final(self)@.jobs == old(self)@.jobs,
            final(self)@.overwrite == old(self)@.overwrite,
            action == BulkAction::Skip ==> final(self)@.decisions == old(self)@.decisions.push(
                false,
            ) && !final(self)@.pending,
            action == BulkAction::Download ==> final(self)@.decisions == old(self)@.decisions
                && final(self)@.pending,
    {
        assert(self.next < self.jobs.len());
        if exists_already && !self.overwrite {
            let ghost before = self.decisions@;
            let ghost after = before.push(false);
            assert(after.drop_last() == before);
            self.decisions = Ghost(after);
            self.next += 1;
            BulkAction::Skip
        } else {
            self.pending = true;
            BulkAction::Download
        }
    }

    /// Counts the file that was downloaded; its job is done with.
    pub fn on_downloaded(&mut self)
        requires
            old(self).wf(),
            old(self)@.pending,
        ensures
            final(self).wf(),
            final(self)@ == after_download(old(self)@),
            final(self)@.jobs == old(self)@.jobs,
            final(self)@.overwrite == old(self)@.overwrite,
            final(self)@.decisions == old(self)@.decisions.push(true),
            !final(self)@.pending,
    {
        let ghost before = self.decisions@;
        let ghost after = before.push(true);
        let release: usize = self.jobs[self.next].release;
        let same_release = match self.last_release {
            Some(last) => last == release,
            None => false,
        };
        proof {
            lemma_downloaded_releases(self@.jobs, before);
            assert(self.next < self.jobs.len());
            assert(after.drop_last() == before);
            assert(self@.jobs[self.next as int].release == release);
            if let Some(last) = self.last_release {
                let i = choose|i: int|
                    0 <= i < before.len() && before[i] && (#[trigger] self@.jobs[i]).release
                        == last;
                assert(self@.jobs[i].release <= self@.jobs[self.next as int].release);
            }
        }
        if !same_release {
            self.releases += 1;
        }
        self.downloaded += 1;
        self.last_release = Some(release);
        self.decisions = Ghost(after);
        self.next += 1;
        self.pending = false;
    }

    /// Tells how much was downloaded, or that nothing was.
    pub fn summary(&self) -> (told: Result<String, String>)
        requires
            self.wf(),
        ensures
            if downloads(self@.decisions) == 0 {
                told matches Err(message) && message@ == "No assets were downloaded"@
            } else {
                told matches Ok(message) && message@ == summary_text(
                    downloads(self@.decisions),
                    downloaded_releases(self@.jobs, self@.decisions).len(),
                )
            },
    {
        if self.downloaded == 0 {
            return Err("No assets were downloaded".to_owned());
        }
        let mut message = "Downloaded ".to_owned();
        message.append(text::write_decimal(self.downloaded as u64).as_str());
        message.append(" asset(s) across ");
        message.append(text::write_decimal(self.releases as u64).as_str());
        message.append(" release(s)");
        Ok(message)
    }
}

/// Plans the download of the matching assets of all matching releases and begins with the
/// first, or tells that no release matches.
pub fn begin_bulk(
    releases: &[Release],
    repository: &Repository,
    allow_prerelease: bool,
    release_pattern: &Pattern,
    asset_pattern: &Pattern,
    overwrite: bool,
) -> (begun: Result<BulkDownload, String>)
    ensures
        ({
            let matching = releases@.filter(tagged_like(release_pattern@, allow_prerelease));
            if matching.len() == 0 {
                begun matches Err(message) && message@ == "No releases matched the given filters"@
            } else {
                begun matches Ok(bulk) && bulk.wf() && bulk@ == (BulkView {
                    jobs: all_jobs(*repository, matching, asset_pattern@),
                    overwrite,
                    decisions: Seq::empty(),
                    pending: false,
                })
            }
        }),
        begun is Err <==> forall|i: int|
            0 <= i < releases@.len() ==> (!allow_prerelease && (#[trigger] releases@[i]).prerelease)
                || !pattern::pattern_is_match(release_pattern@, releases@[i].tag_name@),
        begun matches Ok(bulk) ==> forall|n: int|
            0 <= n < bulk@.jobs.len() ==> (#[trigger] bulk@.jobs[n]).release < releases@.len()
                && exists|i: int, k: int|
                {
                    &&& 0 <= i < releases@.len()
                    &&& 0 <= k < releases@[i].assets@.len()
                    &&& allow_prerelease || !releases@[i].prerelease
                    &&& pattern::pattern_is_match(release_pattern@, releases@[i].tag_name@)
                    &&& pattern::pattern_is_match(asset_pattern@, releases@[i].assets@[k].name@)
                    &&& bulk@.jobs[n].tag_name == releases@[i].tag_name@
                    &&& bulk@.jobs[n].asset_name == (#[trigger] releases@[i].assets@[k]).name@
                    &&& repository.website == GitWebsite::GitHub ==> bulk@.jobs[n].url
                        == "https://api.github.com/repos/"@ + repository.owner@ + "/"@
                        + repository.name@ + "/releases/assets/"@ + text::signed_decimal(
                        releases@[i].assets@[k].id as int,
                    )
                    &&& repository.website != GitWebsite::GitHub ==> bulk@.jobs[n].url
                        == releases@[i].assets@[k].browser_download_url@
                },
{
    match plan_bulk(releases, repository, allow_prerelease, release_pattern, asset_pattern) {
        Ok(jobs) => {
            proof {
                let matching = releases@.filter(tagged_like(release_pattern@, allow_prerelease));
                lemma_jobs_ordered(
                    *repository,
                    matching,
                    matching_assets(matching, asset_pattern@),
                );
                releases@.lemma_filter_len(tagged_like(release_pattern@, allow_prerelease));
                let views = all_jobs(*repository, matching, asset_pattern@);
                assert forall|n: int|
                    0 <= n < views.len() implies (#[trigger] views[n]).release < releases@.len()
                    && exists|i: int, k: int|
                    {
                        &&& 0 <= i < releases@.len()
                        &&& 0 <= k < releases@[i].assets@.len()
                        &&& allow_prerelease || !releases@[i].prerelease
                        &&& pattern::pattern_is_match(release_pattern@, releases@[i].tag_name@)
                        &&& pattern::pattern_is_match(asset_pattern@, releases@[i].assets@[k].name@)
                        &&& views[n].tag_name == releases@[i].tag_name@
                        &&& views[n].asset_name == (#[trigger] releases@[i].assets@[k]).name@
                        &&& repository.website == GitWebsite::GitHub ==> views[n].url
                            == "https://api.github.com/repos/"@ + repository.owner@ + "/"@
                            + repository.name@ + "/releases/assets/"@ + text::signed_decimal(
                            releases@[i].assets@[k].id as int,
                        )
                        &&& repository.website != GitWebsite::GitHub ==> views[n].url
                            == releases@[i].assets@[k].browser_download_url@
                    } by {
                    lemma_planned_jobs_are_meant(
                        *repository,
                        releases@,
                        allow_prerelease,
                        release_pattern@,
                        asset_pattern@,
                        n,
                    );
                }
            }
            Ok(BulkDownload::begin(jobs, overwrite))
        },
        Err(message) => Err(message),
    }
}

/// Whether a release is downloaded from depends on whether it is a prerelease and on whether
/// the pattern matches its tag.
pub proof fn lemma_bulk_releases_are_chosen_by_tag(
    pattern: Seq<char>,
    allow_prerelease: bool,
    releases: Seq<Release>,
    release: Release,
)
    ensures
        tagged_like(pattern, allow_prerelease)(release) <==> (allow_prerelease
            || !release.prerelease) && pattern::pattern_is_match(pattern, release.tag_name@),
        Seq::<Release>::empty().filter(tagged_like(pattern, allow_prerelease)).len() == 0,
        releases.push(release).filter(tagged_like(pattern, allow_prerelease)) == if (
        allow_prerelease || !release.prerelease) && pattern::pattern_is_match(
            pattern,
            release.tag_name@,
        ) {
            releases.filter(tagged_like(pattern, allow_prerelease)).push(release)
        } else {
            releases.filter(tagged_like(pattern, allow_prerelease))
        },
{
    reveal(Seq::filter);
    assert(releases.push(release).drop_last() == releases);
}

/// A release keeps its flag unless it is a prerelease and those are not allowed.
pub proof fn lemma_flags_of_allowed_releases(
    releases: Seq<Release>,
    allow_prerelease: bool,
    flags: Seq<bool>,
)
    ensures
        allowed_flags(releases, allow_prerelease, flags).len() == releases.len(),
        forall|i: int|
            0 <= i < releases.len() ==> (#[trigger] allowed_flags(
                releases,
                allow_prerelease,
                flags,
            )[i] <==> flags[i] && (allow_prerelease || !releases[i].prerelease)),
{
}

/// What jobs say is what their fields hold, job by job.
pub proof fn lemma_jobs_say_all(jobs: Seq<DownloadJob>)
    ensures
        job_views(jobs).len() == jobs.len(),
        forall|n: int|
            0 <= n < jobs.len() ==> {
                &&& (#[trigger] job_views(jobs)[n]).release == jobs[n].release
                &&& job_views(jobs)[n].tag_name == jobs[n].tag_name@
                &&& job_views(jobs)[n].asset_name == jobs[n].asset_name@
                &&& job_views(jobs)[n].url == jobs[n].url@
            },
{
}

/// One more release adds one job for each of its given assets, in their order, behind the
/// jobs of the other releases: into a directory named after the release's tag, under the
/// name of the asset, and from where the asset is. On GitHub that is the address of the
/// asset's number in the repository of that owner and name, elsewhere the address in the
/// listing.
pub proof fn lemma_release_adds_jobs(
    repository: Repository,
    releases: Seq<Release>,
    assets: Seq<Seq<Asset>>,
    release: Release,
    chosen: Seq<Asset>,
)
    requires
        releases.len() == assets.len(),
    ensures
        jobs_for(repository, Seq::empty(), Seq::empty()).len() == 0,
        ({
            let before = jobs_for(repository, releases, assets);
            let after = jobs_for(repository, releases.push(release), assets.push(chosen));
            &&& after.len() == before.len() + chosen.len()
            &&& after.take(before.len() as int) == before
            &&& forall|k: int|
                0 <= k < chosen.len() ==> {
                    let job = after[before.len() + k];
                    &&& job.release == releases.len()
                    &&& job.tag_name == release.tag_name@
                    &&& job.asset_name == (#[trigger] chosen[k]).name@
                    &&& repository.website == GitWebsite::GitHub ==> job.url
                        == "https://api.github.com/repos/"@ + repository.owner@ + "/"@
                        + repository.name@ + "/releases/assets/"@ + text::signed_decimal(
                        chosen[k].id as int,
                    )
                    &&& repository.website != GitWebsite::GitHub ==> job.url
                        == chosen[k].browser_download_url@
                }
        }),
{
    assert(releases.push(release).drop_last() == releases);
    assert(assets.push(chosen).drop_last() == assets);
    let before = jobs_for(repository, releases, assets);
    let after = jobs_for(repository, releases.push(release), assets.push(chosen));
    let added = release_jobs(repository, releases.len() as int, release, chosen);
    assert(after == before + added);
    assert forall|k: int| 0 <= k < chosen.len() implies {
        let job = after[before.len() + k];
        &&& job.release == releases.len()
        &&& job.tag_name == release.tag_name@
        &&& job.asset_name == (#[trigger] chosen[k]).name@
        &&& repository.website == GitWebsite::GitHub ==> job.url
            == "https://api.github.com/repos/"@ + repository.owner@ + "/"@ + repository.name@
            + "/releases/assets/"@ + text::signed_decimal(chosen[k].id as int)
        &&& repository.website != GitWebsite::GitHub ==> job.url == chosen[k].browser_download_url@
    } by {
        assert(after[before.len() + k] == added[k]);
    }
}

/// The assets of each release that are meant are those with a name that the pattern matches.
pub proof fn lemma_assets_of_each_release(releases: Seq<Release>, asset_pattern: Seq<char>)
    ensures
        matching_assets(releases, asset_pattern).len() == releases.len(),
        forall|i: int|
            0 <= i < releases.len() ==> #[trigger] matching_assets(releases, asset_pattern)[i]
                == releases[i].assets@.filter(
                |asset: Asset| pattern::pattern_is_match(asset_pattern, asset.name@),
            ),
        forall|lists: Seq<Vec<&Asset>>, i: int|
            0 <= i < lists.len() ==> referenced(lists).len() == lists.len()
                && #[trigger] referenced(lists)[i] == lists[i]@.unref(),
{
    assert forall|i: int| 0 <= i < releases.len() implies #[trigger] matching_assets(
        releases,
        asset_pattern,
    )[i] == releases[i].assets@.filter(
        |asset: Asset| pattern::pattern_is_match(asset_pattern, asset.name@),
    ) by {
        assert(selection::named_like(asset_pattern) =~= (|asset: Asset|
            pattern::pattern_is_match(asset_pattern, asset.name@)));
    }
}

/// Every planned job is that of an asset of a release: its directory, its file and its
/// address are those of the asset, whose name the pattern matches. On GitHub the address is
/// made of the repository's owner and name, in this order, and the asset's number; elsewhere
/// it is the one in the listing.
pub proof fn lemma_every_job_has_its_asset(
    repository: Repository,
    releases: Seq<Release>,
    asset_pattern: Seq<char>,
    n: int,
)
    requires
        0 <= n < all_jobs(repository, releases, asset_pattern).len(),
    ensures
        ({
            let job = all_jobs(repository, releases, asset_pattern)[n];
            exists|i: int, k: int|
                {
                    &&& 0 <= i < releases.len()
                    &&& 0 <= k < releases[i].assets@.len()
                    &&& job.release == i
                    &&& job.tag_name == releases[i].tag_name@
                    &&& job.asset_name == (#[trigger] releases[i].assets@[k]).name@
                    &&& pattern::pattern_is_match(asset_pattern, releases[i].assets@[k].name@)
                    &&& repository.website == GitWebsite::GitHub ==> job.url
                        == "https://api.github.com/repos/"@ + repository.owner@ + "/"@
                        + repository.name@ + "/releases/assets/"@ + text::signed_decimal(
                        releases[i].assets@[k].id as int,
                    )
                    &&& repository.website != GitWebsite::GitHub ==> job.url
                        == releases[i].assets@[k].browser_download_url@
                }
        }),
{
    let assets = matching_assets(releases, asset_pattern);
    let job = all_jobs(repository, releases, asset_pattern)[n];
    lemma_jobs_cover(repository, releases, assets);
    assert(is_job_of(repository, releases, assets, job));
    let (i, m) = choose|i: int, m: int|
        0 <= i < releases.len() && 0 <= m < assets[i].len() && job == #[trigger] job_for(
            repository,
            i,
            releases[i],
            assets[i][m],
        );
    let keep = selection::named_like(asset_pattern);
    let listed = releases[i].assets@;
    assert(assets[i] == listed.filter(keep));
    listed.lemma_filter_pred(keep, m);
    assert(keep(listed.filter(keep)[m]));
    listed.lemma_filter_contains_rev(keep, listed.filter(keep)[m]);
    let k = choose|k: int| 0 <= k < listed.len() && listed[k] == listed.filter(keep)[m];
    assert(releases[i].assets@[k] == assets[i][m]);
}

/// Every asset with a matching name has its job.
pub proof fn lemma_every_asset_has_its_job(
    repository: Repository,
    releases: Seq<Release>,
    asset_pattern: Seq<char>,
    i: int,
    k: int,
)
    requires
        0 <= i < releases.len(),
        0 <= k < releases[i].assets@.len(),
        pattern::pattern_is_match(asset_pattern, releases[i].assets@[k].name@),
    ensures
        exists|n: int|
            {
                &&& 0 <= n < all_jobs(repository, releases, asset_pattern).len()
                &&& (#[trigger] all_jobs(repository, releases, asset_pattern)[n]).release == i
                &&& all_jobs(repository, releases, asset_pattern)[n].tag_name
                    == releases[i].tag_name@
                &&& all_jobs(repository, releases, asset_pattern)[n].asset_name
                    == releases[i].assets@[k].name@
                &&& repository.website == GitWebsite::GitHub ==> all_jobs(
                    repository,
                    releases,
                    asset_pattern,
                )[n].url == "https://api.github.com/repos/"@ + repository.owner@ + "/"@
                    + repository.name@ + "/releases/assets/"@ + text::signed_decimal(
                    releases[i].assets@[k].id as int,
                )
                &&& repository.website != GitWebsite::GitHub ==> all_jobs(
                    repository,
                    releases,
                    asset_pattern,
                )[n].url == releases[i].assets@[k].browser_download_url@
            },
{
    let assets = matching_assets(releases, asset_pattern);
    let jobs = all_jobs(repository, releases, asset_pattern);
    let keep = selection::named_like(asset_pattern);
    let listed = releases[i].assets@;
    lemma_jobs_cover(repository, releases, assets);
    assert(assets[i] == listed.filter(keep));
    broadcast use Seq::lemma_filter_contains;
    assert(keep(listed[k]));
    assert(listed.filter(keep).contains(listed[k]));
    let m = choose|m: int|
        0 <= m < listed.filter(keep).len() && listed.filter(keep)[m] == listed[k];
    let job = job_for(repository, i, releases[i], assets[i][m]);
    assert(jobs.contains(job));
    let n = choose|n: int| 0 <= n < jobs.len() && jobs[n] == job;
    assert(jobs[n].release == i);
}

/// One more download is one more; one more file that is left is none.
pub proof fn lemma_downloads_are_counted(decisions: Seq<bool>)
    ensures
        downloads(Seq::empty()) == 0,
        downloads(decisions.push(true)) == downloads(decisions) + 1,
        downloads(decisions.push(false)) == downloads(decisions),
{
    assert(decisions.push(true).drop_last() == decisions);
    assert(decisions.push(false).drop_last() == decisions);
}

/// A file is left exactly if it exists and files are not overwritten. A file that is left is
/// done with; one that is not is done with once it is downloaded. Neither changes the jobs or
/// whether files are overwritten.
pub proof fn lemma_file_is_left_or_downloaded(bulk: BulkView, exists_already: bool)
    requires
        !bulk.pending,
    ensures
        is_downloaded(exists_already, bulk.overwrite) <==> !(exists_already && !bulk.overwrite),
        ({
            let asked = after_question(bulk, exists_already);
            let done = after_download(asked);
            &&& asked.jobs == bulk.jobs && asked.overwrite == bulk.overwrite
            &&& exists_already && !bulk.overwrite ==> asked.decisions == bulk.decisions.push(false)
                && !asked.pending
            &&& !exists_already || bulk.overwrite ==> asked.decisions == bulk.decisions
                && asked.pending
            &&& done.jobs == bulk.jobs && done.overwrite == bulk.overwrite && !done.pending
            &&& done.decisions == asked.decisions.push(true)
        }),
{
}

/// Of each file it is decided by whether that file exists.
pub proof fn lemma_each_file_is_decided(existing: Seq<bool>, overwrite: bool)
    ensures
        decided(existing, overwrite).len() == existing.len(),
        forall|i: int|
            0 <= i < existing.len() ==> (#[trigger] decided(existing, overwrite)[i] <==> (
            !existing[i] || overwrite)),
{
}

/// What is told at the end is first the number of files and then that of releases, and
/// between two downloads there is a fifth of a second.
pub proof fn lemma_summary_counts_files_first(assets: nat, releases: nat)
    ensures
        summary_text(assets, releases) == "Downloaded "@ + text::decimal(assets)
            + " asset(s) across "@ + text::decimal(releases) + " release(s)"@,
        5 * PAUSE_MILLIS == 1000,
{
}

/// Every job that is planned for a listing is that of an asset in it, of a release that may
/// be taken and whose tag the pattern for tags matches, with a name that the pattern for names
/// matches: into a directory named after the tag, under the name, and from the address that
/// the asset has.
pub proof fn lemma_planned_jobs_are_meant(
    repository: Repository,
    releases: Seq<Release>,
    allow_prerelease: bool,
    release_pattern: Seq<char>,
    asset_pattern: Seq<char>,
    n: int,
)
    requires
        0 <= n < all_jobs(
            repository,
            releases.filter(tagged_like(release_pattern, allow_prerelease)),
            asset_pattern,
        ).len(),
    ensures
        ({
            let job = all_jobs(
                repository,
                releases.filter(tagged_like(release_pattern, allow_prerelease)),
                asset_pattern,
            )[n];
            exists|i: int, k: int|
                {
                    &&& 0 <= i < releases.len()
                    &&& 0 <= k < releases[i].assets@.len()
                    &&& allow_prerelease || !releases[i].prerelease
                    &&& pattern::pattern_is_match(release_pattern, releases[i].tag_name@)
                    &&& pattern::pattern_is_match(asset_pattern, releases[i].assets@[k].name@)
                    &&& job.tag_name == releases[i].tag_name@
                    &&& job.asset_name == (#[trigger] releases[i].assets@[k]).name@
                    &&& repository.website == GitWebsite::GitHub ==> job.url
                        == "https://api.github.com/repos/"@ + repository.owner@ + "/"@
                        + repository.name@ + "/releases/assets/"@ + text::signed_decimal(
                        releases[i].assets@[k].id as int,
                    )
                    &&& repository.website != GitWebsite::GitHub ==> job.url
                        == releases[i].assets@[k].browser_download_url@
                }
        }),
{
    let keep = tagged_like(release_pattern, allow_prerelease);
    let matching = releases.filter(keep);
    let job = all_jobs(repository, matching, asset_pattern)[n];
    lemma_every_job_has_its_asset(repository, matching, asset_pattern, n);
    let (m, k) = choose|m: int, k: int|
        {
            &&& 0 <= m < matching.len()
            &&& 0 <= k < matching[m].assets@.len()
            &&& job.release == m
            &&& job.tag_name == matching[m].tag_name@
            &&& job.asset_name == (#[trigger] matching[m].assets@[k]).name@
            &&& pattern::pattern_is_match(asset_pattern, matching[m].assets@[k].name@)
            &&& repository.website == GitWebsite::GitHub ==> job.url
                == "https://api.github.com/repos/"@ + repository.owner@ + "/"@ + repository.name@
                + "/releases/assets/"@ + text::signed_decimal(matching[m].assets@[k].id as int)
            &&& repository.website != GitWebsite::GitHub ==> job.url
                == matching[m].assets@[k].browser_download_url@
        };
    releases.lemma_filter_pred(keep, m);
    releases.lemma_filter_contains_rev(keep, matching[m]);
    let i = choose|i: int| 0 <= i < releases.len() && releases[i] == matching[m];
    assert(keep(releases[i]));
    assert(releases[i].assets@[k] == matching[m].assets@[k]);
}

/// Every asset in a listing that is meant has its job.
pub proof fn lemma_meant_assets_are_planned(
    repository: Repository,
    releases: Seq<Release>,
    allow_prerelease: bool,
    release_pattern: Seq<char>,
    asset_pattern: Seq<char>,
    i: int,
    k: int,
)
    requires
        0 <= i < releases.len(),
        0 <= k < releases[i].assets@.len(),
        allow_prerelease || !releases[i].prerelease,
        pattern::pattern_is_match(release_pattern, releases[i].tag_name@),
        pattern::pattern_is_match(asset_pattern, releases[i].assets@[k].name@),
    ensures
        ({
            let jobs = all_jobs(
                repository,
                releases.filter(tagged_like(release_pattern, allow_prerelease)),
                asset_pattern,
            );
            exists|n: int|
                {
                    &&& 0 <= n < jobs.len()
                    &&& (#[trigger] jobs[n]).tag_name == releases[i].tag_name@
                    &&& jobs[n].asset_name == releases[i].assets@[k].name@
                    &&& repository.website == GitWebsite::GitHub ==> jobs[n].url
                        == "https://api.github.com/repos/"@ + repository.owner@ + "/"@
                        + repository.name@ + "/releases/assets/"@ + text::signed_decimal(
                        releases[i].assets@[k].id as int,
                    )
                    &&& repository.website != GitWebsite::GitHub ==> jobs[n].url
                        == releases[i].assets@[k].browser_download_url@
                }
        }),
{
    let keep = tagged_like(release_pattern, allow_prerelease);
    let matching = releases.filter(keep);
    let jobs = all_jobs(repository, matching, asset_pattern);
    assert(keep(releases[i]));
    releases.lemma_filter_contains(keep, i);
    let m = choose|m: int| 0 <= m < matching.len() && matching[m] == releases[i];
    lemma_every_asset_has_its_job(repository, matching, asset_pattern, m, k);
    let n = choose|n: int|
        {
            &&& 0 <= n < jobs.len()
            &&& (#[trigger] jobs[n]).release == m
            &&& jobs[n].tag_name == matching[m].tag_name@
            &&& jobs[n].asset_name == matching[m].assets@[k].name@
            &&& repository.website == GitWebsite::GitHub ==> jobs[n].url
                == "https://api.github.com/repos/"@ + repository.owner@ + "/"@ + repository.name@
                + "/releases/assets/"@ + text::signed_decimal(matching[m].assets@[k].id as int)
            &&& repository.website != GitWebsite::GitHub ==> jobs[n].url
                == matching[m].assets@[k].browser_download_url@
        };
    assert(jobs[n].tag_name == releases[i].tag_name@);
}

/// A listing has nothing to download from exactly if every release in it is a prerelease that
/// may not be taken or has a tag that the pattern does not match.
pub proof fn lemma_nothing_is_planned_only_if_nothing_matches(
    releases: Seq<Release>,
    allow_prerelease: bool,
    release_pattern: Seq<char>,
)
    ensures
        releases.filter(tagged_like(release_pattern, allow_prerelease)).len() == 0 <==> forall|
            i: int,
        |
            0 <= i < releases.len() ==> (!allow_prerelease && (#[trigger] releases[i]).prerelease)
                || !pattern::pattern_is_match(release_pattern, releases[i].tag_name@),
{
    let keep = tagged_like(release_pattern, allow_prerelease);
    let matching = releases.filter(keep);
    if matching.len() == 0 {
        assert forall|i: int| 0 <= i < releases.len() implies (!allow_prerelease && (
        #[trigger] releases[i]).prerelease) || !pattern::pattern_is_match(
            release_pattern,
            releases[i].tag_name@,
        ) by {
            if keep(releases[i]) {
                releases.lemma_filter_contains(keep, i);
            }
        }
    } else {
        releases.lemma_filter_pred(keep, 0);
        releases.lemma_filter_contains_rev(keep, matching[0]);
        let i = choose|i: int| 0 <= i < releases.len() && releases[i] == matching[0];
        assert(keep(releases[i]));
    }
}

/// The files that are planned for a listing are those of assets that are meant, each in the
/// directory of its tag, under its name and from its address.
pub proof fn lemma_planned_files(
    repository: Repository,
    releases: Seq<Release>,
    allow_prerelease: bool,
    release_pattern: Seq<char>,
    asset_pattern: Seq<char>,
    jobs: Seq<DownloadJob>,
)
    requires
        job_views(jobs) == all_jobs(
            repository,
            releases.filter(tagged_like(release_pattern, allow_prerelease)),
            asset_pattern,
        ),
    ensures
        forall|n: int|
            0 <= n < jobs.len() ==> (#[trigger] jobs[n]).release < releases.len() && exists|
                i: int,
                k: int,
            |
                {
                    &&& 0 <= i < releases.len()
                    &&& 0 <= k < releases[i].assets@.len()
                    &&& allow_prerelease || !releases[i].prerelease
                    &&& pattern::pattern_is_match(release_pattern, releases[i].tag_name@)
                    &&& pattern::pattern_is_match(asset_pattern, releases[i].assets@[k].name@)
                    &&& jobs[n].tag_name@ == releases[i].tag_name@
                    &&& jobs[n].asset_name@ == (#[trigger] releases[i].assets@[k]).name@
                    &&& repository.website == GitWebsite::GitHub ==> jobs[n].url@
                        == "https://api.github.com/repos/"@ + repository.owner@ + "/"@
                        + repository.name@ + "/releases/assets/"@ + text::signed_decimal(
                        releases[i].assets@[k].id as int,
                    )
                    &&& repository.website != GitWebsite::GitHub ==> jobs[n].url@
                        == releases[i].assets@[k].browser_download_url@
                },
{
    let matching = releases.filter(tagged_like(release_pattern, allow_prerelease));
    let planned = all_jobs(repository, matching, asset_pattern);
    lemma_jobs_say_all(jobs);
    assert forall|n: int| 0 <= n < jobs.len() implies (#[trigger] jobs[n]).release < releases.len()
        && exists|i: int, k: int|
            {
                &&& 0 <= i < releases.len()
                &&& 0 <= k < releases[i].assets@.len()
                &&& allow_prerelease || !releases[i].prerelease
                &&& pattern::pattern_is_match(release_pattern, releases[i].tag_name@)
                &&& pattern::pattern_is_match(asset_pattern, releases[i].assets@[k].name@)
                &&& jobs[n].tag_name@ == releases[i].tag_name@
                &&& jobs[n].asset_name@ == (#[trigger] releases[i].assets@[k]).name@
                &&& repository.website == GitWebsite::GitHub ==> jobs[n].url@
                    == "https://api.github.com/repos/"@ + repository.owner@ + "/"@
                    + repository.name@ + "/releases/assets/"@ + text::signed_decimal(
                    releases[i].assets@[k].id as int,
                )
                &&& repository.website != GitWebsite::GitHub ==> jobs[n].url@
                    == releases[i].assets@[k].browser_download_url@
            } by {
        assert(planned[n] == job_views(jobs)[n]);
        lemma_planned_jobs_are_meant(
            repository,
            releases,
            allow_prerelease,
            release_pattern,
            asset_pattern,
            n,
        );
        lemma_jobs_ordered(repository, matching, matching_assets(matching, asset_pattern));
        releases.lemma_filter_len(tagged_like(release_pattern, allow_prerelease));
    }
}

/// One more release adds its assets with a matching name, in the order of the release, each
/// once, behind the files of the other releases.
pub proof fn lemma_release_adds_its_matching_assets(
    repository: Repository,
    releases: Seq<Release>,
    release: Release,
    asset_pattern: Seq<char>,
)
    ensures
        all_jobs(repository, Seq::empty(), asset_pattern).len() == 0,
        ({
            let chosen = release.assets@.filter(
                |asset: Asset| pattern::pattern_is_match(asset_pattern, asset.name@),
            );
            let before = all_jobs(repository, releases, asset_pattern);
            let after = all_jobs(repository, releases.push(release), asset_pattern);
            &&& after.len() == before.len() + chosen.len()
            &&& after.take(before.len() as int) == before
            &&& forall|k: int|
                0 <= k < chosen.len() ==> {
                    let job = after[before.len() + k];
                    &&& job.release == releases.len()
                    &&& job.tag_name == release.tag_name@
                    &&& job.asset_name == (#[trigger] chosen[k]).name@
                    &&& repository.website == GitWebsite::GitHub ==> job.url
                        == "https://api.github.com/repos/"@ + repository.owner@ + "/"@
                        + repository.name@ + "/releases/assets/"@ + text::signed_decimal(
                        chosen[k].id as int,
                    )
                    &&& repository.website != GitWebsite::GitHub ==> job.url
                        == chosen[k].browser_download_url@
                }
        }),
{
    let chosen = release.assets@.filter(
        |asset: Asset| pattern::pattern_is_match(asset_pattern, asset.name@),
    );
    let assets = matching_assets(releases, asset_pattern);
    let more = releases.push(release);
    lemma_assets_of_each_release(more, asset_pattern);
    assert(matching_assets(more, asset_pattern)[releases.len() as int] == chosen);
    assert(matching_assets(more, asset_pattern) == assets.push(chosen));
    lemma_release_adds_jobs(repository, releases, assets, release, chosen);
}

} // verus!
