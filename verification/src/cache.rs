//! The cache of release listings: where a listing is kept, and how long it is used.

use crate::models;
use crate::models::Release;
use crate::repository::Repository;
use crate::text;
use vstd::prelude::*;

verus! {

/// How long a listing is used after it was stored, in seconds: one hour.
pub const CACHE_TTL_SECS: u64 = 3600;

/// A file path that is still to be put together: a base, and the steps that are joined
/// to it one after the other.
#[derive(Debug, PartialEq, Eq)]
pub struct PathSteps {
    pub base: String,
    pub steps: Vec<String>,
}

/// What [`PathSteps`] say.
pub struct PathStepsView {
    pub base: Seq<char>,
    pub steps: Seq<Seq<char>>,
}

impl View for PathSteps {
    type V = PathStepsView;

    open spec fn view(&self) -> PathStepsView {
        PathStepsView { base: self.base@, steps: text::texts(self.steps@) }
    }
}

/// The directory of the cache: `grd` in the user's cache directory, which the
/// environment names in `XDG_CACHE_HOME`, or which is `.cache` in the home directory.
pub open spec fn cache_dir_steps(
    xdg_cache_home: Option<Seq<char>>,
    home: Option<Seq<char>>,
) -> PathStepsView {
    match xdg_cache_home {
        Some(dir) => PathStepsView { base: dir, steps: seq!["grd"@] },
        None => PathStepsView {
            base: match home {
                Some(dir) => dir,
                None => "~"@,
            },
            steps: seq![".cache"@, "grd"@],
        },
    }
}

/// The directory of the cache, given what the environment holds under
/// `XDG_CACHE_HOME` and `HOME`.
pub fn get_cache_dir(xdg_cache_home: Option<&str>, home: Option<&str>) -> (dir: PathSteps)
    ensures
        dir@ == cache_dir_steps(text::optional_text(xdg_cache_home), text::optional_text(home)),
{
    let mut steps: Vec<String> = Vec::new();
    let base = match xdg_cache_home {
        Some(dir) => dir.to_owned(),
        None => {
            steps.push(".cache".to_owned());
            match home {
                Some(dir) => dir.to_owned(),
                None => "~".to_owned(),
            }
        },
    };
    steps.push("grd".to_owned());
    assert(text::texts(steps@) == cache_dir_steps(
        text::optional_text(xdg_cache_home),
        text::optional_text(home),
    ).steps);
    PathSteps { base, steps }
}

/// The file with the listing of a repository.
pub open spec fn cache_path_steps(
    origin: Seq<char>,
    owner: Seq<char>,
    name: Seq<char>,
    xdg_cache_home: Option<Seq<char>>,
    home: Option<Seq<char>>,
) -> PathStepsView {
    let dir = cache_dir_steps(xdg_cache_home, home);
    PathStepsView { base: dir.base, steps: dir.steps + seq![origin, owner, name + ".json"@] }
}

/// The file with the listing of a repository, given what the environment holds under
/// `XDG_CACHE_HOME` and `HOME`.
pub fn get_cache_path(
    repository: &Repository,
    xdg_cache_home: Option<&str>,
    home: Option<&str>,
) -> (path: PathSteps)
    ensures
        path@ == cache_path_steps(
            repository.origin@,
            repository.owner@,
            repository.name@,
            text::optional_text(xdg_cache_home),
            text::optional_text(home),
        ),
{
    let mut path = get_cache_dir(xdg_cache_home, home);
    let ghost dir = path@;
    let mut file_name = repository.name.clone();
    file_name.append(".json");
    path.steps.push(repository.origin.clone());
    path.steps.push(repository.owner.clone());
    path.steps.push(file_name);
    assert(text::texts(path.steps@) == dir.steps + seq![
        repository.origin@,
        repository.owner@,
        repository.name@ + ".json"@,
    ]);
    path
}

/// Listings of different repositories are kept in different places: host, owner and
/// name can be read off the place.
pub proof fn lemma_cache_path_identifies(
    left: (Seq<char>, Seq<char>, Seq<char>),
    right: (Seq<char>, Seq<char>, Seq<char>),
    xdg_cache_home: Option<Seq<char>>,
    home: Option<Seq<char>>,
)
    requires
        cache_path_steps(left.0, left.1, left.2, xdg_cache_home, home) == cache_path_steps(
            right.0,
            right.1,
            right.2,
            xdg_cache_home,
            home,
        ),
    ensures
        left == right,
{
    let dir = cache_dir_steps(xdg_cache_home, home).steps.len() as int;
    let left_steps = cache_path_steps(left.0, left.1, left.2, xdg_cache_home, home).steps;
    let right_steps = cache_path_steps(right.0, right.1, right.2, xdg_cache_home, home).steps;
    assert(left_steps[dir] == left.0);
    assert(right_steps[dir] == right.0);
    assert(left_steps[dir + 1] == left.1);
    assert(right_steps[dir + 1] == right.1);
    assert(left_steps[dir + 2] == left.2 + ".json"@);
    assert(right_steps[dir + 2] == right.2 + ".json"@);
    assert(left.2 == (left.2 + ".json"@).take(left.2.len() as int));
    assert(right.2 == (right.2 + ".json"@).take(right.2.len() as int));
}

/// A listing as it is stored, with the time in seconds since the epoch.
#[derive(Debug, PartialEq, Eq)]
pub struct CachedReleases {
    pub cached_at: u64,
    pub releases: Vec<Release>,
}

/// What [`CachedReleases`] say.
pub struct CachedReleasesView {
    pub cached_at: nat,
    pub releases: Seq<models::ReleaseView>,
}

impl View for CachedReleases {
    type V = CachedReleasesView;

    open spec fn view(&self) -> CachedReleasesView {
        CachedReleasesView {
            cached_at: self.cached_at as nat,
            releases: models::release_views(self.releases@),
        }
    }
}

/// Whether a listing that was stored at one time is still used at another. A clock that
/// was set back makes it no older.
pub open spec fn is_fresh(cached_at: nat, now: nat) -> bool {
    now - cached_at < CACHE_TTL_SECS
}

/// What a stored listing answers at a time: its releases while it is fresh.
pub open spec fn cache_reading(stored: CachedReleasesView, now: nat) -> Option<
    Seq<models::ReleaseView>,
> {
    if is_fresh(stored.cached_at, now) {
        Some(stored.releases)
    } else {
        None
    }
}

/// Reads a stored listing: it is used while it is fresh. `stored` is what the file
/// holds, if it holds a listing, and `now` the time, if the clock gives one.
pub fn read_cache(stored: Option<CachedReleases>, now: Option<u64>) -> (releases: Option<
    Vec<Release>,
>)
    ensures
        match (stored, now) {
            (Some(cached), Some(time)) => match cache_reading(cached@, time as nat) {
                Some(_) => releases == Some(cached.releases),
                None => releases is None,
            },
            _ => releases is None,
        },
        releases is Some <==> stored is Some && now is Some && now->0 < (stored->0).cached_at
            + 3600,
        releases is Some ==> releases->0@ == (stored->0).releases@,
{
    match (stored, now) {
        (Some(cached), Some(time)) => {
            if time.saturating_sub(cached.cached_at) < CACHE_TTL_SECS {
                Some(cached.releases)
            } else {
                None
            }
        },
        _ => None,
    }
}

/// A listing as it is stored at a time. Without a clock it is stored as of the epoch.
pub open spec fn cache_entry(now: Option<nat>, releases: Seq<models::ReleaseView>) -> CachedReleasesView {
    CachedReleasesView {
        cached_at: match now {
            Some(time) => time,
            None => 0,
        },
        releases,
    }
}

/// Makes the entry to be stored for a listing.
pub fn write_cache(now: Option<u64>, releases: &[Release]) -> (cached: CachedReleases)
    ensures
        cached@ == cache_entry(
            match now {
                Some(time) => Some(time as nat),
                None => None,
            },
            models::release_views(releases@),
        ),
        now is Some ==> cached.cached_at == now->0,
        now is None ==> cached.cached_at == 0,
        cached.releases@.len() == releases@.len(),
        forall|i: int|
            0 <= i < releases@.len() ==> {
                &&& (#[trigger] cached.releases@[i]).tag_name == releases@[i].tag_name
                &&& cached.releases@[i].prerelease == releases@[i].prerelease
                &&& cached.releases@[i].assets@ == releases@[i].assets@
            },
{
    let cached_at: u64 = match now {
        Some(time) => time,
        None => 0,
    };
    CachedReleases { cached_at, releases: models::copy_releases(releases) }
}

/// A stored listing is given back for one hour, and not after that.
pub proof fn lemma_stored_for_one_hour(
    written: nat,
    read: nat,
    releases: Seq<models::ReleaseView>,
)
    ensures
        read < written + CACHE_TTL_SECS ==> cache_reading(
            cache_entry(Some(written), releases),
            read,
        ) == Some(releases),
        read >= written + CACHE_TTL_SECS ==> cache_reading(
            cache_entry(Some(written), releases),
            read,
        ) is None,
{
}

/// The cache is in the directory `grd`: of the directory that the environment names for
/// caches, or else of `.cache` in the home directory, or else in that of `~`.
pub proof fn lemma_cache_directory(dir: Seq<char>, home: Option<Seq<char>>)
    ensures
        cache_dir_steps(Some(dir), home).base == dir,
        cache_dir_steps(Some(dir), home).steps == seq!["grd"@],
        cache_dir_steps(None, Some(dir)).base == dir,
        cache_dir_steps(None, None).base == "~"@,
        cache_dir_steps(None, home).steps == seq![".cache"@, "grd"@],
{
}

/// A listing is kept in that directory under host, then owner, then the name with `.json`
/// behind it.
pub proof fn lemma_cache_file(
    origin: Seq<char>,
    owner: Seq<char>,
    name: Seq<char>,
    dir: Seq<char>,
    home: Option<Seq<char>>,
)
    ensures
        cache_path_steps(origin, owner, name, Some(dir), home).base == dir,
        cache_path_steps(origin, owner, name, Some(dir), home).steps == seq![
            "grd"@,
            origin,
            owner,
            name + ".json"@,
        ],
        cache_path_steps(origin, owner, name, None, Some(dir)).base == dir,
        cache_path_steps(origin, owner, name, None, None).base == "~"@,
        cache_path_steps(origin, owner, name, None, home).steps == seq![
            ".cache"@,
            "grd"@,
            origin,
            owner,
            name + ".json"@,
        ],
{
}

/// What is said of a path, or of a stored listing, is what the fields hold.
pub proof fn lemma_stored_says_all(path: PathSteps, stored: CachedReleases)
    ensures
        path@.base == path.base@,
        path@.steps == text::texts(path.steps@),
        stored@.cached_at == stored.cached_at,
        stored@.releases == models::release_views(stored.releases@),
{
}

/// A stored listing is used for less than an hour of seconds, however the clock is set; it
/// is then given back as a whole.
pub proof fn lemma_fresh_for_less_than_an_hour(stored: CachedReleasesView, now: nat)
    ensures
        is_fresh(stored.cached_at, now) <==> now < stored.cached_at + 3600,
        now < stored.cached_at + 3600 ==> cache_reading(stored, now) == Some(stored.releases),
        now >= stored.cached_at + 3600 ==> cache_reading(stored, now) is None,
{
}

/// What is stored are the releases, with the time; without a clock the time is the epoch.
pub proof fn lemma_stored_with_the_time(time: nat, releases: Seq<models::ReleaseView>)
    ensures
        cache_entry(Some(time), releases).cached_at == time,
        cache_entry(None, releases).cached_at == 0,
        cache_entry(Some(time), releases).releases == releases,
        cache_entry(None, releases).releases == releases,
{
}

} // verus!
