//! Getting the releases of a repository: from the cache, or else from the website, page
//! by page, and then into the cache.

use crate::cache;
use crate::cache::CachedReleases;
use crate::listing;
use crate::listing::Listing;
use crate::models;
use crate::models::Release;
use crate::repository;
use crate::repository::Repository;
use vstd::prelude::*;

verus! {

/// What is to be done next.
#[derive(Debug, Clone, Copy, PartialEq, Eq, Structural)]
pub enum FetchPhase {
    /// Look for a stored listing.
    LoadCache,
    /// Ask the website for a page.
    RequestPage,
    /// Nothing: the stored listing is the answer.
    Answered,
    /// Store what the website listed; it is the answer.
    Fetched,
}

/// The releases of a repository that are being got.
pub struct Fetch {
    phase: FetchPhase,
    listing: Listing,
    cached: Vec<Release>,
}

/// The state of a [`Fetch`]: what is to be done next, what the website has listed so far,
/// and the stored listing where that is the answer.
pub struct FetchView {
    pub phase: FetchPhase,
    pub listing: listing::ListingView,
    pub cached: Seq<Release>,
}

impl View for Fetch {
    type V = FetchView;

    closed spec fn view(&self) -> FetchView {
        FetchView { phase: self.phase, listing: self.listing@, cached: self.cached@ }
    }
}

/// How getting the releases begins: with the cache, unless a refresh is forced.
pub open spec fn fetch_begun(repository: Repository, force_refresh: bool) -> FetchView {
    FetchView {
        phase: if force_refresh {
            FetchPhase::RequestPage
        } else {
            FetchPhase::LoadCache
        },
        listing: listing::unfetched(repository),
        cached: Seq::empty(),
    }
}

/// How it goes on from the cache: a fresh listing is the answer, and without one the
/// website is asked.
pub open spec fn after_cache(
    fetch: FetchView,
    stored: Option<CachedReleases>,
    now: Option<u64>,
) -> FetchView {
    match (stored, now) {
        (Some(cached), Some(time)) => if cache::is_fresh(cached.cached_at as nat, time as nat) {
            FetchView { phase: FetchPhase::Answered, cached: cached.releases@, ..fetch }
        } else {
            FetchView { phase: FetchPhase::RequestPage, ..fetch }
        },
        _ => FetchView { phase: FetchPhase::RequestPage, ..fetch },
    }
}

/// How it goes on from a page: with the next one, until one is empty.
pub open spec fn after_fetched_page(fetch: FetchView, page: Seq<Release>) -> FetchView {
    FetchView {
        phase: if page.len() == 0 {
            FetchPhase::Fetched
        } else {
            FetchPhase::RequestPage
        },
        listing: listing::after_page(fetch.listing, page),
        ..fetch
    }
}

/// The releases that were got.
pub open spec fn fetch_result(fetch: FetchView) -> Seq<Release> {
    match fetch.phase {
        FetchPhase::Answered => fetch.cached,
        _ => fetch.listing.releases,
    }
}

/// The state after the pages that the website lists, and the empty one behind them.
pub open spec fn after_all_pages(fetch: FetchView, pages: Seq<Seq<Release>>) -> FetchView
    decreases pages.len(),
{
    if pages.len() == 0 {
        after_fetched_page(fetch, Seq::empty())
    } else {
        after_all_pages(after_fetched_page(fetch, pages.first()), pages.drop_first())
    }
}

impl Fetch {
    /// Begins to get the releases of a repository.
    pub fn begin(repository: &Repository, force_refresh: bool) -> (fetch: Fetch)
        ensures
            fetch@ == fetch_begun(*repository, force_refresh),
    {
        let phase = if force_refresh {
            FetchPhase::RequestPage
        } else {
            FetchPhase::LoadCache
        };
        let fetch = Fetch { phase, listing: Listing::begin(repository), cached: Vec::new() };
        assert(fetch@.cached == Seq::<Release>::empty());
        fetch
    }

    /// What is to be done next.
    pub fn phase(&self) -> (phase: FetchPhase)
        ensures
            phase == self@.phase,
    {
        self.phase
    }

    /// The page that is asked for next.
    pub fn page(&self) -> (page: u32)
        ensures
            page == self@.listing.page,
    {
        self.listing.page()
    }

    /// Where the page stands that is asked for next.
    pub fn next_url(&self) -> (url: String)
        ensures
            url@ == repository::page_url_text(
                self@.listing.base_url,
                self@.listing.website,
                self@.listing.page,
            ),
    {
        self.listing.next_url()
    }

    /// Takes in what the cache holds, if it holds a listing, and the time, if the clock
    /// gives one.
    pub fn on_cache(&mut self, stored: Option<CachedReleases>, now: Option<u64>)
        requires
            old(self)@.phase == FetchPhase::LoadCache,
        ensures
            final(self)@ == after_cache(old(self)@, stored, now),
    {
        match cache::read_cache(stored, now) {
            Some(releases) => {
                self.cached = releases;
                self.phase = FetchPhase::Answered;
            },
            None => {
                self.phase = FetchPhase::RequestPage;
            },
        }
    }

    /// Takes in the page that was asked for.
    pub fn on_page(&mut self, page_releases: Vec<Release>)
        requires
            old(self)@.phase == FetchPhase::RequestPage,
            page_releases@.len() > 0 ==> old(self)@.listing.page < u32::MAX,
        ensures
            final(self)@ == after_fetched_page(old(self)@, page_releases@),
    {
        if self.listing.accept(page_releases) {
            self.phase = FetchPhase::RequestPage;
        } else {
            self.phase = FetchPhase::Fetched;
        }
    }

    /// The entry to be stored at a time: everything that the website listed, if it was
    /// asked.
    pub fn entry(&self, now: Option<u64>) -> (entry: Option<CachedReleases>)
        ensures
            match entry {
                Some(cached) => self@.phase == FetchPhase::Fetched && cached@
                    == cache::cache_entry(
                    match now {
                        Some(time) => Some(time as nat),
                        None => None,
                    },
                    models::release_views(self@.listing.releases),
                ),
                None => self@.phase != FetchPhase::Fetched,
            },
    {
        if self.phase == FetchPhase::Fetched {
            Some(cache::write_cache(now, self.listing.releases()))
        } else {
            None
        }
    }

    /// The releases that were got.
    pub fn finish(self) -> (releases: Vec<Release>)
        requires
            self@.phase == FetchPhase::Answered || self@.phase == FetchPhase::Fetched,
        ensures
            releases@ == fetch_result(self@),
    {
        match self.phase {
            FetchPhase::Answered => self.cached,
            _ => self.listing.finish(),
        }
    }
}

/// A fresh listing in the cache answers without a request. A forced refresh does not
/// look at the cache. Without a fresh listing the website is asked for the first page.
pub proof fn lemma_cache_spares_requests(
    repository: Repository,
    stored: Option<CachedReleases>,
    now: Option<u64>,
)
    ensures
        fetch_begun(repository, true).phase == FetchPhase::RequestPage,
        fetch_begun(repository, false).phase == FetchPhase::LoadCache,
        match (stored, now) {
            (Some(cached), Some(time)) => cache::is_fresh(
                cached.cached_at as nat,
                time as nat,
            ) ==> {
                let answered = after_cache(fetch_begun(repository, false), stored, now);
                answered.phase == FetchPhase::Answered && fetch_result(answered)
                    == cached.releases@
            },
            _ => true,
        },
        !(stored is Some && now is Some && cache::is_fresh(
            (stored->0).cached_at as nat,
            (now->0) as nat,
        )) ==> after_cache(fetch_begun(repository, false), stored, now) == fetch_begun(
            repository,
            true,
        ),
{
}

/// What one run fetched and stored answers every run within the next hour, without a
/// request, unless a refresh is forced. After the hour the website is asked again.
pub proof fn lemma_next_run_is_answered(
    repository: Repository,
    releases: Seq<models::ReleaseView>,
    stored: CachedReleases,
    written: u64,
    now: u64,
)
    requires
        stored@ == cache::cache_entry(Some(written as nat), releases),
    ensures
        ({
            let next = after_cache(fetch_begun(repository, false), Some(stored), Some(now));
            if now < written + cache::CACHE_TTL_SECS {
                next.phase == FetchPhase::Answered && models::release_views(fetch_result(next))
                    == releases
            } else {
                next.phase == FetchPhase::RequestPage
            }
        }),
{
}

/// When the website is asked, every page is asked for once, up to the empty one behind the
/// last; what is got is everything that the website lists, in order, and that is what is
/// stored.
pub proof fn lemma_website_is_read_to_the_end(repository: Repository, pages: Seq<Seq<Release>>)
    requires
        forall|i: int| 0 <= i < pages.len() ==> (#[trigger] pages[i]).len() > 0,
    ensures
        ({
            let fetched = after_all_pages(fetch_begun(repository, true), pages);
            &&& fetched.phase == FetchPhase::Fetched
            &&& fetched.listing.page == pages.len() + 1
            &&& fetched.listing.base_url == repository::releases_api_url_text(repository)
            &&& fetched.listing.website == repository.website
            &&& fetched.listing.releases == pages.flatten()
            &&& fetch_result(fetched) == pages.flatten()
        }),
{
    let begun = fetch_begun(repository, true);
    lemma_pages_add_up(begun, pages);
    assert(begun.listing.releases + pages.flatten() == pages.flatten());
}

proof fn lemma_pages_add_up(fetch: FetchView, pages: Seq<Seq<Release>>)
    requires
        forall|i: int| 0 <= i < pages.len() ==> (#[trigger] pages[i]).len() > 0,
    ensures
        after_all_pages(fetch, pages).phase == FetchPhase::Fetched,
        after_all_pages(fetch, pages).listing.page == fetch.listing.page + pages.len(),
        after_all_pages(fetch, pages).listing.base_url == fetch.listing.base_url,
        after_all_pages(fetch, pages).listing.website == fetch.listing.website,
        after_all_pages(fetch, pages).listing.releases == fetch.listing.releases
            + pages.flatten(),
    decreases pages.len(),
{
    if pages.len() == 0 {
        assert(fetch.listing.releases + pages.flatten() == fetch.listing.releases);
    } else {
        let next = after_fetched_page(fetch, pages.first());
        assert(pages.first() == pages[0]);
        assert forall|i: int| 0 <= i < pages.drop_first().len() implies (
        #[trigger] pages.drop_first()[i]).len() > 0 by {
            assert(pages.drop_first()[i] == pages[i + 1]);
        }
        lemma_pages_add_up(next, pages.drop_first());
        assert(fetch.listing.releases + pages.first() + pages.drop_first().flatten()
            == fetch.listing.releases + pages.flatten());
    }
}

/// Getting the releases begins with nothing, and with the cache unless a refresh is forced.
pub proof fn lemma_fetch_begins(repository: Repository, force_refresh: bool)
    ensures
        ({
            let begun = fetch_begun(repository, force_refresh);
            &&& force_refresh ==> begun.phase == FetchPhase::RequestPage
            &&& !force_refresh ==> begun.phase == FetchPhase::LoadCache
            &&& begun.cached.len() == 0
            &&& begun.listing.releases.len() == 0
            &&& begun.listing.page == 1
            &&& begun.listing.website == repository.website
            &&& begun.listing.base_url == repository::releases_api_url_text(repository)
        }),
{
}

/// A stored listing is the answer exactly if it is there, the clock gives a time, and less
/// than an hour has passed; else the website is asked, as if nothing were stored. Either way
/// nothing of the website's listing is touched.
pub proof fn lemma_stored_listing_answers_for_an_hour(
    fetch: FetchView,
    stored: CachedReleases,
    now: u64,
)
    ensures
        ({
            let next = after_cache(fetch, Some(stored), Some(now));
            &&& now < stored.cached_at + 3600 ==> next.phase == FetchPhase::Answered
                && next.cached == stored.releases@
            &&& now >= stored.cached_at + 3600 ==> next.phase == FetchPhase::RequestPage
                && next.cached == fetch.cached
            &&& next.listing == fetch.listing
        }),
        after_cache(fetch, None, Some(now)).phase == FetchPhase::RequestPage,
        after_cache(fetch, None, None).phase == FetchPhase::RequestPage,
        after_cache(fetch, Some(stored), None).phase == FetchPhase::RequestPage,
        after_cache(fetch, None, Some(now)).listing == fetch.listing,
        after_cache(fetch, None, None).listing == fetch.listing,
        after_cache(fetch, Some(stored), None).listing == fetch.listing,
{
}

/// Pages are asked for until one is empty, and each adds its releases behind the others.
pub proof fn lemma_pages_until_one_is_empty(fetch: FetchView, page: Seq<Release>)
    ensures
        ({
            let next = after_fetched_page(fetch, page);
            &&& page.len() == 0 <==> next.phase == FetchPhase::Fetched
            &&& page.len() > 0 <==> next.phase == FetchPhase::RequestPage
            &&& next.listing.releases == fetch.listing.releases + page
            &&& next.listing.page == fetch.listing.page + if page.len() > 0 {
                1int
            } else {
                0int
            }
            &&& next.listing.base_url == fetch.listing.base_url
            &&& next.listing.website == fetch.listing.website
            &&& next.cached == fetch.cached
        }),
{
}

/// What was got is the stored listing where that answered, and what the website listed where
/// the website was asked.
pub proof fn lemma_what_was_got(fetch: FetchView)
    ensures
        fetch.phase == FetchPhase::Answered ==> fetch_result(fetch) == fetch.cached,
        fetch.phase == FetchPhase::Fetched ==> fetch_result(fetch) == fetch.listing.releases,
{
}

} // verus!
