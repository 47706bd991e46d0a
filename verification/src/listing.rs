//! Fetching a whole listing of releases, page by page.

use crate::models::Release;
use crate::repository;
use crate::repository::{GitWebsite, Repository};
use crate::text;
use vstd::prelude::*;

verus! {

/// A listing that is being fetched.
pub struct Listing {
    base_url: String,
    website: GitWebsite,
    page: u32,
    releases: Vec<Release>,
}

/// What is known of a listing that is being fetched: where it stands, which page is
/// asked for next, and the releases on the pages before that.
pub struct ListingView {
    pub base_url: Seq<char>,
    pub website: GitWebsite,
    pub page: nat,
    pub releases: Seq<Release>,
}

impl View for Listing {
    type V = ListingView;

    closed spec fn view(&self) -> ListingView {
        ListingView {
            base_url: self.base_url@,
            website: self.website,
            page: self.page as nat,
            releases: self.releases@,
        }
    }
}

/// A listing of which nothing has been fetched yet.
pub open spec fn unfetched(repository: Repository) -> ListingView {
    ListingView {
        base_url: repository::releases_api_url_text(repository),
        website: repository.website,
        page: 1,
        releases: Seq::empty(),
    }
}

/// A listing after one more page. An empty page adds nothing: it is the one behind the
/// last.
pub open spec fn after_page(listing: ListingView, page: Seq<Release>) -> ListingView {
    if page.len() == 0 {
        listing
    } else {
        ListingView { page: listing.page + 1, releases: listing.releases + page, ..listing }
    }
}

/// A listing after some more pages.
pub open spec fn after_pages(listing: ListingView, pages: Seq<Seq<Release>>) -> ListingView
    decreases pages.len(),
{
    if pages.len() == 0 {
        listing
    } else {
        after_page(after_pages(listing, pages.drop_last()), pages.last())
    }
}

impl Listing {
    /// Begins to fetch the releases of a repository, with the first page.
    pub fn begin(repository: &Repository) -> (listing: Listing)
        ensures
            listing@ == unfetched(*repository),
    {
        let listing = Listing {
            base_url: repository::get_releases_api_url(repository),
            website: repository.website,
            page: 1,
            releases: Vec::new(),
        };
        assert(listing@.releases == Seq::<Release>::empty());
        listing
    }

    /// The page that is asked for next.
    pub fn page(&self) -> (page: u32)
        ensures
            page == self@.page,
    {
        self.page
    }

    /// Where the page stands that is asked for next.
    pub fn next_url(&self) -> (url: String)
        ensures
            url@ == repository::page_url_text(self@.base_url, self@.website, self@.page),
    {
        repository::get_page_url(self.base_url.as_str(), &self.website, self.page)
    }

    /// Takes in the page that was asked for, and tells whether to ask for another.
    pub fn accept(&mut self, page_releases: Vec<Release>) -> (more: bool)
        requires
            page_releases@.len() > 0 ==> old(self)@.page < u32::MAX,
        ensures
            final(self)@ == after_page(old(self)@, page_releases@),
            final(self)@.releases == old(self)@.releases + page_releases@,
            final(self)@.page == old(self)@.page + if page_releases@.len() > 0 {
                1int
            } else {
                0int
            },
            final(self)@.base_url == old(self)@.base_url,
            final(self)@.website == old(self)@.website,
            more == (page_releases@.len() > 0),
    {
        if page_releases.is_empty() {
            return false;
        }
        let mut page_releases = page_releases;
        self.releases.append(&mut page_releases);
        self.page += 1;
        true
    }

    /// The releases on the pages so far.
    pub fn releases(&self) -> (releases: &[Release])
        ensures
            releases@ == self@.releases,
    {
        self.releases.as_slice()
    }

    /// The releases of all pages.
    pub fn finish(self) -> (releases: Vec<Release>)
        ensures
            releases@ == self@.releases,
    {
        self.releases
    }
}

/// What is fetched is everything that the website lists: after any non-empty pages, the
/// releases are those of the pages, in order, and the page asked for next is the one
/// behind them. The empty page behind the last changes nothing.
pub proof fn lemma_listing_is_complete(repository: Repository, pages: Seq<Seq<Release>>)
    requires
        forall|i: int| 0 <= i < pages.len() ==> (#[trigger] pages[i]).len() > 0,
    ensures
        after_pages(unfetched(repository), pages).releases == pages.flatten(),
        after_pages(unfetched(repository), pages).page == pages.len() + 1,
        after_pages(unfetched(repository), pages).base_url == unfetched(repository).base_url,
        after_pages(unfetched(repository), pages).website == repository.website,
        after_pages(unfetched(repository), pages.push(Seq::empty())) == after_pages(
            unfetched(repository),
            pages,
        ),
    decreases pages.len(),
{
    assert(pages.push(Seq::empty()).drop_last() == pages);
    if pages.len() > 0 {
        lemma_listing_is_complete(repository, pages.drop_last());
        assert(pages.drop_last().push(pages.last()) == pages);
        pages.drop_last().lemma_flatten_push(pages.last());
    }
}

/// The headers of the requests for a listing: the website's own, then the user's.
pub open spec fn listing_header_texts(website: GitWebsite, headers: Seq<Seq<char>>) -> Seq<
    Seq<char>,
> {
    repository::platform_header_texts(website) + headers
}

/// The headers of the requests for a listing: the website's own, then the user's.
pub fn listing_headers(website: &GitWebsite, headers: &[String]) -> (all: Vec<String>)
    ensures
        text::texts(all@) == listing_header_texts(*website, text::texts(headers@)),
        *website == GitWebsite::GitHub ==> {
            &&& all@.len() == headers@.len() + 1
            &&& all@[0]@ == "X-GitHub-Api-Version: 2022-11-28"@
            &&& forall|i: int| 0 <= i < headers@.len() ==> all@[i + 1]@ == (#[trigger] headers@[i])@
        },
        *website != GitWebsite::GitHub ==> {
            &&& all@.len() == headers@.len()
            &&& forall|i: int| 0 <= i < headers@.len() ==> all@[i]@ == (#[trigger] headers@[i])@
        },
{
    let mut all = repository::get_platform_headers(website);
    let ghost own = all@;
    text::append_copies(&mut all, headers);
    assert(text::texts(all@) == text::texts(own) + text::texts(headers@));
    proof {
        assert(own.len() == text::texts(own).len());
        assert(all@.len() == text::texts(all@).len());
        assert(headers@.len() == text::texts(headers@).len());
        assert(forall|j: int| 0 <= j < all@.len() ==> text::texts(all@)[j] == (#[trigger] all@[j])@);
        assert(forall|j: int|
            0 <= j < headers@.len() ==> text::texts(headers@)[j] == (#[trigger] headers@[j])@);
        assert forall|i: int| 0 <= i < headers@.len() implies all@[own.len() + i]@ == (
        #[trigger] headers@[i])@ by {
            assert(text::texts(all@)[own.len() + i] == text::texts(headers@)[i]);
        }
    }
    all
}

/// The user's headers all come through, in their order, whatever the website is. In front of
/// them stands the version of GitHub's interface on GitHub, and nothing on the others.
pub proof fn lemma_user_headers_come_last(website: GitWebsite, headers: Seq<Seq<char>>)
    ensures
        ({
            let all = listing_header_texts(website, headers);
            let own = all.len() - headers.len();
            &&& own == if website == GitWebsite::GitHub {
                1int
            } else {
                0int
            }
            &&& all.skip(own) == headers
            &&& forall|i: int| 0 <= i < headers.len() ==> all[own + i] == #[trigger] headers[i]
            &&& website == GitWebsite::GitHub ==> all[0] == "X-GitHub-Api-Version: 2022-11-28"@
        }),
{
}

/// One more header of the user's is one more header of the request, behind the others.
pub proof fn lemma_one_more_header(
    website: GitWebsite,
    headers: Seq<Seq<char>>,
    header: Seq<char>,
)
    ensures
        listing_header_texts(website, headers.push(header)) == listing_header_texts(
            website,
            headers,
        ).push(header),
{
}

/// Nothing is known of a listing at first but where it stands, and the first page is the
/// one with the number one.
pub proof fn lemma_listing_begins_at_page_one(repository: Repository)
    ensures
        unfetched(repository).page == 1,
        unfetched(repository).releases.len() == 0,
        unfetched(repository).website == repository.website,
        unfetched(repository).base_url == repository::releases_api_url_text(repository),
{
}

/// A page adds its releases behind those of the pages before, and the next page has the
/// next number. An empty page changes nothing. No page changes where the listing stands.
pub proof fn lemma_page_adds_its_releases(listing: ListingView, page: Seq<Release>)
    ensures
        after_page(listing, page).releases == listing.releases + page,
        page.len() > 0 ==> after_page(listing, page).page == listing.page + 1,
        page.len() == 0 ==> after_page(listing, page).page == listing.page,
        after_page(listing, page).base_url == listing.base_url,
        after_page(listing, page).website == listing.website,
{
}

} // verus!
