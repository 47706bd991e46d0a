//! Releases and their assets, as every supported website lists them.

use vstd::prelude::*;

verus! {

/// One file of a release.
#[derive(Debug, PartialEq, Eq)]
pub struct Asset {
    pub name: String,
    pub id: i64,
    pub browser_download_url: String,
}

/// A tagged release with its files.
#[derive(Debug, PartialEq, Eq)]
pub struct Release {
    pub tag_name: String,
    pub prerelease: bool,
    pub assets: Vec<Asset>,
}

/// What an [`Asset`] says.
pub struct AssetView {
    pub name: Seq<char>,
    pub id: int,
    pub browser_download_url: Seq<char>,
}

/// What a [`Release`] says.
pub struct ReleaseView {
    pub tag_name: Seq<char>,
    pub prerelease: bool,
    pub assets: Seq<AssetView>,
}

impl View for Asset {
    type V = AssetView;

    open spec fn view(&self) -> AssetView {
        AssetView {
            name: self.name@,
            id: self.id as int,
            browser_download_url: self.browser_download_url@,
        }
    }
}

impl View for Release {
    type V = ReleaseView;

    open spec fn view(&self) -> ReleaseView {
        ReleaseView {
            tag_name: self.tag_name@,
            prerelease: self.prerelease,
            assets: self.assets@.map_values(|a: Asset| a@),
        }
    }
}

/// What a list of releases says.
pub open spec fn release_views(releases: Seq<Release>) -> Seq<ReleaseView> {
    releases.map_values(|r: Release| r@)
}

impl Clone for Asset {
    fn clone(&self) -> (copy: Self)
        ensures
            copy == *self,
    {
        Asset {
            name: self.name.clone(),
            id: self.id,
            browser_download_url: self.browser_download_url.clone(),
        }
    }
}

impl Clone for Release {
    fn clone(&self) -> (copy: Self)
        ensures
            copy@ == self@,
            copy.tag_name == self.tag_name,
            copy.prerelease == self.prerelease,
            copy.assets@ == self.assets@,
    {
        let mut assets: Vec<Asset> = Vec::new();
        let mut i: usize = 0;
        while i < self.assets.len()
            invariant
                i <= self.assets@.len(),
                assets@ == self.assets@.take(i as int),
            decreases self.assets@.len() - i,
        {
            assets.push(self.assets[i].clone());
            i += 1;
        }
        assert(assets@ == self.assets@);
        Release { tag_name: self.tag_name.clone(), prerelease: self.prerelease, assets }
    }
}

/// Copies a list of releases.
pub fn copy_releases(releases: &[Release]) -> (copies: Vec<Release>)
    ensures
        release_views(copies@) == release_views(releases@),
        copies@.len() == releases@.len(),
        forall|i: int|
            0 <= i < releases@.len() ==> {
                &&& (#[trigger] copies@[i]).tag_name == releases@[i].tag_name
                &&& copies@[i].prerelease == releases@[i].prerelease
                &&& copies@[i].assets@ == releases@[i].assets@
            },
{
    let mut copies: Vec<Release> = Vec::new();
    let mut i: usize = 0;
    while i < releases.len()
        invariant
            i <= releases@.len(),
            copies@.len() == i,
            forall|j: int| 0 <= j < i ==> (#[trigger] copies@[j])@ == releases@[j]@,
            forall|j: int|
                0 <= j < i ==> {
                    &&& (#[trigger] copies@[j]).tag_name == releases@[j].tag_name
                    &&& copies@[j].prerelease == releases@[j].prerelease
                    &&& copies@[j].assets@ == releases@[j].assets@
                },
        decreases releases@.len() - i,
    {
        copies.push(releases[i].clone());
        i += 1;
    }
    assert(release_views(copies@) == release_views(releases@));
    copies
}

/// What is said of releases is all that their fields hold: those that say the same have
/// the same tags, the same kind, and the same assets with the same names, numbers and
/// addresses.
pub proof fn lemma_releases_say_all(left: Seq<Release>, right: Seq<Release>)
    ensures
        release_views(left) == release_views(right) <==> {
            &&& left.len() == right.len()
            &&& forall|i: int|
                0 <= i < left.len() ==> {
                    &&& (#[trigger] left[i]).tag_name@ == right[i].tag_name@
                    &&& left[i].prerelease == right[i].prerelease
                    &&& left[i].assets@.len() == right[i].assets@.len()
                    &&& forall|k: int|
                        0 <= k < left[i].assets@.len() ==> {
                            &&& (#[trigger] left[i].assets@[k]).name@ == right[i].assets@[k].name@
                            &&& left[i].assets@[k].id == right[i].assets@[k].id
                            &&& left[i].assets@[k].browser_download_url@
                                == right[i].assets@[k].browser_download_url@
                        }
                }
        },
{
    if release_views(left) == release_views(right) {
        assert(left.len() == release_views(left).len());
        assert(right.len() == release_views(right).len());
        assert forall|i: int| 0 <= i < left.len() implies {
            &&& (#[trigger] left[i]).tag_name@ == right[i].tag_name@
            &&& left[i].prerelease == right[i].prerelease
            &&& left[i].assets@.len() == right[i].assets@.len()
            &&& forall|k: int|
                0 <= k < left[i].assets@.len() ==> {
                    &&& (#[trigger] left[i].assets@[k]).name@ == right[i].assets@[k].name@
                    &&& left[i].assets@[k].id == right[i].assets@[k].id
                    &&& left[i].assets@[k].browser_download_url@
                        == right[i].assets@[k].browser_download_url@
                }
        } by {
            assert(release_views(left)[i] == left[i]@);
            assert(release_views(right)[i] == right[i]@);
            assert(left[i]@.assets.len() == left[i].assets@.len());
            assert(right[i]@.assets.len() == right[i].assets@.len());
            assert forall|k: int| 0 <= k < left[i].assets@.len() implies {
                &&& (#[trigger] left[i].assets@[k]).name@ == right[i].assets@[k].name@
                &&& left[i].assets@[k].id == right[i].assets@[k].id
                &&& left[i].assets@[k].browser_download_url@
                    == right[i].assets@[k].browser_download_url@
            } by {
                assert(left[i]@.assets[k] == left[i].assets@[k]@);
                assert(right[i]@.assets[k] == right[i].assets@[k]@);
            }
        }
    }
    if left.len() == right.len() && (forall|i: int|
        0 <= i < left.len() ==> {
            &&& (#[trigger] left[i]).tag_name@ == right[i].tag_name@
            &&& left[i].prerelease == right[i].prerelease
            &&& left[i].assets@.len() == right[i].assets@.len()
            &&& forall|k: int|
                0 <= k < left[i].assets@.len() ==> {
                    &&& (#[trigger] left[i].assets@[k]).name@ == right[i].assets@[k].name@
                    &&& left[i].assets@[k].id == right[i].assets@[k].id
                    &&& left[i].assets@[k].browser_download_url@
                        == right[i].assets@[k].browser_download_url@
                }
        }) {
        assert forall|i: int| 0 <= i < left.len() implies #[trigger] release_views(left)[i]
            == release_views(right)[i] by {
            assert(left[i].tag_name@ == right[i].tag_name@);
            assert forall|k: int| 0 <= k < left[i].assets@.len() implies (
            #[trigger] left[i]@.assets[k]) == right[i]@.assets[k] by {
                assert(left[i].assets@[k].name@ == right[i].assets@[k].name@);
            }
            assert(left[i]@.assets == right[i]@.assets);
        }
        assert(release_views(left) == release_views(right));
    }
}

} // verus!
