//! Which releases and which of their assets a request means.

use crate::models::{Asset, Release};
use crate::pattern;
use crate::pattern::{InvalidPattern, Pattern};
use crate::text;
use vstd::prelude::*;

verus! {

/// The releases that may be taken when prereleases are, or are not, allowed.
pub open spec fn allowed(allow_prerelease: bool) -> spec_fn(Release) -> bool {
    |release: Release| allow_prerelease || !release.prerelease
}

/// The allowed releases with the wanted tag, or with any tag where none is given.
pub open spec fn wanted(tag: Option<Seq<char>>, allow_prerelease: bool) -> spec_fn(Release) -> bool {
    |release: Release|
        (allow_prerelease || !release.prerelease) && match tag {
            Some(t) => release.tag_name@ == t,
            None => true,
        }
}

/// The first item, if there is one.
pub open spec fn first<T>(items: Seq<T>) -> Option<T> {
    if items.len() == 0 {
        None
    } else {
        Some(items[0])
    }
}

/// At most the first `count` items.
pub open spec fn at_most<T>(items: Seq<T>, count: nat) -> Seq<T> {
    if items.len() <= count {
        items
    } else {
        items.take(count as int)
    }
}

/// The release that a tag means; without a tag, the latest. Websites list the latest
/// release first.
pub open spec fn found_release(
    releases: Seq<Release>,
    tag: Option<Seq<char>>,
    allow_prerelease: bool,
) -> Option<Release> {
    first(releases.filter(wanted(tag, allow_prerelease)))
}

/// The assets with a name that a pattern matches.
pub open spec fn named_like(pattern: Seq<char>) -> spec_fn(Asset) -> bool {
    |asset: Asset| pattern::pattern_is_match(pattern, asset.name@)
}

/// The first matching asset of the release that a tag means.
pub open spec fn found_asset(
    releases: Seq<Release>,
    tag: Option<Seq<char>>,
    allow_prerelease: bool,
    pattern: Seq<char>,
) -> Option<Asset> {
    match found_release(releases, tag, allow_prerelease) {
        Some(release) => first(release.assets@.filter(named_like(pattern))),
        None => None,
    }
}

/// The items at the positions that are flagged, in order.
pub open spec fn flagged<T>(items: Seq<T>, flags: Seq<bool>) -> Seq<T>
    decreases items.len(),
{
    if items.len() == 0 || flags.len() == 0 {
        Seq::empty()
    } else {
        let rest = flagged(items.drop_last(), flags.drop_last());
        if flags.last() {
            rest.push(items.last())
        } else {
            rest
        }
    }
}

/// One more item is kept by a filter exactly where it satisfies the predicate.
proof fn lemma_filter_step<T>(items: Seq<T>, keep: spec_fn(T) -> bool, i: int)
    requires
        0 <= i < items.len(),
    ensures
        items.take(i + 1).filter(keep) == if keep(items[i]) {
            items.take(i).filter(keep).push(items[i])
        } else {
            items.take(i).filter(keep)
        },
{
    reveal(Seq::filter);
    assert(items.take(i + 1).drop_last() == items.take(i));
    assert(items.take(i + 1).last() == items[i]);
}

/// What a filter keeps of a beginning begins what it keeps of the whole.
proof fn lemma_filter_beginning<T>(items: Seq<T>, keep: spec_fn(T) -> bool, i: int)
    requires
        0 <= i <= items.len(),
    ensures
        items.filter(keep) == items.take(i).filter(keep) + items.skip(i).filter(keep),
{
    assert(items == items.take(i) + items.skip(i));
    Seq::filter_distributes_over_add(items.take(i), items.skip(i), keep);
}

/// A filter of nothing keeps nothing.
proof fn lemma_filter_nothing<T>(items: Seq<T>, keep: spec_fn(T) -> bool)
    ensures
        items.take(0).filter(keep) == Seq::<T>::empty(),
{
    reveal(Seq::filter);
}

/// Flags that say of each item whether it satisfies a predicate pick what a filter
/// keeps.
pub proof fn lemma_flagged_is_filter<T>(items: Seq<T>, flags: Seq<bool>, keep: spec_fn(T) -> bool)
    requires
        flags == items.map_values(keep),
    ensures
        flagged(items, flags) == items.filter(keep),
    decreases items.len(),
{
    reveal(Seq::filter);
    if items.len() > 0 {
        assert(flags.drop_last() == items.drop_last().map_values(keep));
        lemma_flagged_is_filter(items.drop_last(), flags.drop_last(), keep);
    }
}

/// Finds the release that a tag means; without a tag, the latest.
pub fn find_release<'a>(
    releases: &'a [Release],
    tag: Option<&str>,
    allow_prerelease: bool,
) -> (found: Option<&'a Release>)
    ensures
        match found {
            Some(release) => found_release(releases@, text::optional_text(tag), allow_prerelease) == Some(
                *release,
            ),
            None => found_release(releases@, text::optional_text(tag), allow_prerelease) is None,
        },
        match found {
            Some(release) => exists|i: int|
                {
                    &&& 0 <= i < releases@.len()
                    &&& #[trigger] releases@[i] == *release
                    &&& allow_prerelease || !releases@[i].prerelease
                    &&& tag is Some ==> releases@[i].tag_name@ == tag->0@
                    &&& forall|j: int|
                        0 <= j < i ==> (!allow_prerelease && (#[trigger] releases@[j]).prerelease)
                            || (tag is Some && releases@[j].tag_name@ != tag->0@)
                },
            None => forall|j: int|
                0 <= j < releases@.len() ==> (!allow_prerelease && (
                #[trigger] releases@[j]).prerelease) || (tag is Some && releases@[j].tag_name@
                    != tag->0@),
        },
{
    let ghost keep = wanted(text::optional_text(tag), allow_prerelease);
    let mut i: usize = 0;
    proof {
        lemma_filter_nothing(releases@, keep);
    }
    while i < releases.len()
        invariant
            i <= releases@.len(),
            keep == wanted(text::optional_text(tag), allow_prerelease),
            releases@.take(i as int).filter(keep) == Seq::<Release>::empty(),
            forall|j: int|
                0 <= j < i ==> (!allow_prerelease && (#[trigger] releases@[j]).prerelease) || (
                tag is Some && releases@[j].tag_name@ != tag->0@),
        decreases releases@.len() - i,
    {
        let release = &releases[i];
        let tag_fits = match tag {
            Some(t) => text::same_text(release.tag_name.as_str(), t),
            None => true,
        };
        proof {
            lemma_filter_step(releases@, keep, i as int);
            lemma_filter_beginning(releases@, keep, i + 1);
        }
        if (allow_prerelease || !release.prerelease) && tag_fits {
            assert(releases@[i as int] == *release);
            return Some(release);
        }
        i += 1;
    }
    assert(releases@.take(i as int) == releases@);
    None
}

/// Tells of each asset of a release whether its name matches.
pub fn asset_flags(release: &Release, pattern: &Pattern) -> (flags: Vec<bool>)
    ensures
        flags@ == release.assets@.map_values(named_like(pattern@)),
        flags@.len() == release.assets@.len(),
        forall|k: int|
            0 <= k < flags@.len() ==> #[trigger] flags@[k] == pattern::pattern_is_match(
                pattern@,
                release.assets@[k].name@,
            ),
{
    let mut flags: Vec<bool> = Vec::new();
    let mut i: usize = 0;
    while i < release.assets.len()
        invariant
            i <= release.assets@.len(),
            flags@ == release.assets@.take(i as int).map_values(named_like(pattern@)),
        decreases release.assets@.len() - i,
    {
        flags.push(pattern.is_match(release.assets[i].name.as_str()));
        i += 1;
        assert(flags@ == release.assets@.take(i as int).map_values(named_like(pattern@)));
    }
    assert(release.assets@.take(i as int) == release.assets@);
    flags
}

/// The flagged assets of a release, in the order of the release.
pub fn flagged_assets<'a>(release: &'a Release, flags: &[bool]) -> (assets: Vec<&'a Asset>)
    requires
        flags@.len() == release.assets@.len(),
    ensures
        assets@.unref() == flagged(release.assets@, flags@),
{
    let mut assets: Vec<&'a Asset> = Vec::new();
    let mut i: usize = 0;
    while i < release.assets.len()
        invariant
            i <= release.assets@.len(),
            flags@.len() == release.assets@.len(),
            assets@.unref() == flagged(release.assets@.take(i as int), flags@.take(i as int)),
        decreases release.assets@.len() - i,
    {
        assert(release.assets@.take(i + 1).drop_last() == release.assets@.take(i as int));
        assert(flags@.take(i + 1).drop_last() == flags@.take(i as int));
        let ghost before = assets@;
        if flags[i] {
            assets.push(&release.assets[i]);
            assert(assets@.unref() == before.unref().push(release.assets@[i as int]));
        }
        i += 1;
    }
    assert(release.assets@.take(i as int) == release.assets@);
    assert(flags@.take(i as int) == flags@);
    assets
}

/// All assets of a release with a name that the pattern matches, in the order of the
/// release.
pub fn find_assets_in_release<'a>(
    release: &'a Release,
    asset_name_pattern: &Pattern,
) -> (assets: Vec<&'a Asset>)
    ensures
        assets@.unref() == release.assets@.filter(named_like(asset_name_pattern@)),
        assets@.unref() == release.assets@.filter(
            |asset: Asset| pattern::pattern_is_match(asset_name_pattern@, asset.name@),
        ),
{
    let flags = asset_flags(release, asset_name_pattern);
    proof {
        lemma_flagged_is_filter(release.assets@, flags@, named_like(asset_name_pattern@));
        lemma_same_filter(
            release.assets@,
            named_like(asset_name_pattern@),
            |asset: Asset| pattern::pattern_is_match(asset_name_pattern@, asset.name@),
        );
    }
    flagged_assets(release, flags.as_slice())
}

/// The first flagged asset of a release.
pub fn first_flagged_asset<'a>(release: &'a Release, flags: &[bool]) -> (found: Option<&'a Asset>)
    requires
        flags@.len() == release.assets@.len(),
    ensures
        match found {
            Some(asset) => first(flagged(release.assets@, flags@)) == Some(*asset),
            None => first(flagged(release.assets@, flags@)) is None,
        },
{
    let assets = flagged_assets(release, flags);
    if assets.len() == 0 {
        assert(assets@.unref().len() == 0);
        None
    } else {
        assert(assets@.unref()[0] == *assets@[0]);
        Some(assets[0])
    }
}

/// Finds the first asset with a matching name in the release that a tag means.
pub fn find_asset<'a>(
    releases: &'a [Release],
    tag: Option<&str>,
    allow_prerelease: bool,
    asset_name_pattern: &Pattern,
) -> (found: Option<&'a Asset>)
    ensures
        match found {
            Some(asset) => found_asset(
                releases@,
                text::optional_text(tag),
                allow_prerelease,
                asset_name_pattern@,
            ) == Some(*asset),
            None => found_asset(
                releases@,
                text::optional_text(tag),
                allow_prerelease,
                asset_name_pattern@,
            ) is None,
        },
        found matches Some(asset) ==> pattern::pattern_is_match(
            asset_name_pattern@,
            asset.name@,
        ),
        match found_release(releases@, text::optional_text(tag), allow_prerelease) {
            Some(release) => match found {
                Some(asset) => exists|k: int|
                    {
                        &&& 0 <= k < release.assets@.len()
                        &&& #[trigger] release.assets@[k] == *asset
                        &&& forall|j: int|
                            0 <= j < k ==> !pattern::pattern_is_match(
                                asset_name_pattern@,
                                (#[trigger] release.assets@[j]).name@,
                            )
                    },
                None => forall|j: int|
                    0 <= j < release.assets@.len() ==> !pattern::pattern_is_match(
                        asset_name_pattern@,
                        (#[trigger] release.assets@[j]).name@,
                    ),
            },
            None => found is None,
        },
{
    proof {
        lemma_asset_is_found_by_name(
            releases@,
            text::optional_text(tag),
            allow_prerelease,
            asset_name_pattern@,
        );
    }
    match find_release(releases, tag, allow_prerelease) {
        Some(release) => {
            let flags = asset_flags(release, asset_name_pattern);
            proof {
                lemma_flagged_is_filter(release.assets@, flags@, named_like(asset_name_pattern@));
            }
            first_flagged_asset(release, flags.as_slice())
        },
        None => None,
    }
}

/// The tags of the first `count` allowed releases.
pub open spec fn listed_tags(releases: Seq<Release>, allow_prerelease: bool, count: nat) -> Seq<
    Seq<char>,
> {
    at_most(releases.filter(allowed(allow_prerelease)), count).map_values(
        |release: Release| release.tag_name@,
    )
}

/// Lists the tags of the first `count` releases, of those that are allowed.
pub fn list_release_tags(releases: &[Release], allow_prerelease: bool, count: usize) -> (tags: Vec<
    String,
>)
    ensures
        text::texts(tags@) == listed_tags(releases@, allow_prerelease, count as nat),
        allow_prerelease ==> {
            &&& tags@.len() == if count < releases@.len() {
                count as nat
            } else {
                releases@.len()
            }
            &&& forall|i: int|
                0 <= i < tags@.len() ==> (#[trigger] tags@[i])@ == releases@[i].tag_name@
        },
        !allow_prerelease && tags@.len() < count ==> forall|i: int|
            0 <= i < releases@.len() && !(#[trigger] releases@[i]).prerelease
                ==> text::texts(tags@).contains(releases@[i].tag_name@),
{
    let ghost keep = allowed(allow_prerelease);
    let ghost tag_of = |release: Release| release.tag_name@;
    let mut tags: Vec<String> = Vec::new();
    let mut i: usize = 0;
    proof {
        lemma_filter_nothing(releases@, keep);
    }
    while i < releases.len() && tags.len() < count
        invariant
            i <= releases@.len(),
            keep == allowed(allow_prerelease),
            tag_of == (|release: Release| release.tag_name@),
            tags@.len() <= count,
            text::texts(tags@) == releases@.take(i as int).filter(keep).map_values(tag_of),
        decreases releases@.len() - i,
    {
        let release = &releases[i];
        let ghost before = tags@;
        proof {
            lemma_filter_step(releases@, keep, i as int);
        }
        if allow_prerelease || !release.prerelease {
            tags.push(release.tag_name.clone());
            assert(text::texts(tags@) == text::texts(before).push(release.tag_name@));
            assert(releases@.take(i + 1).filter(keep).map_values(tag_of) == releases@.take(
                i as int,
            ).filter(keep).map_values(tag_of).push(release.tag_name@));
        }
        i += 1;
    }
    proof {
        lemma_filter_beginning(releases@, keep, i as int);
        let kept = releases@.take(i as int).filter(keep);
        assert(kept.len() == text::texts(tags@).len());
        if i == releases@.len() {
            assert(releases@.take(i as int) == releases@);
            assert(at_most(releases@.filter(keep), count as nat) == kept);
        } else {
            assert(at_most(releases@.filter(keep), count as nat) == kept);
        }
        lemma_all_kinds_are_listed(releases@, count as nat);
        lemma_full_releases_are_listed(releases@, count as nat);
        assert(text::texts(tags@).len() == tags@.len());
        assert forall|n: int| 0 <= n < tags@.len() implies (#[trigger] tags@[n])@ == text::texts(
            tags@,
        )[n] by {}
    }
    tags
}

/// Why a query for the assets of a release has no answer.
#[derive(Debug)]
pub enum AssetQueryError {
    /// No release fits; the text tells which one was looked for.
    ReleaseNotFound(String),
    /// The pattern for the names does not compile.
    InvalidPattern(InvalidPattern),
}

/// What is told when no release has the wanted tag, or when there is none to take.
pub open spec fn release_not_found_text(tag: Option<Seq<char>>) -> Seq<char> {
    match tag {
        Some(t) => "Could not find release with tag \""@ + t + "\""@,
        None => "Could not find latest tag"@,
    }
}

/// Tells which release was not found.
pub fn release_not_found(tag: Option<&str>) -> (message: String)
    ensures
        message@ == release_not_found_text(text::optional_text(tag)),
{
    match tag {
        Some(t) => {
            let mut message = "Could not find release with tag \"".to_owned();
            message.append(t);
            message.append("\"");
            message
        },
        None => "Could not find latest tag".to_owned(),
    }
}

/// The names of some assets.
pub open spec fn asset_names(assets: Seq<Asset>) -> Seq<Seq<char>> {
    assets.map_values(|asset: Asset| asset.name@)
}

/// Copies the names of some assets.
pub fn names_of(assets: &Vec<&Asset>) -> (names: Vec<String>)
    ensures
        text::texts(names@) == asset_names(assets@.unref()),
{
    let mut names: Vec<String> = Vec::new();
    let mut i: usize = 0;
    while i < assets.len()
        invariant
            i <= assets@.len(),
            names@.len() == i,
            forall|j: int| 0 <= j < i ==> (#[trigger] names@[j])@ == assets@[j].name@,
        decreases assets@.len() - i,
    {
        names.push(assets[i].name.clone());
        i += 1;
    }
    assert(text::texts(names@) == asset_names(assets@.unref()));
    names
}

/// Answers a query for the assets of a release, given the pattern for their names or
/// its rejection. With a tag, the release may be a prerelease: whoever gives a tag has
/// chosen the release explicitly. Without one, prereleases are passed over. That the
/// release is missing is told before anything about the pattern.
pub fn query_assets_compiled(
    releases: &[Release],
    tag: Option<&str>,
    compiled: Result<Pattern, InvalidPattern>,
) -> (names: Result<Vec<String>, AssetQueryError>)
    ensures
        match found_release(releases@, text::optional_text(tag), tag is Some) {
            None => names matches Err(AssetQueryError::ReleaseNotFound(message)) && message@
                == release_not_found_text(text::optional_text(tag)),
            Some(release) => match compiled {
                Err(invalid) => names matches Err(AssetQueryError::InvalidPattern(e)) && e
                    == invalid,
                Ok(pattern) => names matches Ok(list) && text::texts(list@) == asset_names(
                    release.assets@.filter(named_like(pattern@)),
                ),
            },
        },
{
    match find_release(releases, tag, tag.is_some()) {
        None => Err(AssetQueryError::ReleaseNotFound(release_not_found(tag))),
        Some(release) => match compiled {
            Err(invalid) => Err(AssetQueryError::InvalidPattern(invalid)),
            Ok(pattern) => Ok(names_of(&find_assets_in_release(release, &pattern))),
        },
    }
}

/// Answers a query for the names of those assets of a release that a pattern matches.
pub fn query_assets(releases: &[Release], tag: Option<&str>, asset_pattern: &str) -> (names: Result<
    Vec<String>,
    AssetQueryError,
>)
    ensures
        match found_release(releases@, text::optional_text(tag), tag is Some) {
            None => names matches Err(AssetQueryError::ReleaseNotFound(message)) && message@
                == release_not_found_text(text::optional_text(tag)),
            Some(release) => match names {
                Ok(list) => text::texts(list@) == asset_names(
                    release.assets@.filter(named_like(asset_pattern@)),
                ),
                Err(AssetQueryError::InvalidPattern(e)) => e.pattern@ == asset_pattern@,
                Err(AssetQueryError::ReleaseNotFound(_)) => false,
            },
        },
{
    query_assets_compiled(releases, tag, Pattern::compile(asset_pattern))
}

/// What is told when no asset fits.
pub open spec fn asset_not_found_text(
    pattern: Seq<char>,
    tag: Option<Seq<char>>,
    repository: Seq<char>,
) -> Seq<char> {
    let place = match tag {
        Some(t) => "tag \""@ + t + "\""@,
        None => "latest tag"@,
    };
    "Could not find Pattern \""@ + pattern + "\" in "@ + place
        + " in releases of repository \""@ + repository + "\""@
}

/// Tells which asset was not found.
pub fn asset_not_found(asset_pattern: &str, tag: Option<&str>, repository: &str) -> (message: String)
    ensures
        message@ == asset_not_found_text(asset_pattern@, text::optional_text(tag), repository@),
{
    let place = match tag {
        Some(t) => {
            let mut place = "tag \"".to_owned();
            place.append(t);
            place.append("\"");
            place
        },
        None => "latest tag".to_owned(),
    };
    let mut message = "Could not find Pattern \"".to_owned();
    message.append(asset_pattern);
    message.append("\" in ");
    message.append(place.as_str());
    message.append(" in releases of repository \"");
    message.append(repository);
    message.append("\"");
    message
}

/// Hands on the asset that was found, or tells which one was not.
pub fn asset_or_told<'a>(
    found: Option<&'a Asset>,
    asset_pattern: &str,
    tag: Option<&str>,
    repository: &str,
) -> (told: Result<&'a Asset, String>)
    ensures
        match found {
            Some(asset) => told == Ok::<&'a Asset, String>(asset),
            None => told matches Err(message) && message@ == asset_not_found_text(
                asset_pattern@,
                text::optional_text(tag),
                repository@,
            ),
        },
{
    match found {
        Some(asset) => Ok(asset),
        None => Err(asset_not_found(asset_pattern, tag, repository)),
    }
}

/// Finds the asset to download, or tells which one was not found. `repository` is the
/// repository as the user wrote it.
pub fn get_asset<'a>(
    releases: &'a [Release],
    tag: Option<&str>,
    allow_prerelease: bool,
    asset_pattern: &Pattern,
    repository: &str,
) -> (found: Result<&'a Asset, String>)
    ensures
        match found_asset(releases@, text::optional_text(tag), allow_prerelease, asset_pattern@) {
            Some(asset) => found matches Ok(a) && *a == asset,
            None => found matches Err(message) && message@ == asset_not_found_text(
                asset_pattern@,
                text::optional_text(tag),
                repository@,
            ),
        },
{
    let found = find_asset(releases, tag, allow_prerelease, asset_pattern);
    asset_or_told(found, asset_pattern.as_str(), tag, repository)
}

/// The release that is found is the first in the listing that is allowed and has the
/// wanted tag. In particular a prerelease is never taken unless that is allowed.
pub proof fn lemma_found_release_is_first(
    releases: Seq<Release>,
    tag: Option<Seq<char>>,
    allow_prerelease: bool,
)
    ensures
        match found_release(releases, tag, allow_prerelease) {
            Some(release) => {
                &&& release.prerelease ==> allow_prerelease
                &&& tag matches Some(t) ==> release.tag_name@ == t
                &&& exists|i: int|
                    {
                        &&& 0 <= i < releases.len()
                        &&& #[trigger] releases[i] == release
                        &&& forall|j: int|
                            0 <= j < i ==> !wanted(tag, allow_prerelease)(#[trigger] releases[j])
                    }
            },
            None => forall|i: int|
                0 <= i < releases.len() ==> !wanted(tag, allow_prerelease)(#[trigger] releases[i]),
        },
    decreases releases.len(),
{
    let keep = wanted(tag, allow_prerelease);
    reveal(Seq::filter);
    if releases.len() > 0 {
        let front = releases.drop_last();
        let last = releases.len() - 1;
        lemma_found_release_is_first(front, tag, allow_prerelease);
        assert(forall|j: int| 0 <= j < front.len() ==> front[j] == releases[j]);
        match found_release(front, tag, allow_prerelease) {
            Some(release) => {
                let i = choose|i: int|
                    {
                        &&& 0 <= i < front.len()
                        &&& #[trigger] front[i] == release
                        &&& forall|j: int| 0 <= j < i ==> !keep(#[trigger] front[j])
                    };
                assert(releases[i] == release);
                assert(forall|j: int| 0 <= j < i ==> front[j] == #[trigger] releases[j]);
                assert(found_release(releases, tag, allow_prerelease) == Some(release));
            },
            None => {
                assert(front.filter(keep).len() == 0);
                if keep(releases[last]) {
                    assert(releases.filter(keep)[0] == releases[last]);
                }
            },
        }
    }
}

/// The latest release is the first that is listed: a listing of one tag gives the tag of
/// the release that is found without a tag.
pub proof fn lemma_latest_is_listed_first(releases: Seq<Release>, allow_prerelease: bool)
    ensures
        listed_tags(releases, allow_prerelease, 1) == match found_release(
            releases,
            None,
            allow_prerelease,
        ) {
            Some(release) => seq![release.tag_name@],
            None => Seq::empty(),
        },
{
    lemma_same_filter(releases, allowed(allow_prerelease), wanted(None, allow_prerelease));
}

/// Predicates that agree keep the same.
proof fn lemma_same_filter<T>(items: Seq<T>, left: spec_fn(T) -> bool, right: spec_fn(T) -> bool)
    requires
        forall|item: T| left(item) == #[trigger] right(item),
    ensures
        items.filter(left) == items.filter(right),
    decreases items.len(),
{
    reveal(Seq::filter);
    if items.len() > 0 {
        lemma_same_filter(items.drop_last(), left, right);
        assert(left(items.last()) == right(items.last()));
    }
}

/// A listing has no more tags than asked for, and a longer listing begins with a shorter
/// one.
pub proof fn lemma_listings_extend(
    releases: Seq<Release>,
    allow_prerelease: bool,
    fewer: nat,
    more: nat,
)
    requires
        fewer <= more,
    ensures
        listed_tags(releases, allow_prerelease, fewer).len() <= fewer,
        listed_tags(releases, allow_prerelease, fewer).is_prefix_of(
            listed_tags(releases, allow_prerelease, more),
        ),
{
    assert(listed_tags(releases, allow_prerelease, fewer) == listed_tags(
        releases,
        allow_prerelease,
        more,
    ).take(listed_tags(releases, allow_prerelease, fewer).len() as int));
}

/// The asset that is downloaded is the first that a query lists for the same release and
/// pattern.
pub proof fn lemma_download_is_first_listed(
    releases: Seq<Release>,
    tag: Option<Seq<char>>,
    allow_prerelease: bool,
    pattern: Seq<char>,
)
    requires
        found_release(releases, tag, allow_prerelease) is Some,
    ensures
        ({
            let release = found_release(releases, tag, allow_prerelease)->0;
            let listed = asset_names(release.assets@.filter(named_like(pattern)));
            match found_asset(releases, tag, allow_prerelease, pattern) {
                Some(asset) => listed.len() > 0 && listed[0] == asset.name@,
                None => listed.len() == 0,
            }
        }),
{
}

/// Whether a release may be taken depends on whether it is a prerelease, and for a wanted
/// tag on its tag: on nothing else, not on its assets.
pub proof fn lemma_releases_are_chosen_by_kind_and_tag(
    release: Release,
    tag: Seq<char>,
    allow_prerelease: bool,
)
    ensures
        allowed(allow_prerelease)(release) <==> allow_prerelease || !release.prerelease,
        wanted(None, allow_prerelease)(release) <==> allow_prerelease || !release.prerelease,
        wanted(Some(tag), allow_prerelease)(release) <==> (allow_prerelease || !release.prerelease)
            && release.tag_name@ == tag,
{
}

/// Where the release that is found stands in the listing: the first that may be taken and has
/// the wanted tag, or the end.
proof fn lemma_found_release_position(
    releases: Seq<Release>,
    tag: Option<Seq<char>>,
    allow_prerelease: bool,
) -> (position: int)
    ensures
        0 <= position <= releases.len(),
        found_release(releases, tag, allow_prerelease) == if position < releases.len() {
            Some(releases[position])
        } else {
            None
        },
        position < releases.len() ==> wanted(tag, allow_prerelease)(releases[position]),
        forall|j: int|
            0 <= j < position ==> !wanted(tag, allow_prerelease)(#[trigger] releases[j]),
    decreases releases.len(),
{
    reveal(Seq::filter);
    if releases.len() == 0 {
        0
    } else {
        let keep = wanted(tag, allow_prerelease);
        let front = releases.drop_last();
        let last = releases.len() - 1;
        let position = lemma_found_release_position(front, tag, allow_prerelease);
        assert(forall|j: int| 0 <= j < last ==> front[j] == #[trigger] releases[j]);
        if position < last {
            position
        } else if keep(releases[last]) {
            assert(releases.filter(keep) == front.filter(keep).push(releases[last]));
            last
        } else {
            assert(releases.filter(keep) == front.filter(keep));
            releases.len() as int
        }
    }
}

/// The release that is found stands in the listing, may be taken and has the wanted tag, and
/// every release before it is a prerelease that may not be taken, or has another tag. None is
/// found only if that holds of every release.
pub proof fn lemma_release_is_found_in_order(
    releases: Seq<Release>,
    tag: Option<Seq<char>>,
    allow_prerelease: bool,
)
    ensures
        match found_release(releases, tag, allow_prerelease) {
            Some(release) => exists|i: int|
                {
                    &&& 0 <= i < releases.len()
                    &&& #[trigger] releases[i] == release
                    &&& allow_prerelease || !releases[i].prerelease
                    &&& tag is Some ==> releases[i].tag_name@ == tag->0
                    &&& forall|j: int|
                        0 <= j < i ==> (!allow_prerelease && (#[trigger] releases[j]).prerelease)
                            || (tag is Some && releases[j].tag_name@ != tag->0)
                },
            None => forall|j: int|
                0 <= j < releases.len() ==> (!allow_prerelease && (
                #[trigger] releases[j]).prerelease) || (tag is Some && releases[j].tag_name@
                    != tag->0),
        },
{
    let i = lemma_found_release_position(releases, tag, allow_prerelease);
    if i < releases.len() {
        assert(wanted(tag, allow_prerelease)(releases[i]));
    }
    assert forall|j: int| 0 <= j < i implies (!allow_prerelease && (
    #[trigger] releases[j]).prerelease) || (tag is Some && releases[j].tag_name@ != tag->0) by {
        lemma_releases_are_chosen_by_kind_and_tag(releases[j], tag->0, allow_prerelease);
        assert(!wanted(tag, allow_prerelease)(releases[j]));
    }
}

/// Without a tag there is a release to take unless there are none, or only prereleases that
/// may not be taken. Where prereleases may be taken it is the very first.
pub proof fn lemma_latest_release(releases: Seq<Release>, allow_prerelease: bool)
    ensures
        found_release(releases, None, allow_prerelease) is None <==> releases.len() == 0 || (
        !allow_prerelease && forall|i: int|
            0 <= i < releases.len() ==> (#[trigger] releases[i]).prerelease),
        releases.len() > 0 ==> found_release(releases, None, true) == Some(releases[0]),
        releases.len() > 0 && !releases[0].prerelease ==> found_release(
            releases,
            None,
            allow_prerelease,
        ) == Some(releases[0]),
{
    lemma_release_is_found_in_order(releases, None, allow_prerelease);
    lemma_release_is_found_in_order(releases, None, true);
    if releases.len() > 0 {
        assert(releases[0] == releases[0]);
    }
}

/// Which release is found does not depend on the assets: releases of the same kinds and tags
/// give the one at the same position.
pub proof fn lemma_assets_do_not_matter(
    left: Seq<Release>,
    right: Seq<Release>,
    tag: Option<Seq<char>>,
    allow_prerelease: bool,
)
    requires
        left.len() == right.len(),
        forall|i: int|
            0 <= i < left.len() ==> (#[trigger] left[i]).prerelease == right[i].prerelease
                && left[i].tag_name@ == right[i].tag_name@,
    ensures
        match found_release(left, tag, allow_prerelease) {
            Some(release) => exists|i: int|
                0 <= i < left.len() && #[trigger] left[i] == release && found_release(
                    right,
                    tag,
                    allow_prerelease,
                ) == Some(right[i]),
            None => found_release(right, tag, allow_prerelease) is None,
        },
    decreases left.len(),
{
    reveal(Seq::filter);
    let keep = wanted(tag, allow_prerelease);
    if left.len() > 0 {
        let last = left.len() - 1;
        let left_front = left.drop_last();
        let right_front = right.drop_last();
        assert(forall|i: int|
            0 <= i < last ==> left_front[i] == #[trigger] left[i] && right_front[i] == right[i]);
        lemma_assets_do_not_matter(left_front, right_front, tag, allow_prerelease);
        assert(keep(left[last]) == keep(right[last]));
        match found_release(left_front, tag, allow_prerelease) {
            Some(release) => {
                let i = choose|i: int|
                    0 <= i < left_front.len() && #[trigger] left_front[i] == release
                        && found_release(right_front, tag, allow_prerelease) == Some(
                        right_front[i],
                    );
                assert(left[i] == release);
                assert(found_release(left, tag, allow_prerelease) == Some(release));
                assert(found_release(right, tag, allow_prerelease) == Some(right[i]));
            },
            None => {
                if keep(left[last]) {
                    assert(left.filter(keep) == left_front.filter(keep).push(left[last]));
                    assert(right.filter(keep) == right_front.filter(keep).push(right[last]));
                    assert(found_release(left, tag, allow_prerelease) == Some(left[last]));
                }
            },
        }
    }
}

/// Whether an asset is meant depends on its name alone: assets of the same name are treated
/// alike, whatever their numbers and addresses.
pub proof fn lemma_assets_are_chosen_by_name(pattern: Seq<char>, asset: Asset, other: Asset)
    ensures
        named_like(pattern)(asset) <==> pattern::pattern_is_match(pattern, asset.name@),
        asset.name@ == other.name@ ==> named_like(pattern)(asset) == named_like(pattern)(other),
{
}

/// One more asset is listed, behind the others, exactly if the pattern matches its name.
pub proof fn lemma_matching_assets_grow(pattern: Seq<char>, assets: Seq<Asset>, asset: Asset)
    ensures
        Seq::<Asset>::empty().filter(named_like(pattern)).len() == 0,
        pattern::pattern_is_match(pattern, asset.name@) ==> assets.push(asset).filter(
            named_like(pattern),
        ) == assets.filter(named_like(pattern)).push(asset),
        !pattern::pattern_is_match(pattern, asset.name@) ==> assets.push(asset).filter(
            named_like(pattern),
        ) == assets.filter(named_like(pattern)),
{
    reveal(Seq::filter);
    assert(assets.push(asset).drop_last() == assets);
}

/// What is first among the assets that a pattern matches by name.
proof fn lemma_first_by_name(pattern: Seq<char>, assets: Seq<Asset>)
    ensures
        match first(assets.filter(named_like(pattern))) {
            Some(asset) => exists|k: int|
                {
                    &&& 0 <= k < assets.len()
                    &&& #[trigger] assets[k] == asset
                    &&& pattern::pattern_is_match(pattern, assets[k].name@)
                    &&& forall|j: int|
                        0 <= j < k ==> !pattern::pattern_is_match(
                            pattern,
                            (#[trigger] assets[j]).name@,
                        )
                },
            None => forall|j: int|
                0 <= j < assets.len() ==> !pattern::pattern_is_match(
                    pattern,
                    (#[trigger] assets[j]).name@,
                ),
        },
    decreases assets.len(),
{
    reveal(Seq::filter);
    if assets.len() > 0 {
        let front = assets.drop_last();
        let last = assets.len() - 1;
        let keep = named_like(pattern);
        lemma_first_by_name(pattern, front);
        assert(forall|j: int| 0 <= j < last ==> front[j] == #[trigger] assets[j]);
        match first(front.filter(keep)) {
            Some(asset) => {
                let k = choose|k: int|
                    {
                        &&& 0 <= k < front.len()
                        &&& #[trigger] front[k] == asset
                        &&& pattern::pattern_is_match(pattern, front[k].name@)
                        &&& forall|j: int|
                            0 <= j < k ==> !pattern::pattern_is_match(
                                pattern,
                                (#[trigger] front[j]).name@,
                            )
                    };
                assert(assets[k] == asset);
                assert(first(assets.filter(keep)) == Some(asset));
            },
            None => {
                if keep(assets[last]) {
                    assert(assets.filter(keep) == front.filter(keep).push(assets[last]));
                    assert(assets.filter(keep)[0] == assets[last]);
                }
            },
        }
    }
}

/// The asset that is found has a name that the pattern matches, and no asset of the release
/// before it has one. None is found in a release only if the pattern matches the name of none
/// of its assets.
pub proof fn lemma_asset_is_found_by_name(
    releases: Seq<Release>,
    tag: Option<Seq<char>>,
    allow_prerelease: bool,
    pattern: Seq<char>,
)
    ensures
        match found_release(releases, tag, allow_prerelease) {
            Some(release) => match found_asset(releases, tag, allow_prerelease, pattern) {
                Some(asset) => exists|k: int|
                    {
                        &&& 0 <= k < release.assets@.len()
                        &&& #[trigger] release.assets@[k] == asset
                        &&& pattern::pattern_is_match(pattern, release.assets@[k].name@)
                        &&& forall|j: int|
                            0 <= j < k ==> !pattern::pattern_is_match(
                                pattern,
                                (#[trigger] release.assets@[j]).name@,
                            )
                    },
                None => forall|j: int|
                    0 <= j < release.assets@.len() ==> !pattern::pattern_is_match(
                        pattern,
                        (#[trigger] release.assets@[j]).name@,
                    ),
            },
            None => found_asset(releases, tag, allow_prerelease, pattern) is None,
        },
{
    match found_release(releases, tag, allow_prerelease) {
        Some(release) => {
            lemma_first_by_name(pattern, release.assets@);
        },
        None => {},
    }
}

/// One more flagged item is picked, behind the others; one more that is not flagged is not.
pub proof fn lemma_flags_pick<T>(items: Seq<T>, flags: Seq<bool>, item: T)
    requires
        items.len() == flags.len(),
    ensures
        flagged(Seq::<T>::empty(), Seq::<bool>::empty()).len() == 0,
        flagged(items.push(item), flags.push(true)) == flagged(items, flags).push(item),
        flagged(items.push(item), flags.push(false)) == flagged(items, flags),
{
    assert(items.push(item).drop_last() == items);
    assert(flags.push(true).drop_last() == flags);
    assert(flags.push(false).drop_last() == flags);
}

/// What is first of some items is the one in front, and what is taken of them is their
/// beginning.
pub proof fn lemma_beginnings<T>(item: T, rest: Seq<T>, count: nat)
    ensures
        first(Seq::<T>::empty()) is None,
        first(seq![item] + rest) == Some(item),
        count <= rest.len() ==> at_most(rest, count) == rest.take(count as int),
        rest.len() <= count ==> at_most(rest, count) == rest,
{
}

/// One more release adds its tag behind the others if it may be taken and fewer tags are
/// listed than asked for; whether it has assets does not matter.
pub proof fn lemma_listing_grows(
    releases: Seq<Release>,
    release: Release,
    allow_prerelease: bool,
    count: nat,
)
    ensures
        listed_tags(Seq::empty(), allow_prerelease, count).len() == 0,
        ({
            let before = listed_tags(releases, allow_prerelease, count);
            let after = listed_tags(releases.push(release), allow_prerelease, count);
            if (allow_prerelease || !release.prerelease) && before.len() < count {
                after == before.push(release.tag_name@)
            } else {
                after == before
            }
        }),
{
    reveal(Seq::filter);
    assert(releases.push(release).drop_last() == releases);
}

/// A filter that keeps every item keeps the items.
proof fn lemma_filter_everything<T>(items: Seq<T>, keep: spec_fn(T) -> bool)
    requires
        forall|item: T| #[trigger] keep(item),
    ensures
        items.filter(keep) == items,
    decreases items.len(),
{
    reveal(Seq::filter);
    if items.len() > 0 {
        lemma_filter_everything(items.drop_last(), keep);
        assert(keep(items.last()));
        assert(items.drop_last().push(items.last()) == items);
    }
}

/// Where prereleases are allowed, what is listed are the tags of the first releases, as many
/// as asked for or as there are.
pub proof fn lemma_all_kinds_are_listed(releases: Seq<Release>, count: nat)
    ensures
        ({
            let tags = listed_tags(releases, true, count);
            &&& tags.len() == if count < releases.len() {
                count
            } else {
                releases.len()
            }
            &&& forall|i: int|
                0 <= i < tags.len() ==> #[trigger] tags[i] == releases[i].tag_name@
        }),
{
    lemma_filter_everything(releases, allowed(true));
}

/// Where prereleases are not allowed, every other release is listed while fewer tags are
/// listed than asked for, at the place that counts those before it; and nothing else is.
pub proof fn lemma_full_releases_are_listed(releases: Seq<Release>, count: nat)
    ensures
        ({
            let tags = listed_tags(releases, false, count);
            &&& forall|i: int|
                {
                    let place = releases.take(i).filter(|r: Release| !r.prerelease).len();
                    0 <= i < releases.len() && !(#[trigger] releases[i]).prerelease && place
                        < count ==> place < tags.len() && tags[place as int]
                        == releases[i].tag_name@
                }
            &&& forall|i: int|
                0 <= i < releases.len() && !(#[trigger] releases[i]).prerelease && tags.len()
                    < count ==> tags.contains(releases[i].tag_name@)
            &&& forall|n: int|
                0 <= n < tags.len() ==> exists|i: int|
                    0 <= i < releases.len() && !(#[trigger] releases[i]).prerelease
                        && releases[i].tag_name@ == #[trigger] tags[n]
        }),
    decreases releases.len(),
{
    let tags = listed_tags(releases, false, count);
    let full = |r: Release| !r.prerelease;
    reveal(Seq::filter);
    if releases.len() > 0 {
        let front = releases.drop_last();
        let last = releases.len() - 1;
        let before = listed_tags(front, false, count);
        lemma_full_releases_are_listed(front, count);
        assert(front.push(releases[last]) == releases);
        lemma_listing_grows(front, releases[last], false, count);
        lemma_same_filter(front, full, allowed(false));
        assert(before.len() == if front.filter(full).len() <= count {
            front.filter(full).len()
        } else {
            count
        });
        assert(releases.take(last) == front);
        assert forall|i: int|
            {
                let place = releases.take(i).filter(|r: Release| !r.prerelease).len();
                0 <= i < releases.len() && !(#[trigger] releases[i]).prerelease && place < count
                    ==> place < tags.len() && tags[place as int] == releases[i].tag_name@
            } by {
            let place = releases.take(i).filter(|r: Release| !r.prerelease).len();
            if 0 <= i < last && !releases[i].prerelease && place < count {
                assert(front[i] == releases[i]);
                assert(front.take(i) == releases.take(i));
                assert(before[place as int] == tags[place as int]);
            }
        }
        assert forall|i: int|
            0 <= i < releases.len() && !(#[trigger] releases[i]).prerelease && tags.len()
                < count implies tags.contains(releases[i].tag_name@) by {
            if i < last {
                assert(front[i] == releases[i]);
                assert(before.contains(releases[i].tag_name@));
                let n = choose|n: int|
                    0 <= n < before.len() && before[n] == releases[i].tag_name@;
                assert(tags[n] == before[n]);
            } else {
                assert(tags[tags.len() - 1] == releases[last].tag_name@);
            }
        }
        assert forall|n: int| 0 <= n < tags.len() implies exists|i: int|
            0 <= i < releases.len() && !(#[trigger] releases[i]).prerelease
                && releases[i].tag_name@ == #[trigger] tags[n] by {
            if n < before.len() {
                assert(tags[n] == before[n]);
                let i = choose|i: int|
                    0 <= i < front.len() && !(#[trigger] front[i]).prerelease && front[i].tag_name@
                        == before[n];
                assert(!releases[i].prerelease && releases[i].tag_name@ == tags[n]);
            } else {
                assert(!releases[last].prerelease && releases[last].tag_name@ == tags[n]);
            }
        }
    }
}

/// The names of some assets are their names, one by one.
pub proof fn lemma_names_are_names(assets: Seq<Asset>)
    ensures
        asset_names(assets).len() == assets.len(),
        forall|i: int|
            0 <= i < assets.len() ==> #[trigger] asset_names(assets)[i] == assets[i].name@,
{
}

/// What is told when something is not found names the tag as it was given, the pattern and
/// the repository.
pub proof fn lemma_messages_name_what_was_sought(
    tag: Seq<char>,
    pattern: Seq<char>,
    repository: Seq<char>,
)
    ensures
        release_not_found_text(Some(tag)) == "Could not find release with tag \""@ + tag + "\""@,
        release_not_found_text(None) == "Could not find latest tag"@,
        asset_not_found_text(pattern, Some(tag), repository) == "Could not find Pattern \""@
            + pattern + "\" in tag \""@ + tag + "\" in releases of repository \""@ + repository
            + "\""@,
        asset_not_found_text(pattern, None, repository) == "Could not find Pattern \""@ + pattern
            + "\" in latest tag in releases of repository \""@ + repository + "\""@,
{
    reveal_strlit("\" in ");
    reveal_strlit("tag \"");
    reveal_strlit("\" in tag \"");
    reveal_strlit("\"");
    reveal_strlit(" in releases of repository \"");
    reveal_strlit("\" in releases of repository \"");
    reveal_strlit("latest tag");
    reveal_strlit("\" in latest tag in releases of repository \"");
    assert("\" in "@ + "tag \""@ == "\" in tag \""@);
    assert("\""@ + " in releases of repository \""@ == "\" in releases of repository \""@);
    assert("\" in "@ + "latest tag"@ + " in releases of repository \""@
        == "\" in latest tag in releases of repository \""@);
    assert(asset_not_found_text(pattern, Some(tag), repository) == "Could not find Pattern \""@
        + pattern + ("\" in "@ + "tag \""@) + tag + ("\""@ + " in releases of repository \""@)
        + repository + "\""@);
    assert(asset_not_found_text(pattern, None, repository) == "Could not find Pattern \""@ + pattern
        + ("\" in "@ + "latest tag"@ + " in releases of repository \""@) + repository + "\""@);
}

} // verus!
