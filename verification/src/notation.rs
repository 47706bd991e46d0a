//! How a repository is written: an optional scheme, the host, the path to the
//! website's root if it is not the host's, the owner and the name, as in
//! `codeberg.org/forgejo/forgejo`.

use crate::repository::{GitWebsite, Repository};
use crate::text;
use vstd::prelude::*;

verus! {

/// The pieces of a written repository.
pub struct Pieces {
    pub origin: Seq<char>,
    pub sub_path: Seq<char>,
    pub owner: Seq<char>,
    pub name: Seq<char>,
}

/// A written repository without its scheme.
pub open spec fn without_scheme(written: Seq<char>) -> Seq<char> {
    if text::begins_with(written, "http://"@) {
        written.skip("http://"@.len() as int)
    } else if text::begins_with(written, "https://"@) {
        written.skip("https://"@.len() as int)
    } else {
        written
    }
}

/// Whether a text can stand between two slashes.
pub open spec fn is_segment(piece: Seq<char>) -> bool {
    piece.len() > 0 && !piece.contains('/')
}

/// Whether a repository, written without scheme, is made of the given pieces. The sub
/// path reaches from slash to slash; where the website's root is that of the host, it
/// is one slash.
pub open spec fn made_of(written: Seq<char>, pieces: Pieces) -> bool {
    &&& is_segment(pieces.origin)
    &&& is_segment(pieces.owner)
    &&& is_segment(pieces.name)
    &&& pieces.sub_path.len() > 0
    &&& pieces.sub_path[0] == '/'
    &&& pieces.sub_path.last() == '/'
    &&& written == pieces.origin + pieces.sub_path + pieces.owner + seq!['/'] + pieces.name
}

/// Whether `first`, `middle` and `last` are the first, the last but one and the last
/// slash of a text.
spec fn slashes(written: Seq<char>, first: int, middle: int, last: int) -> bool {
    &&& 0 <= first <= middle < last < written.len()
    &&& written[first] == '/' && written[middle] == '/' && written[last] == '/'
    &&& forall|i: int| 0 <= i < first ==> written[i] != '/'
    &&& forall|i: int| middle < i < last ==> written[i] != '/'
    &&& forall|i: int| last < i < written.len() ==> written[i] != '/'
}

/// The pieces determine where the slashes are.
proof fn lemma_slashes_of(written: Seq<char>, pieces: Pieces)
    requires
        made_of(written, pieces),
    ensures
        slashes(
            written,
            pieces.origin.len() as int,
            pieces.origin.len() + pieces.sub_path.len() - 1,
            (pieces.origin.len() + pieces.sub_path.len() + pieces.owner.len()) as int,
        ),
        written.len() == pieces.origin.len() + pieces.sub_path.len() + pieces.owner.len() + 1
            + pieces.name.len(),
{
    let a = pieces.origin.len() as int;
    let b = a + pieces.sub_path.len();
    let c = b + pieces.owner.len();
    assert(written[a] == pieces.sub_path[0]);
    assert(written[b - 1] == pieces.sub_path.last());
    assert(written[c] == '/');
    assert forall|i: int| 0 <= i < a implies written[i] != '/' by {
        assert(written[i] == pieces.origin[i]);
    }
    assert forall|i: int| b - 1 < i < c implies written[i] != '/' by {
        assert(written[i] == pieces.owner[i - b]);
    }
    assert forall|i: int| c < i < written.len() implies written[i] != '/' by {
        assert(written[i] == pieces.name[i - c - 1]);
    }
}

/// A repository can be taken apart in one way only.
pub proof fn lemma_pieces_unique(written: Seq<char>, left: Pieces, right: Pieces)
    requires
        made_of(written, left),
        made_of(written, right),
    ensures
        left == right,
{
    lemma_slashes_of(written, left);
    lemma_slashes_of(written, right);
    let a = left.origin.len() as int;
    let b = a + left.sub_path.len();
    let c = b + left.owner.len();
    assert(left.origin == written.subrange(0, a));
    assert(left.sub_path == written.subrange(a, b));
    assert(left.owner == written.subrange(b, c));
    assert(left.name == written.subrange(c + 1, written.len() as int));
    assert(right.origin.len() == a);
    assert(right.origin.len() + right.sub_path.len() + right.owner.len() == c);
    assert(right.origin.len() + right.sub_path.len() == b);
    assert(right.origin == written.subrange(0, a));
    assert(right.sub_path == written.subrange(a, b));
    assert(right.owner == written.subrange(b, c));
    assert(right.name == written.subrange(c + 1, written.len() as int));
}

/// Takes a repository, written without scheme, apart into host, sub path, owner and
/// name.
fn take_apart(written: &str) -> (pieces: Option<(String, String, String, String)>)
    ensures
        match pieces {
            Some(p) => made_of(
                written@,
                (Pieces { origin: p.0@, sub_path: p.1@, owner: p.2@, name: p.3@ }),
            ),
            None => forall|p: Pieces| !made_of(written@, p),
        },
{
    let chars = text::to_chars(written);
    let len: usize = chars.len();
    let mut last: usize = len;
    while last > 0 && chars[last - 1] != '/'
        invariant
            len == chars@.len(),
            last <= len,
            forall|i: int| last <= i < len ==> chars@[i] != '/',
        decreases last,
    {
        last -= 1;
    }
    let mut middle: usize = if last == 0 {
        0
    } else {
        last - 1
    };
    while middle > 0 && chars[middle - 1] != '/'
        invariant
            len == chars@.len(),
            last <= len,
            middle <= last,
            last > 0 ==> middle < last,
            forall|i: int| middle <= i < last - 1 ==> chars@[i] != '/',
        decreases middle,
    {
        middle -= 1;
    }
    if middle == 0 {
        assert forall|p: Pieces| !made_of(written@, p) by {
            if made_of(written@, p) {
                lemma_slashes_of(written@, p);
                assert(written@[p.origin.len() as int] == '/');
            }
        }
        return None;
    }
    let mut first: usize = 0;
    while chars[first] != '/'
        invariant
            len == chars@.len(),
            first < middle < last <= len,
            chars@[middle - 1] == '/',
            forall|i: int| 0 <= i < first ==> chars@[i] != '/',
        decreases middle - first,
    {
        first += 1;
    }
    assert(slashes(written@, first as int, middle - 1, last - 1));
    if first == 0 || middle == last - 1 || last == len {
        assert forall|p: Pieces| !made_of(written@, p) by {
            if made_of(written@, p) {
                lemma_slashes_of(written@, p);
            }
        }
        return None;
    }
    let origin = written.substring_char(0, first).to_owned();
    let sub_path = written.substring_char(first, middle).to_owned();
    let owner = written.substring_char(middle, last - 1).to_owned();
    let name = written.substring_char(last, len).to_owned();
    proof {
        assert(!origin@.contains('/'));
        assert(!owner@.contains('/'));
        assert(!name@.contains('/'));
        assert(written@ == origin@ + sub_path@ + owner@ + seq!['/'] + name@);
    }
    Some((origin, sub_path, owner, name))
}

/// The kind of website that a host is known for.
pub open spec fn known_website(origin: Seq<char>) -> Option<GitWebsite> {
    if origin == "github.com"@ {
        Some(GitWebsite::GitHub)
    } else if origin == "gitlab.com"@ {
        Some(GitWebsite::GitLab)
    } else {
        None
    }
}

/// Guesses the kind of a website from its host.
pub fn guess_website(origin: &str) -> (website: Option<GitWebsite>)
    ensures
        website == known_website(origin@),
{
    if text::same_text(origin, "github.com") {
        Some(GitWebsite::GitHub)
    } else if text::same_text(origin, "gitlab.com") {
        Some(GitWebsite::GitLab)
    } else {
        None
    }
}

/// Why a text is no repository.
#[derive(Debug, Clone, Copy, PartialEq, Eq, Structural)]
pub enum RepositoryError {
    /// It is not made of host, owner and name.
    Malformed,
    /// The kind of the website is neither given nor known.
    UnknownWebsite,
}

/// The pieces of a repository.
pub open spec fn pieces_of(repository: Repository) -> Pieces {
    Pieces {
        origin: repository.origin@,
        sub_path: repository.sub_path@,
        owner: repository.owner@,
        name: repository.name@,
    }
}

/// Reads a repository. The kind of its website is the given one, or else the one that
/// its host is known for.
pub fn parse_repository(passed_string: &str, website: Option<GitWebsite>) -> (parsed: Result<
    Repository,
    RepositoryError,
>)
    ensures
        match parsed {
            Ok(repository) => {
                &&& repository.passed_string@ == passed_string@
                &&& made_of(without_scheme(passed_string@), pieces_of(repository))
                &&& match website {
                    Some(given) => repository.website == given,
                    None => known_website(repository.origin@) == Some(repository.website),
                }
            },
            Err(RepositoryError::Malformed) => forall|p: Pieces|
                !made_of(without_scheme(passed_string@), p),
            Err(RepositoryError::UnknownWebsite) => website is None && exists|p: Pieces|
                #[trigger] made_of(without_scheme(passed_string@), p) && known_website(
                    p.origin,
                ) is None,
        },
{
    let len: usize = passed_string.unicode_len();
    let written = if text::starts_with(passed_string, "http://") {
        passed_string.substring_char("http://".unicode_len(), len)
    } else if text::starts_with(passed_string, "https://") {
        passed_string.substring_char("https://".unicode_len(), len)
    } else {
        passed_string
    };
    assert(written@ == without_scheme(passed_string@));
    match take_apart(written) {
        None => Err(RepositoryError::Malformed),
        Some((origin, sub_path, owner, name)) => {
            let kind = match website {
                Some(given) => Some(given),
                None => guess_website(origin.as_str()),
            };
            match kind {
                None => {
                    assert(made_of(
                        without_scheme(passed_string@),
                        Pieces {
                            origin: origin@,
                            sub_path: sub_path@,
                            owner: owner@,
                            name: name@,
                        },
                    ));
                    Err(RepositoryError::UnknownWebsite)
                },
                Some(kind) => Ok(
                    Repository {
                        passed_string: passed_string.to_owned(),
                        website: kind,
                        origin,
                        sub_path,
                        owner,
                        name,
                    },
                ),
            }
        },
    }
}

/// A scheme in front is left out, once; a text without one is left as it is.
pub proof fn lemma_scheme_is_left_out(written: Seq<char>, rest: Seq<char>)
    ensures
        without_scheme("http://"@ + rest) == rest,
        without_scheme("https://"@ + rest) == rest,
        (forall|tail: Seq<char>|
            written != #[trigger] ("http://"@ + tail) && written != "https://"@ + tail)
            ==> without_scheme(written) == written,
{
    reveal_strlit("http://");
    reveal_strlit("https://");
    assert(("http://"@ + rest).take("http://"@.len() as int) == "http://"@);
    assert(("http://"@ + rest).skip("http://"@.len() as int) == rest);
    assert(("https://"@ + rest).take("https://"@.len() as int) == "https://"@);
    assert(("https://"@ + rest).skip("https://"@.len() as int) == rest);
    assert(("https://"@ + rest)[4] == 's');
    assert(!text::begins_with("https://"@ + rest, "http://"@)) by {
        if text::begins_with("https://"@ + rest, "http://"@) {
            text::lemma_begins_with_is_prefix("https://"@ + rest, "http://"@);
            let tail = choose|tail: Seq<char>| "https://"@ + rest == #[trigger] ("http://"@ + tail);
            assert(("http://"@ + tail)[4] == ':');
        }
    }
    text::lemma_begins_with_is_prefix("http://"@ + rest, "http://"@);
    text::lemma_begins_with_is_prefix("https://"@ + rest, "https://"@);
    if forall|tail: Seq<char>|
        written != #[trigger] ("http://"@ + tail) && written != "https://"@ + tail {
        text::lemma_begins_with_is_prefix(written, "http://"@);
        text::lemma_begins_with_is_prefix(written, "https://"@);
        if text::begins_with(written, "https://"@) {
            let tail = choose|tail: Seq<char>| written == #[trigger] ("https://"@ + tail);
            assert(written != "http://"@ + tail);
        }
    }
}

/// A repository is written as host, sub path, owner, a slash and the name. None of host,
/// owner and name is empty or holds a slash, and the sub path begins and ends with one.
pub proof fn lemma_notation(written: Seq<char>, pieces: Pieces)
    ensures
        made_of(written, pieces) <==> {
            &&& written == pieces.origin + pieces.sub_path + pieces.owner + "/"@ + pieces.name
            &&& pieces.origin.len() > 0 && !pieces.origin.contains('/')
            &&& pieces.owner.len() > 0 && !pieces.owner.contains('/')
            &&& pieces.name.len() > 0 && !pieces.name.contains('/')
            &&& pieces.sub_path.len() > 0 && pieces.sub_path[0] == '/'
            &&& pieces.sub_path[pieces.sub_path.len() - 1] == '/'
        },
{
    reveal_strlit("/");
    assert("/"@ == seq!['/']);
}

/// What is written as host, owner and name with single slashes between them is taken apart
/// into these three; what stands between host and owner is the sub path.
pub proof fn lemma_plain_notation(
    origin: Seq<char>,
    between: Seq<char>,
    owner: Seq<char>,
    name: Seq<char>,
)
    requires
        origin.len() > 0 && !origin.contains('/'),
        owner.len() > 0 && !owner.contains('/'),
        name.len() > 0 && !name.contains('/'),
    ensures
        made_of(
            origin + "/"@ + owner + "/"@ + name,
            (Pieces { origin, sub_path: "/"@, owner, name }),
        ),
        made_of(
            origin + "/"@ + between + "/"@ + owner + "/"@ + name,
            (Pieces { origin, sub_path: "/"@ + between + "/"@, owner, name }),
        ),
{
    reveal_strlit("/");
    assert("/"@ == seq!['/']);
    assert(origin + "/"@ + between + "/"@ + owner + "/"@ + name == origin + ("/"@ + between + "/"@)
        + owner + seq!['/'] + name);
}

/// Two hosts are known, each for its own kind of website.
pub proof fn lemma_known_hosts(origin: Seq<char>)
    ensures
        known_website(origin) == Some(GitWebsite::GitHub) <==> origin == "github.com"@,
        known_website(origin) == Some(GitWebsite::GitLab) <==> origin == "gitlab.com"@,
        known_website(origin) is None <==> origin != "github.com"@ && origin != "gitlab.com"@,
{
    reveal_strlit("github.com");
    reveal_strlit("gitlab.com");
    assert("github.com"@[3] != "gitlab.com"@[3]);
}

/// The pieces of a repository are its fields.
pub proof fn lemma_pieces_are_fields(repository: Repository)
    ensures
        pieces_of(repository).origin == repository.origin@,
        pieces_of(repository).sub_path == repository.sub_path@,
        pieces_of(repository).owner == repository.owner@,
        pieces_of(repository).name == repository.name@,
{
}

} // verus!
