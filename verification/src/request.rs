//! The headers of requests and replies.

use crate::text;
use vstd::prelude::*;

verus! {

/// The name under which requests are made. GitHub answers no request without one.
pub const USERAGENT: &'static str = "gitweb-release-downloader";

/// Whether a header, written `name:value`, has the given name and value. The name ends
/// at the first colon; the value keeps its leading spaces, which websites ignore.
pub open spec fn is_header(header: Seq<char>, name: Seq<char>, value: Seq<char>) -> bool {
    header == name + seq![':'] + value && !name.contains(':')
}

/// Splits a header into name and value.
pub fn split_header(header: &str) -> (parts: Option<(String, String)>)
    ensures
        match parts {
            Some((name, value)) => is_header(header@, name@, value@),
            None => !header@.contains(':'),
        },
{
    match text::find_char(header, ':') {
        Some(colon) => {
            let len: usize = header.unicode_len();
            let name = header.substring_char(0, colon).to_owned();
            let value = header.substring_char(colon + 1, len).to_owned();
            assert(header@ == name@ + seq![':'] + value@);
            Some((name, value))
        },
        None => None,
    }
}

/// A header has one name and one value.
pub proof fn lemma_header_unique(
    header: Seq<char>,
    left: (Seq<char>, Seq<char>),
    right: (Seq<char>, Seq<char>),
)
    requires
        is_header(header, left.0, left.1),
        is_header(header, right.0, right.1),
    ensures
        left == right,
{
    assert(header[left.0.len() as int] == ':');
    assert(header[right.0.len() as int] == ':');
    assert(forall|i: int| 0 <= i < left.0.len() ==> header[i] == left.0[i]);
    assert(forall|i: int| 0 <= i < right.0.len() ==> header[i] == right.0[i]);
    if left.0.len() < right.0.len() {
        assert(right.0[left.0.len() as int] == ':');
    }
    if right.0.len() < left.0.len() {
        assert(left.0[right.0.len() as int] == ':');
    }
    assert(left.0 == header.take(left.0.len() as int));
    assert(right.0 == header.take(right.0.len() as int));
    assert(left.1 == header.skip((left.0.len() + 1) as int));
    assert(right.1 == header.skip((right.0.len() + 1) as int));
}

/// What is told of a header without a colon.
pub open spec fn invalid_header_text(header: Seq<char>) -> Seq<char> {
    "Http header \""@ + header
        + "\" has invalid format, must be: \"header-name: header-value\""@
}

/// Tells that a header has no colon.
pub fn invalid_header(header: &str) -> (message: String)
    ensures
        message@ == invalid_header_text(header@),
{
    let mut message = "Http header \"".to_owned();
    message.append(header);
    message.append("\" has invalid format, must be: \"header-name: header-value\"");
    message
}

/// The headers of a request, in the order in which they are set: the user agent, and
/// then the given ones. The first that is not a header is told.
pub fn request_headers(headers: &[String]) -> (prepared: Result<Vec<(String, String)>, String>)
    ensures
        match prepared {
            Ok(list) => {
                &&& list@.len() == headers@.len() + 1
                &&& list@[0].0@ == "user-agent"@
                &&& list@[0].1@ == USERAGENT@
                &&& list@[0].1@ == "gitweb-release-downloader"@
                &&& forall|i: int|
                    0 <= i < headers@.len() ==> is_header(
                        (#[trigger] headers@[i])@,
                        list@[i + 1].0@,
                        list@[i + 1].1@,
                    )
            },
            Err(message) => exists|i: int|
                {
                    &&& 0 <= i < headers@.len()
                    &&& !(#[trigger] headers@[i])@.contains(':')
                    &&& forall|j: int| 0 <= j < i ==> (#[trigger] headers@[j])@.contains(':')
                    &&& message@ == invalid_header_text(headers@[i]@)
                },
        },
{
    let mut list: Vec<(String, String)> = Vec::new();
    list.push(("user-agent".to_owned(), USERAGENT.to_owned()));
    let mut i: usize = 0;
    while i < headers.len()
        invariant
            i <= headers@.len(),
            list@.len() == i + 1,
            list@[0].0@ == "user-agent"@,
            list@[0].1@ == USERAGENT@,
            forall|j: int|
                0 <= j < i ==> is_header(
                    (#[trigger] headers@[j])@,
                    list@[j + 1].0@,
                    list@[j + 1].1@,
                ),
            forall|j: int| 0 <= j < i ==> (#[trigger] headers@[j])@.contains(':'),
        decreases headers@.len() - i,
    {
        match split_header(headers[i].as_str()) {
            Some(parts) => {
                assert(headers@[i as int]@[parts.0@.len() as int] == ':');
                list.push(parts);
            },
            None => {
                return Err(invalid_header(headers[i].as_str()));
            },
        }
        i += 1;
    }
    Ok(list)
}

/// The length of a reply's body as its header `content-length` gives it.
pub open spec fn content_length(header: Option<Seq<char>>) -> Option<nat> {
    match header {
        Some(value) => text::unsigned_value(value, usize::MAX as nat),
        None => None,
    }
}

/// The length of a reply's body as its header `content-length` gives it. One that is no
/// number is as good as none.
pub fn get_content_length(header: Option<&str>) -> (length: Option<usize>)
    ensures
        match length {
            Some(n) => content_length(text::optional_text(header)) == Some(n as nat),
            None => content_length(text::optional_text(header)) is None,
        },
{
    match header {
        Some(value) => match text::parse_unsigned(value, usize::MAX as u64) {
            Some(n) => Some(n as usize),
            None => None,
        },
        None => None,
    }
}

/// A header is its name, a colon and its value; the name holds no colon, and the value is
/// everything behind the first one. So every text with a colon is a header.
pub proof fn lemma_header_ends_at_first_colon(
    header: Seq<char>,
    name: Seq<char>,
    value: Seq<char>,
)
    ensures
        is_header(header, name, value) <==> header == name + ":"@ + value && forall|i: int|
            0 <= i < name.len() ==> #[trigger] name[i] != ':',
        is_header(header, name, value) ==> header.contains(':'),
        header.contains(':') ==> exists|n: Seq<char>, v: Seq<char>| #[trigger]
            is_header(header, n, v),
{
    reveal_strlit(":");
    assert(":"@ == seq![':']);
    if is_header(header, name, value) {
        assert(header[name.len() as int] == ':');
    }
    if header.contains(':') {
        lemma_first_colon(header, 0);
    }
}

/// A text with a colon has a first one.
proof fn lemma_first_colon(header: Seq<char>, from: int)
    requires
        0 <= from < header.len(),
        header.contains(':'),
        forall|i: int| 0 <= i < from ==> #[trigger] header[i] != ':',
    ensures
        exists|n: Seq<char>, v: Seq<char>| #[trigger] is_header(header, n, v),
    decreases header.len() - from,
{
    if header[from] == ':' {
        let n = header.take(from);
        let v = header.skip(from + 1);
        assert(header == n + seq![':'] + v);
        assert(is_header(header, n, v));
    } else {
        let colon = choose|i: int| 0 <= i < header.len() && header[i] == ':';
        assert(colon > from);
        lemma_first_colon(header, from + 1);
    }
}

/// What is told of a header without a colon repeats the header and says what it must be.
pub proof fn lemma_invalid_header_is_repeated(header: Seq<char>)
    ensures
        invalid_header_text(header) == "Http header \""@ + header
            + "\" has invalid format, must be: \"header-name: header-value\""@,
{
}

/// A length is taken from the header that gives it as a number, up to the largest that the
/// machine counts; without the header, or if it gives no number, there is none.
pub proof fn lemma_length_is_read(n: nat, value: Seq<char>)
    ensures
        content_length(None) is None,
        n <= usize::MAX ==> content_length(Some(text::decimal(n))) == Some(n),
        n > usize::MAX ==> content_length(Some(text::decimal(n))) is None,
        content_length(Some(value)) is Some ==> value.len() > 0 && forall|i: int|
            1 <= i < value.len() ==> 48 <= (#[trigger] value[i]) as int <= 57,
        content_length(Some(value)) == text::unsigned_value(value, usize::MAX as nat),
{
    text::lemma_decimal_is_shortest(n);
    text::lemma_numbers_are_read(text::decimal(n), usize::MAX as nat);
    if content_length(Some(value)) is Some {
        text::lemma_only_numbers_are_read(value, usize::MAX as nat);
    }
}

} // verus!
