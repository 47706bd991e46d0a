//! Text on the level of characters: searching, comparing, and decimal numbers.

use vstd::prelude::*;

verus! {

/// The characters of each string.
pub open spec fn texts(strings: Seq<String>) -> Seq<Seq<char>> {
    strings.map_values(|s: String| s@)
}

/// The text that an optional string holds.
pub open spec fn optional_text(text: Option<&str>) -> Option<Seq<char>> {
    match text {
        Some(t) => Some(t@),
        None => None,
    }
}

/// Appends copies of some strings to a list.
pub fn append_copies(list: &mut Vec<String>, strings: &[String])
    ensures
        texts(final(list)@) == texts(old(list)@) + texts(strings@),
{
    let mut i: usize = 0;
    while i < strings.len()
        invariant
            i <= strings@.len(),
            list@ == old(list)@ + strings@.take(i as int),
        decreases strings@.len() - i,
    {
        list.push(strings[i].clone());
        i += 1;
    }
    assert(texts(list@) == texts(old(list)@) + texts(strings@));
}

/// The characters of a string.
pub fn to_chars(text: &str) -> (chars: Vec<char>)
    ensures
        chars@ == text@,
{
    let mut chars: Vec<char> = Vec::new();
    for c in iter: text.chars()
        invariant
            iter.seq() == text@,
            chars@ == text@.take(iter.index() as int),
    {
        chars.push(c);
    }
    chars
}

/// Whether two strings hold the same characters.
pub fn same_text(left: &str, right: &str) -> (same: bool)
    ensures
        same == (left@ == right@),
{
    left.to_owned() == right.to_owned()
}

/// Whether `prefix` begins `text`.
pub open spec fn begins_with(text: Seq<char>, prefix: Seq<char>) -> bool {
    prefix.len() <= text.len() && text.take(prefix.len() as int) == prefix
}

/// Whether a string begins with another.
pub fn starts_with(text: &str, prefix: &str) -> (found: bool)
    ensures
        found == begins_with(text@, prefix@),
{
    let text_len: usize = text.unicode_len();
    let prefix_len: usize = prefix.unicode_len();
    if prefix_len > text_len {
        return false;
    }
    same_text(text.substring_char(0, prefix_len), prefix)
}

/// The position of the first `wanted` in a string.
pub fn find_char(text: &str, wanted: char) -> (position: Option<usize>)
    ensures
        match position {
            Some(i) => i < text@.len() && text@[i as int] == wanted && !text@.take(
                i as int,
            ).contains(wanted),
            None => !text@.contains(wanted),
        },
{
    let chars = to_chars(text);
    let mut i: usize = 0;
    while i < chars.len()
        invariant
            i <= chars@.len(),
            chars@ == text@,
            forall|j: int| 0 <= j < i ==> text@[j] != wanted,
        decreases chars@.len() - i,
    {
        if chars[i] == wanted {
            return Some(i);
        }
        i += 1;
    }
    None
}

/// Whether a character occurs in a string.
pub fn contains_char(text: &str, wanted: char) -> (found: bool)
    ensures
        found == text@.contains(wanted),
{
    find_char(text, wanted).is_some()
}

/// The character that writes a digit.
pub open spec fn digit_char(digit: nat) -> char {
    (('0' as int) + digit) as char
}

/// A number in decimal notation, without leading zeros.
pub open spec fn decimal(n: nat) -> Seq<char>
    decreases n,
{
    if n < 10 {
        seq![digit_char(n)]
    } else {
        decimal(n / 10).push(digit_char(n % 10))
    }
}

/// A signed number in decimal notation.
pub open spec fn signed_decimal(n: int) -> Seq<char> {
    if n < 0 {
        seq!['-'] + decimal((-n) as nat)
    } else {
        decimal(n as nat)
    }
}

/// The digit as a string of one character.
fn digit_text(digit: u64) -> (text: &'static str)
    requires
        digit < 10,
    ensures
        text@ == seq![digit_char(digit as nat)],
{
    proof {
        reveal_strlit("0");
        reveal_strlit("1");
        reveal_strlit("2");
        reveal_strlit("3");
        reveal_strlit("4");
        reveal_strlit("5");
        reveal_strlit("6");
        reveal_strlit("7");
        reveal_strlit("8");
        reveal_strlit("9");
    }
    if digit == 0 {
        "0"
    } else if digit == 1 {
        "1"
    } else if digit == 2 {
        "2"
    } else if digit == 3 {
        "3"
    } else if digit == 4 {
        "4"
    } else if digit == 5 {
        "5"
    } else if digit == 6 {
        "6"
    } else if digit == 7 {
        "7"
    } else if digit == 8 {
        "8"
    } else {
        "9"
    }
}

/// Writes a number in decimal notation.
pub fn write_decimal(n: u64) -> (text: String)
    ensures
        text@ == decimal(n as nat),
    decreases n,
{
    if n < 10 {
        digit_text(n).to_owned()
    } else {
        let mut text = write_decimal(n / 10);
        text.append(digit_text(n % 10));
        assert(text@ == decimal((n / 10) as nat).push(digit_char((n % 10) as nat)));
        text
    }
}

/// Writes a signed number in decimal notation.
pub fn write_signed_decimal(n: i64) -> (text: String)
    ensures
        text@ == signed_decimal(n as int),
{
    if n < 0 {
        let mut text = "-".to_owned();
        let magnitude: u64 = (-(n + 1)) as u64 + 1;
        text.append(write_decimal(magnitude).as_str());
        proof {
            reveal_strlit("-");
            assert(text@ == seq!['-'] + decimal((-(n as int)) as nat));
        }
        text
    } else {
        write_decimal(n as u64)
    }
}

/// Whether a character is an ASCII digit.
pub open spec fn is_digit(c: char) -> bool {
    '0' <= c <= '9'
}

/// Whether a text is a non-empty run of ASCII digits.
pub open spec fn is_digits(text: Seq<char>) -> bool {
    text.len() > 0 && forall|i: int| 0 <= i < text.len() ==> is_digit(#[trigger] text[i])
}

/// The number that a run of digits stands for.
pub open spec fn digits_value(text: Seq<char>) -> nat
    decreases text.len(),
{
    if text.len() == 0 {
        0
    } else {
        digits_value(text.drop_last()) * 10 + (text.last() as int - '0' as int) as nat
    }
}

/// A text without one leading plus sign.
pub open spec fn without_plus(text: Seq<char>) -> Seq<char> {
    if text.len() > 0 && text[0] == '+' {
        text.skip(1)
    } else {
        text
    }
}

/// The unsigned number that a text stands for: an optional plus sign and then only
/// digits, at least one, of a value of at most `max`.
pub open spec fn unsigned_value(text: Seq<char>, max: nat) -> Option<nat> {
    let digits = without_plus(text);
    if is_digits(digits) && digits_value(digits) <= max {
        Some(digits_value(digits))
    } else {
        None
    }
}

/// A longer run of digits stands for no smaller number.
proof fn lemma_digits_value_grows(text: Seq<char>, cut: int)
    requires
        is_digits(text),
        0 <= cut <= text.len(),
    ensures
        digits_value(text.take(cut)) <= digits_value(text),
    decreases text.len(),
{
    if cut == text.len() {
        assert(text.take(cut) == text);
    } else {
        assert(text.drop_last().take(cut) == text.take(cut));
        if text.len() > 1 {
            lemma_digits_value_grows(text.drop_last(), cut);
        } else {
            assert(text.take(cut) == text.drop_last());
        }
    }
}

/// Reads an unsigned number of at most `max`.
pub fn parse_unsigned(text: &str, max: u64) -> (number: Option<u64>)
    ensures
        match number {
            Some(n) => unsigned_value(text@, max as nat) == Some(n as nat),
            None => unsigned_value(text@, max as nat) is None,
        },
{
    let chars = to_chars(text);
    let start: usize = if chars.len() > 0 && chars[0] == '+' {
        1
    } else {
        0
    };
    if chars.len() == start {
        return None;
    }
    let ghost digits = without_plus(text@);
    assert(digits == text@.skip(start as int));
    let mut value: u64 = 0;
    let mut i: usize = start;
    while i < chars.len()
        invariant
            chars@ == text@,
            start <= i <= chars@.len(),
            digits == without_plus(text@),
            digits == text@.skip(start as int),
            forall|j: int| 0 <= j < i - start ==> is_digit(#[trigger] digits[j]),
            value == digits_value(digits.take(i - start)),
            value <= max,
        decreases chars@.len() - i,
    {
        let c = chars[i];
        assert(digits[i - start] == c);
        if c < '0' || c > '9' {
            return None;
        }
        let digit: u64 = c as u64 - '0' as u64;
        assert(digits.take(i - start + 1).drop_last() == digits.take(i - start));
        assert(digits.take(i - start + 1).last() == c);
        proof {
            if is_digits(digits) {
                lemma_digits_value_grows(digits, i - start + 1);
            }
        }
        if value > max / 10 || digit > max - value * 10 {
            return None;
        }
        value = value * 10 + digit;
        i += 1;
    }
    assert(digits.take(i - start) == digits);
    Some(value)
}

/// Decimal notation is a run of digits that stands for the number it was made from.
pub proof fn lemma_decimal_value(n: nat)
    ensures
        is_digits(decimal(n)),
        digits_value(decimal(n)) == n,
    decreases n,
{
    if n < 10 {
        assert(decimal(n).drop_last() == Seq::<char>::empty());
        assert(digits_value(decimal(n).drop_last()) == 0);
        assert(decimal(n).last() == digit_char(n));
    } else {
        lemma_decimal_value(n / 10);
        assert(decimal(n).drop_last() == decimal(n / 10));
        assert(decimal(n).last() == digit_char(n % 10));
    }
}

/// Reading back what was written in decimal notation gives the number again.
pub proof fn lemma_decimal_round_trip(n: nat, max: nat)
    requires
        n <= max,
    ensures
        unsigned_value(decimal(n), max) == Some(n),
{
    lemma_decimal_value(n);
    assert(is_digit(decimal(n)[0]));
}

/// The characters of some strings are those of each string, in order.
pub proof fn lemma_texts_keep_all(strings: Seq<String>)
    ensures
        texts(strings).len() == strings.len(),
        forall|i: int| 0 <= i < strings.len() ==> #[trigger] texts(strings)[i] == strings[i]@,
{
}

/// An optional string has a text exactly if it is there, and then its own.
pub proof fn lemma_optional_text_is_kept(text: Option<&str>)
    ensures
        text is None ==> optional_text(text) is None,
        text matches Some(t) ==> optional_text(text) == Some(t@),
{
}

/// A text begins with another exactly if it is the other followed by something.
pub proof fn lemma_begins_with_is_prefix(text: Seq<char>, prefix: Seq<char>)
    ensures
        begins_with(text, prefix) <==> exists|rest: Seq<char>| text == #[trigger] (prefix + rest),
{
    if begins_with(text, prefix) {
        assert(text == prefix + text.skip(prefix.len() as int));
    }
    if exists|rest: Seq<char>| text == #[trigger] (prefix + rest) {
        let rest = choose|rest: Seq<char>| text == #[trigger] (prefix + rest);
        assert((prefix + rest).take(prefix.len() as int) == prefix);
    }
}

/// The digits are the ten characters from `0` to `9`.
pub proof fn lemma_digits_are_ascii(c: char)
    ensures
        is_digit(c) <==> 48 <= c as int <= 57,
{
}

/// A run of digits is read with base ten, the last digit being the ones.
pub proof fn lemma_digits_are_decimal(text: Seq<char>, c: char)
    ensures
        digits_value(Seq::empty()) == 0,
        48 <= c as int <= 57 ==> digits_value(text.push(c)) == 10 * digits_value(text) + (c as int
            - 48),
{
    assert(text.push(c).drop_last() == text);
}

/// Decimal notation has no needless zeros in front: only zero begins with a zero, and it
/// is one character long. With the value it stands for this makes it the one notation.
pub proof fn lemma_decimal_is_shortest(n: nat)
    ensures
        n == 0 ==> decimal(n) == seq!['0'],
        n > 0 ==> decimal(n).len() > 0 && decimal(n)[0] != '0',
        forall|i: int| 0 <= i < decimal(n).len() ==> 48 <= (#[trigger] decimal(n)[i]) as int <= 57,
        digits_value(decimal(n)) == n,
    decreases n,
{
    lemma_decimal_value(n);
    assert forall|i: int| 0 <= i < decimal(n).len() implies 48 <= (#[trigger] decimal(n)[i]) as int
        <= 57 by {
        assert(is_digit(decimal(n)[i]));
    }
    if n >= 10 {
        lemma_decimal_is_shortest(n / 10);
        assert(decimal(n)[0] == decimal(n / 10)[0]);
    }
}

/// A signed number is written like an unsigned one, after a minus sign if it is negative.
pub proof fn lemma_sign_is_in_front(n: nat)
    ensures
        signed_decimal(n as int) == decimal(n),
        n > 0 ==> signed_decimal(-(n as int)) == seq!['-'] + decimal(n),
{
}

/// A run of digits is read as the number it stands for, with or without a plus sign in
/// front, unless it is too large.
pub proof fn lemma_numbers_are_read(digits: Seq<char>, max: nat)
    requires
        digits.len() > 0,
        forall|i: int| 0 <= i < digits.len() ==> 48 <= (#[trigger] digits[i]) as int <= 57,
    ensures
        digits_value(digits) <= max ==> unsigned_value(digits, max) == Some(digits_value(digits)),
        digits_value(digits) > max ==> unsigned_value(digits, max) is None,
        unsigned_value(seq!['+'] + digits, max) == unsigned_value(digits, max),
{
    assert(is_digits(digits));
    assert(digits[0] != '+');
    assert((seq!['+'] + digits).skip(1) == digits);
}

/// Nothing else is read as a number.
pub proof fn lemma_only_numbers_are_read(text: Seq<char>, max: nat)
    requires
        unsigned_value(text, max) is Some,
    ensures
        text.len() > 0,
        text[0] == '+' ==> text.len() > 1,
        text[0] == '+' || 48 <= text[0] as int <= 57,
        forall|i: int| 1 <= i < text.len() ==> 48 <= (#[trigger] text[i]) as int <= 57,
{
    let digits = without_plus(text);
    assert(is_digit(digits[0]));
    if text[0] == '+' {
        assert forall|i: int| 1 <= i < text.len() implies 48 <= (#[trigger] text[i]) as int
            <= 57 by {
            assert(is_digit(digits[i - 1]));
        }
    } else {
        assert forall|i: int| 1 <= i < text.len() implies 48 <= (#[trigger] text[i]) as int
            <= 57 by {
            assert(is_digit(digits[i]));
        }
    }
}

} // verus!
