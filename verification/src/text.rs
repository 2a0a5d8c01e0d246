//! Comparisons of strings, character by character.

use vstd::prelude::*;

verus! {

/// Whether two strings hold the same characters.
pub fn str_eq(a: &str, b: &str) -> (r: bool)
    ensures
        r == (a@ == b@),
{
    let n = a.unicode_len();
    if n != b.unicode_len() {
        return false;
    }
    let mut i: usize = 0;
    while i < n
        invariant
            n == a@.len(),
            n == b@.len(),
            0 <= i <= n,
            forall|k: int| 0 <= k < i ==> a@[k] == b@[k],
        decreases n - i,
    {
        if a.get_char(i) != b.get_char(i) {
            return false;
        }
        i += 1;
    }
    assert(a@ =~= b@);
    true
}

/// Whether `s` begins with `prefix`.
pub fn starts_with(s: &str, prefix: &str) -> (r: bool)
    ensures
        r == prefix@.is_prefix_of(s@),
{
    let n = prefix.unicode_len();
    if n > s.unicode_len() {
        return false;
    }
    let mut i: usize = 0;
    while i < n
        invariant
            n == prefix@.len(),
            n <= s@.len(),
            0 <= i <= n,
            forall|k: int| 0 <= k < i ==> s@[k] == prefix@[k],
        decreases n - i,
    {
        if s.get_char(i) != prefix.get_char(i) {
            assert(s@.subrange(0, n as int)[i as int] != prefix@[i as int]);
            return false;
        }
        i += 1;
    }
    assert(prefix@ =~= s@.subrange(0, n as int));
    true
}

/// Whether `s` ends with `suffix`.
pub fn ends_with(s: &str, suffix: &str) -> (r: bool)
    ensures
        r == suffix@.is_suffix_of(s@),
{
    let n = suffix.unicode_len();
    let m = s.unicode_len();
    if n > m {
        return false;
    }
    let skip = m - n;
    let mut i: usize = 0;
    while i < n
        invariant
            n == suffix@.len(),
            m == s@.len(),
            n <= m,
            skip == m - n,
            0 <= i <= n,
            forall|k: int| 0 <= k < i ==> s@[skip + k] == suffix@[k],
        decreases n - i,
    {
        if s.get_char(skip + i) != suffix.get_char(i) {
            assert(s@.subrange(skip as int, m as int)[i as int] != suffix@[i as int]);
            return false;
        }
        i += 1;
    }
    assert(suffix@ =~= s@.subrange(skip as int, m as int));
    true
}

/// The number that decimal digits from position `i` on add to `value`;
/// `None` where a character is no digit.
pub open spec fn decimal_from(digits: Seq<char>, i: int, value: nat) -> Option<nat>
    decreases digits.len() - i,
{
    if i < 0 || i >= digits.len() {
        Some(value)
    } else if '0' <= digits[i] <= '9' {
        decimal_from(digits, i + 1, value * 10 + (digits[i] as nat - '0' as nat) as nat)
    } else {
        None
    }
}

/// The 16-bit number that a string of decimal digits denotes; `None`
/// for the empty string, for a string that holds anything but digits,
/// and for a number above 65535.
pub open spec fn u16_of(digits: Seq<char>) -> Option<u16> {
    if digits.len() == 0 {
        None
    } else {
        match decimal_from(digits, 0, 0) {
            Some(value) => if value <= 65535 {
                Some(value as u16)
            } else {
                None
            },
            None => None,
        }
    }
}

/// More digits never make a number smaller.
pub proof fn lemma_decimal_grows(digits: Seq<char>, i: int, value: nat)
    ensures
        decimal_from(digits, i, value) matches Some(v) ==> v >= value,
    decreases digits.len() - i,
{
    if 0 <= i < digits.len() && '0' <= digits[i] <= '9' {
        lemma_decimal_grows(digits, i + 1, value * 10 + (digits[i] as nat - '0' as nat) as nat);
    }
}

/// Reads a string of decimal digits as a 16-bit number.
pub fn parse_u16(digits: &str) -> (r: Option<u16>)
    ensures
        r == u16_of(digits@),
{
    let n = digits.unicode_len();
    if n == 0 {
        return None;
    }
    let mut value: u32 = 0;
    let mut i: usize = 0;
    while i < n
        invariant
            n == digits@.len(),
            0 <= i <= n,
            value <= 65535,
            decimal_from(digits@, 0, 0) == decimal_from(digits@, i as int, value as nat),
        decreases n - i,
    {
        let c = digits.get_char(i);
        let code: u32 = c as u32;
        if code < 48 || code > 57 {
            return None;
        }
        let next: u32 = value * 10 + (code - 48);
        if next > 65535 {
            proof {
                lemma_decimal_grows(digits@, i + 1, next as nat);
            }
            return None;
        }
        value = next;
        i += 1;
    }
    Some(value as u16)
}

/// An ASCII letter, an ASCII digit or an underscore.
pub open spec fn is_word_char(c: char) -> bool {
    ('0' <= c <= '9') || ('a' <= c <= 'z') || ('A' <= c <= 'Z') || c == '_'
}

/// A text that may be a number: a digit, then letters, digits and
/// underscores only.
pub open spec fn is_number_text(text: Seq<char>) -> bool {
    &&& text.len() > 0
    &&& '0' <= text[0] <= '9'
    &&& forall|i: int| 0 <= i < text.len() ==> is_word_char(#[trigger] text[i])
}

/// A text that may be a string: it begins with a double quote, or with
/// the `r` of a raw string.
pub open spec fn is_string_text(text: Seq<char>) -> bool {
    text.len() > 0 && (text[0] == '"' || text[0] == 'r')
}

/// At position `i` a word ends before a `c` that a double quote follows,
/// at once or after an `r` and any `#`: what a C string begins with.
pub open spec fn c_string_at(text: Seq<char>, i: int) -> bool {
    &&& 0 <= i < text.len()
    &&& text[i] == 'c'
    &&& (i == 0 || !is_word_char(text[i - 1]))
    &&& ((i + 1 < text.len() && text[i + 1] == '"') || (i + 2 < text.len() && text[i + 1] == 'r'
        && (text[i + 2] == '"' || text[i + 2] == '#')))
}

/// At position `i` a block comment opens.
pub open spec fn comment_at(text: Seq<char>, i: int) -> bool {
    0 <= i && i + 1 < text.len() && text[i] == '/' && text[i + 1] == '*'
}

/// A text in which nothing begins like a C string and no block comment
/// opens.
pub open spec fn is_plain_text(text: Seq<char>) -> bool {
    forall|i: int| 0 <= i < text.len() ==> !c_string_at(text, i) && !comment_at(text, i)
}

/// Whether a character is an ASCII letter, an ASCII digit or an
/// underscore.
pub fn word_char(c: char) -> (r: bool)
    ensures
        r == is_word_char(c),
{
    let code: u32 = c as u32;
    (48 <= code && code <= 57) || (97 <= code && code <= 122) || (65 <= code && code <= 90) || code
        == 95
}

/// Whether a text may be a number.
pub fn number_text(text: &str) -> (r: bool)
    ensures
        r == is_number_text(text@),
{
    let n = text.unicode_len();
    if n == 0 {
        return false;
    }
    let first: u32 = text.get_char(0) as u32;
    if first < 48 || first > 57 {
        return false;
    }
    let mut i: usize = 0;
    while i < n
        invariant
            n == text@.len(),
            0 <= i <= n,
            forall|k: int| 0 <= k < i ==> is_word_char(#[trigger] text@[k]),
        decreases n - i,
    {
        if !word_char(text.get_char(i)) {
            return false;
        }
        i += 1;
    }
    true
}

/// Whether a text may be a string.
pub fn string_text(text: &str) -> (r: bool)
    ensures
        r == is_string_text(text@),
{
    if text.unicode_len() == 0 {
        return false;
    }
    let first = text.get_char(0);
    first == '"' || first == 'r'
}

/// Whether nothing in a text begins like a C string and no block comment
/// opens in it.
pub fn plain_text(text: &str) -> (r: bool)
    ensures
        r == is_plain_text(text@),
{
    let n = text.unicode_len();
    let mut i: usize = 0;
    while i < n
        invariant
            n == text@.len(),
            0 <= i <= n,
            forall|k: int| 0 <= k < i ==> !c_string_at(text@, k) && !comment_at(text@, k),
        decreases n - i,
    {
        let c = text.get_char(i);
        if c == '/' && i + 1 < n && text.get_char(i + 1) == '*' {
            assert(comment_at(text@, i as int));
            return false;
        }
        if c == 'c' && (i == 0 || !word_char(text.get_char(i - 1))) {
            if i + 1 < n {
                let next = text.get_char(i + 1);
                if next == '"' {
                    assert(c_string_at(text@, i as int));
                    return false;
                }
                if next == 'r' && i + 2 < n {
                    let after = text.get_char(i + 2);
                    if after == '"' || after == '#' {
                        assert(c_string_at(text@, i as int));
                        return false;
                    }
                }
            }
        }
        i += 1;
    }
    true
}

} // verus!
