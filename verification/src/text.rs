//! The text a client reads: bytes decoded as they arrive, and the part of
//! them that can be handed out.

use vstd::prelude::*;
use vstd::string::StrSliceExecFns;
use vstd::string::StringExecFns;
use vstd::utf8::decode_utf8;
use vstd::utf8::valid_utf8;

verus! {

/// The character that stands in for bytes that are no UTF-8.
pub const REPLACEMENT_CHARACTER: char = '\u{FFFD}';

/// The text that `String::from_utf8_lossy` makes of `bytes`.
pub uninterp spec fn utf8_lossy(bytes: Seq<u8>) -> Seq<char>;

/// Whether `char::is_whitespace` holds of `c`.
pub uninterp spec fn is_white_space(c: char) -> bool;

/// How many characters of white space `s` begins with.
pub open spec fn leading_white_space(s: Seq<char>) -> nat
    decreases s.len(),
{
    if s.len() > 0 && is_white_space(s[0]) {
        1 + leading_white_space(s.drop_first())
    } else {
        0
    }
}

/// `s` without the white space it begins with.
pub open spec fn trimmed_start(s: Seq<char>) -> Seq<char> {
    s.skip(leading_white_space(s) as int)
}

/// The text of an optional string.
pub open spec fn option_text(s: Option<String>) -> Option<Seq<char>> {
    match s {
        Some(s) => Some(s@),
        None => None,
    }
}

/// Decodes bytes as UTF-8, by `String::from_utf8_lossy`. Believed of it:
/// the text depends on the bytes alone, and bytes that are valid UTF-8 give
/// the text they encode.
#[verifier::external_body]
fn from_utf8_lossy(bytes: &[u8]) -> (text: String)
    ensures
        text@ == utf8_lossy(bytes@),
        valid_utf8(bytes@) ==> text@ == decode_utf8(bytes@),
{
    String::from_utf8_lossy(bytes).into_owned()
}

/// Whether a character is white space, by `char::is_whitespace`. Believed
/// of it: the answer depends on the character alone.
#[verifier::external_body]
fn char_is_whitespace(c: char) -> (white: bool)
    ensures
        white == is_white_space(c),
{
    c.is_whitespace()
}

/// The white space that `s` begins with ends at `k`, and only there.
proof fn lemma_leading_white_space(s: Seq<char>, k: int)
    requires
        0 <= k <= s.len(),
        forall|i: int| 0 <= i < k ==> is_white_space(#[trigger] s[i]),
        k < s.len() ==> !is_white_space(s[k]),
    ensures
        leading_white_space(s) == k,
    decreases s.len(),
{
    if k > 0 {
        lemma_leading_white_space(s.drop_first(), k - 1);
    }
}

/// `s` without the white space it begins with.
pub fn trim_start(s: &str) -> (trimmed: &str)
    ensures
        trimmed@ == trimmed_start(s@),
{
    let len = s.unicode_len();
    let mut k: usize = 0;
    while k < len && char_is_whitespace(s.get_char(k))
        invariant
            k <= len,
            len == s@.len(),
            forall|i: int| 0 <= i < k ==> is_white_space(#[trigger] s@[i]),
        decreases len - k,
    {
        k = k + 1;
    }
    proof {
        lemma_leading_white_space(s@, k as int);
    }
    s.substring_char(k, len)
}

/// What is handed out of newly decoded text. Text that ends in the
/// replacement character is held back, since the bytes of its last character
/// may not all be there yet; the first text handed out loses its leading
/// white space.
pub open spec fn delta_text(decoded: Seq<char>, first: bool) -> Option<Seq<char>> {
    if decoded.len() > 0 && decoded.last() == REPLACEMENT_CHARACTER {
        None
    } else if first {
        Some(trimmed_start(decoded))
    } else {
        Some(decoded)
    }
}

/// What is handed out of the bytes behind the cursor: nothing where there
/// are none, else what `delta_text` says of their text.
pub open spec fn pending_delta(bytes: Seq<u8>, cursor: nat) -> Option<Seq<char>> {
    if cursor >= bytes.len() {
        None
    } else {
        delta_text(utf8_lossy(bytes.skip(cursor as int)), cursor == 0)
    }
}

/// What is handed out of newly decoded text.
pub fn delta_from_decoded(decoded: &str, first: bool) -> (delta: Option<String>)
    ensures
        option_text(delta) == delta_text(decoded@, first),
{
    let n = decoded.unicode_len();
    if n > 0 && decoded.get_char(n - 1) == REPLACEMENT_CHARACTER {
        return None;
    }
    if first {
        Some(String::from_str(trim_start(decoded)))
    } else {
        Some(String::from_str(decoded))
    }
}

/// What is handed out of the bytes behind the cursor where these are text
/// in UTF-8: the text they encode, by the rule of `delta_text`.
pub open spec fn pending_text(bytes: Seq<u8>, cursor: nat) -> Option<Seq<char>> {
    if cursor >= bytes.len() {
        None
    } else {
        delta_text(decode_utf8(bytes.skip(cursor as int)), cursor == 0)
    }
}

/// What is handed out of the bytes behind the cursor.
pub fn decode_delta(bytes: &[u8], cursor: usize) -> (delta: Option<String>)
    ensures
        option_text(delta) == pending_delta(bytes@, cursor as nat),
        valid_utf8(bytes@.skip(cursor as int)) ==> option_text(delta) == pending_text(
            bytes@,
            cursor as nat,
        ),
{
    if cursor >= bytes.len() {
        return None;
    }
    let fresh = vstd::slice::slice_subrange(bytes, cursor, bytes.len());
    let decoded = from_utf8_lossy(fresh);
    delta_from_decoded(decoded.as_str(), cursor == 0)
}

/// The character of the decimal digit `d`.
pub open spec fn digit_char(d: nat) -> char {
    (('0' as u8) + d) as u8 as char
}

/// `n` written in decimal digits.
pub open spec fn decimal(n: nat) -> Seq<char>
    decreases n,
{
    if n < 10 {
        seq![digit_char(n)]
    } else {
        decimal(n / 10).push(digit_char(n % 10))
    }
}

/// The text of the decimal digit `d`.
fn digit_str(d: usize) -> (text: &'static str)
    requires
        d < 10,
    ensures
        text@ == seq![digit_char(d as nat)],
{
    proof {
        reveal_strlit("0");
        reveal_strlit("1");
        reveal_strlit("2");
        reveal_strlit("3");
        reveal_strlit("4");
        reveal_strlit("5");
        reveal_strlit("6");
        reveal_strlit("7");
        reveal_strlit("8");
        reveal_strlit("9");
    }
    let text = if d == 0 {
        "0"
    } else if d == 1 {
        "1"
    } else if d == 2 {
        "2"
    } else if d == 3 {
        "3"
    } else if d == 4 {
        "4"
    } else if d == 5 {
        "5"
    } else if d == 6 {
        "6"
    } else if d == 7 {
        "7"
    } else if d == 8 {
        "8"
    } else {
        "9"
    };
    assert(text@ =~= seq![digit_char(d as nat)]);
    text
}

/// Puts `n` in decimal digits behind `text`.
fn push_decimal(n: usize, text: &mut String)
    ensures
        final(text)@ == old(text)@ + decimal(n as nat),
    decreases n,
{
    if n >= 10 {
        push_decimal(n / 10, text);
    }
    text.append(digit_str(n % 10));
    assert(text@ =~= old(text)@ + decimal(n as nat));
}

/// `n` written in decimal digits.
pub fn decimal_string(n: usize) -> (text: String)
    ensures
        text@ == decimal(n as nat),
{
    let mut text = String::new();
    push_decimal(n, &mut text);
    assert(text@ =~= decimal(n as nat));
    text
}

} // verus!
