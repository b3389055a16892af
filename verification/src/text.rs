//! Comparing and cutting text.

use vstd::prelude::*;
use vstd::string::*;

verus! {

/// `text` begins with `prefix`.
pub open spec fn begins(text: Seq<char>, prefix: Seq<char>) -> bool {
    prefix.len() <= text.len() && text.take(prefix.len() as int) == prefix
}

/// The ASCII lower case of a character; any other character is left as it is.
pub open spec fn ascii_lower(c: char) -> char {
    if 'A' <= c && c <= 'Z' {
        (c as u32 + 0x20) as char
    } else {
        c
    }
}

/// The lower case that Unicode gives a text that is not all ASCII.
pub uninterp spec fn unicode_lowercase(text: Seq<char>) -> Seq<char>;

/// The lower case of a text. A text of ASCII characters has each of its letters
/// replaced and nothing else.
pub open spec fn lowercase(text: Seq<char>) -> Seq<char> {
    if vstd::utf8::is_ascii_chars(text) {
        text.map_values(|c: char| ascii_lower(c))
    } else {
        unicode_lowercase(text)
    }
}

/// `str::to_lowercase`: the lower case of the text, which for ASCII characters
/// replaces each letter and nothing else, and is named otherwise.
#[verifier::external_body]
pub(crate) fn to_lowercase(text: &str) -> (lower: String)
    ensures
        vstd::utf8::is_ascii_chars(text@) ==> lower@ == text@.map_values(
            |c: char| ascii_lower(c),
        ),
        !vstd::utf8::is_ascii_chars(text@) ==> lower@ == unicode_lowercase(text@),
{
    text.to_lowercase()
}

/// Whether two texts are the same.
pub fn same(a: &str, b: &str) -> (r: bool)
    ensures
        r == (a@ == b@),
{
    a.to_owned() == b.to_owned()
}

/// What follows `prefix` in `text`, if `text` begins with it.
pub fn strip_prefix<'a>(text: &'a str, prefix: &str) -> (rest: Option<&'a str>)
    ensures
        match rest {
            Some(r) => begins(text@, prefix@) && r@ == text@.skip(prefix@.len() as int),
            None => !begins(text@, prefix@),
        },
{
    let n: usize = prefix.unicode_len();
    let len: usize = text.unicode_len();
    if n > len {
        return None;
    }
    if same(text.substring_char(0, n), prefix) {
        Some(text.substring_char(n, len))
    } else {
        None
    }
}

/// Whether every character of `text` is `c`.
pub fn consists_of(text: &str, c: char) -> (r: bool)
    ensures
        r == (forall|i: int| 0 <= i < text@.len() ==> text@[i] == c),
{
    let len: usize = text.unicode_len();
    let mut i: usize = 0;
    while i < len
        invariant
            len == text@.len(),
            i <= len,
            forall|k: int| 0 <= k < i ==> text@[k] == c,
        decreases len - i,
    {
        if text.get_char(i) != c {
            return false;
        }
        i += 1;
    }
    true
}

/// The lower case of an ASCII text is as long, has each capital letter replaced
/// by the small one, and leaves all else.
pub proof fn law_ascii_lowercase(text: Seq<char>, i: int)
    requires
        vstd::utf8::is_ascii_chars(text),
        0 <= i < text.len(),
    ensures
        lowercase(text).len() == text.len(),
        0x41 <= text[i] as u32 <= 0x5a ==> lowercase(text)[i] as u32 == text[i] as u32 + 0x20,
        !(0x41 <= text[i] as u32 <= 0x5a) ==> lowercase(text)[i] == text[i],
{
}

/// A text begins with what stands at its front, and with nothing else.
pub proof fn law_begins(prefix: Seq<char>, rest: Seq<char>, text: Seq<char>)
    ensures
        begins(prefix + rest, prefix),
        begins(text, prefix) ==> text == prefix + text.skip(prefix.len() as int),
{
    assert((prefix + rest).take(prefix.len() as int) =~= prefix);
    if begins(text, prefix) {
        assert(text =~= text.take(prefix.len() as int) + text.skip(prefix.len() as int));
    }
}

} // verus!
