//! The character classes and case mappings of Unicode that beanification
//! relies on, as std computes them.
//!
//! Their definitions are the Unicode character database; here they are named,
//! and each wrapper states that std's function returns the named value.
use vstd::prelude::*;

verus! {

/// Whether std's `char::is_alphanumeric` holds of `c` (the Unicode
/// `Alphabetic` property or a numeric general category).
pub uninterp spec fn is_alphanumeric_char(c: char) -> bool;

/// Whether std's `char::is_uppercase` holds of `c` (the Unicode `Uppercase`
/// property).
pub uninterp spec fn is_uppercase_char(c: char) -> bool;

/// Whether std's `char::is_lowercase` holds of `c` (the Unicode `Lowercase`
/// property).
pub uninterp spec fn is_lowercase_char(c: char) -> bool;

/// The characters of std's `str::to_lowercase` applied to a string holding `s`.
pub uninterp spec fn lowercase_of(s: Seq<char>) -> Seq<char>;

/// The characters of std's `str::to_uppercase` applied to a string holding `s`.
pub uninterp spec fn uppercase_of(s: Seq<char>) -> Seq<char>;

/// The characters that std's `char::to_uppercase` yields for `c`.
pub uninterp spec fn char_uppercase_of(c: char) -> Seq<char>;

/// An ASCII character.
pub open spec fn is_ascii_char(c: char) -> bool {
    (c as u32) < 128
}

/// Every character of `s` is ASCII.
pub open spec fn all_ascii(s: Seq<char>) -> bool {
    forall|i: int| 0 <= i < s.len() ==> #[trigger] is_ascii_char(s[i])
}

/// An ASCII letter or digit.
pub open spec fn is_ascii_alnum(c: char) -> bool {
    ('A' <= c && c <= 'Z') || ('a' <= c && c <= 'z') || ('0' <= c && c <= '9')
}

/// An ASCII uppercase letter.
pub open spec fn is_ascii_upper(c: char) -> bool {
    'A' <= c && c <= 'Z'
}

/// An ASCII lowercase letter.
pub open spec fn is_ascii_lower(c: char) -> bool {
    'a' <= c && c <= 'z'
}

/// `c` with an ASCII lowercase letter mapped to its uppercase letter.
pub open spec fn ascii_upper(c: char) -> char {
    if is_ascii_lower(c) {
        ((c as u32) - 32) as char
    } else {
        c
    }
}

/// `c` with an ASCII uppercase letter mapped to its lowercase letter.
pub open spec fn ascii_lower(c: char) -> char {
    if is_ascii_upper(c) {
        ((c as u32) + 32) as char
    } else {
        c
    }
}

/// What std does with ASCII text: among ASCII characters exactly the letters
/// and digits are alphanumeric (space, tab, newline, other control characters
/// and punctuation are not); A-Z are uppercase and not lowercase, a-z
/// lowercase and not uppercase, the space neither; upper- and lower-casing
/// map the letters of ASCII text one for one to the other case and leave every
/// other ASCII character alone.
///
/// The named functions above are opaque, so what std does with ASCII is
/// stated here as a predicate: laws that rest on it take it as a hypothesis,
/// and each wrapper states the same facts of the values it returns.
pub open spec fn std_ascii_facts() -> bool {
    &&& forall|c: char| is_ascii_char(c) ==> #[trigger] is_alphanumeric_char(c) == is_ascii_alnum(c)
    &&& forall|c: char|
        #![trigger is_uppercase_char(c)]
        #![trigger is_lowercase_char(c)]
        is_ascii_upper(c) ==> is_uppercase_char(c) && !is_lowercase_char(c)
    &&& forall|c: char|
        #![trigger is_uppercase_char(c)]
        #![trigger is_lowercase_char(c)]
        is_ascii_lower(c) ==> is_lowercase_char(c) && !is_uppercase_char(c)
    &&& !is_uppercase_char(' ') && !is_lowercase_char(' ')
    &&& forall|c: char| is_ascii_lower(c) ==> #[trigger] char_uppercase_of(c) == seq![ascii_upper(c)]
    &&& forall|s: Seq<char>| all_ascii(s) ==> #[trigger] uppercase_of(s) == s.map_values(|c: char| ascii_upper(c))
    &&& forall|s: Seq<char>| all_ascii(s) ==> #[trigger] lowercase_of(s) == s.map_values(|c: char| ascii_lower(c))
}

/// Calls `char::is_alphanumeric`; claims that the answer is the named
/// property of `c`, which for an ASCII character holds exactly of the letters
/// and digits.
#[verifier::external_body]
pub(crate) fn char_is_alphanumeric(c: char) -> (r: bool)
    ensures
        r == is_alphanumeric_char(c),
        is_ascii_char(c) ==> r == is_ascii_alnum(c),
{
    c.is_alphanumeric()
}

/// Calls `char::is_uppercase`; claims that the answer is the named property
/// of `c`, true for A-Z and false for a-z and the space.
#[verifier::external_body]
pub(crate) fn char_is_uppercase(c: char) -> (r: bool)
    ensures
        r == is_uppercase_char(c),
        is_ascii_upper(c) ==> r,
        is_ascii_lower(c) || c == ' ' ==> !r,
{
    c.is_uppercase()
}

/// Calls `char::is_lowercase`; claims that the answer is the named property
/// of `c`, true for a-z and false for A-Z and the space.
#[verifier::external_body]
pub(crate) fn char_is_lowercase(c: char) -> (r: bool)
    ensures
        r == is_lowercase_char(c),
        is_ascii_lower(c) ==> r,
        is_ascii_upper(c) || c == ' ' ==> !r,
{
    c.is_lowercase()
}

/// Calls `str::to_lowercase`; claims that the new string holds the named
/// lowercase mapping of `s`, which for ASCII text maps A-Z to a-z one for one
/// and leaves every other character alone.
#[verifier::external_body]
pub(crate) fn str_to_lowercase(s: &str) -> (r: String)
    ensures
        r@ == lowercase_of(s@),
        all_ascii(s@) ==> r@ == s@.map_values(|c: char| ascii_lower(c)),
{
    s.to_lowercase()
}

/// Calls `str::to_uppercase`; claims that the new string holds the named
/// uppercase mapping of `s`, which for ASCII text maps a-z to A-Z one for one
/// and leaves every other character alone.
#[verifier::external_body]
pub(crate) fn str_to_uppercase(s: &str) -> (r: String)
    ensures
        r@ == uppercase_of(s@),
        all_ascii(s@) ==> r@ == s@.map_values(|c: char| ascii_upper(c)),
{
    s.to_uppercase()
}

/// Calls `char::to_uppercase` and collects the characters it yields into a
/// string; claims that they are the named uppercase mapping of `c`, for a-z
/// the one matching letter of A-Z.
#[verifier::external_body]
pub(crate) fn char_to_uppercase(c: char) -> (r: String)
    ensures
        r@ == char_uppercase_of(c),
        is_ascii_lower(c) ==> r@ == seq![ascii_upper(c)],
{
    c.to_uppercase().collect::<String>()
}

/// Calls `String::push`: the string afterwards holds its old characters
/// followed by `c`.
#[verifier::external_body]
pub(crate) fn push_char(s: &mut String, c: char)
    ensures
        final(s)@ == old(s)@.push(c),
{
    s.push(c);
}

} // verus!
