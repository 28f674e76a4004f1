//! Character classes that drive the scanners.
use vstd::prelude::*;

verus! {

/// What `char::is_alphanumeric` returns on `c` (Unicode `Alphabetic` or
/// `Numeric`).
pub uninterp spec fn alphanumeric(c: char) -> bool;

/// Relies on `char::is_alphanumeric`: its result depends on the character
/// alone.
#[verifier::external_body]
fn is_alphanumeric(c: char) -> (r: bool)
    ensures
        r == alphanumeric(c),
{
    c.is_alphanumeric()
}

/// The Unicode `White_Space` property.
pub open spec fn spec_is_space(c: char) -> bool {
    let u = c as u32;
    ||| 0x09 <= u <= 0x0D
    ||| u == 0x20
    ||| u == 0x85
    ||| u == 0xA0
    ||| u == 0x1680
    ||| 0x2000 <= u <= 0x200A
    ||| u == 0x2028
    ||| u == 0x2029
    ||| u == 0x202F
    ||| u == 0x205F
    ||| u == 0x3000
}

/// Whether `c` is white space.
#[verifier::when_used_as_spec(spec_is_space)]
pub fn is_space(c: char) -> (r: bool)
    ensures
        r == spec_is_space(c),
{
    let u = c as u32;
    (0x09 <= u && u <= 0x0D) || u == 0x20 || u == 0x85 || u == 0xA0 || u == 0x1680 || (0x2000
        <= u && u <= 0x200A) || u == 0x2028 || u == 0x2029 || u == 0x202F || u == 0x205F || u
        == 0x3000
}

/// Characters that make up a word: letters, digits and the underscore.
pub open spec fn spec_is_word_char(c: char) -> bool {
    alphanumeric(c) || c == '_'
}

/// Whether `c` belongs in a word.
#[verifier::when_used_as_spec(spec_is_word_char)]
pub fn is_word_char(c: char) -> (r: bool)
    ensures
        r == spec_is_word_char(c),
{
    c == '_' || is_alphanumeric(c)
}

/// Characters that may follow `@` in an at-word: anything but white space
/// and `{ } ( ) : ; ' " ,`.
pub open spec fn spec_is_at_word_char(c: char) -> bool {
    !spec_is_space(c) && c != '{' && c != '}' && c != '(' && c != ')' && c != ':' && c != ';'
        && c != '\'' && c != '"' && c != ','
}

/// Whether `c` continues an at-word.
#[verifier::when_used_as_spec(spec_is_at_word_char)]
pub fn is_at_word_char(c: char) -> (r: bool)
    ensures
        r == spec_is_at_word_char(c),
{
    !is_space(c) && c != '{' && c != '}' && c != '(' && c != ')' && c != ':' && c != ';' && c
        != '\'' && c != '"' && c != ','
}

/// Characters that an odd run of backslashes does not take into its token:
/// `/`, space, newline, tab and carriage return.
pub open spec fn spec_ends_escape(c: char) -> bool {
    c == '/' || c == ' ' || c == '\n' || c == '\t' || c == '\r'
}

/// Whether `c` is left out of a backslash escape.
#[verifier::when_used_as_spec(spec_ends_escape)]
pub fn ends_escape(c: char) -> (r: bool)
    ensures
        r == spec_ends_escape(c),
{
    c == '/' || c == ' ' || c == '\n' || c == '\t' || c == '\r'
}

} // verus!
