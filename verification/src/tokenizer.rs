//! Character classes the lexer collaborator works with: which characters
//! may start a name, continue one, or continue a number.

use vstd::prelude::*;

verus! {

/// Whether `c` may continue an identifier: an ASCII letter, a digit or an
/// underscore.
pub fn is_name_char(c: char) -> (res: bool)
    ensures
        res == spec_is_name_char(c),
{
    ('a' <= c && c <= 'z') || ('A' <= c && c <= 'Z') || ('0' <= c && c <= '9') || c == '_'
}

/// Whether `c` may continue an identifier.
pub open spec fn spec_is_name_char(c: char) -> bool {
    ('a' <= c && c <= 'z') || ('A' <= c && c <= 'Z') || ('0' <= c && c <= '9') || c == '_'
}

/// Whether `c` may start an identifier: an ASCII letter or an underscore.
pub fn is_start_of_name_char(c: char) -> (res: bool)
    ensures
        res == spec_is_start_of_name_char(c),
{
    ('a' <= c && c <= 'z') || ('A' <= c && c <= 'Z') || c == '_'
}

/// Whether `c` may start an identifier.
pub open spec fn spec_is_start_of_name_char(c: char) -> bool {
    ('a' <= c && c <= 'z') || ('A' <= c && c <= 'Z') || c == '_'
}

/// Whether `c` may continue a number: an ASCII digit or the decimal point.
pub fn is_numeric_char(c: char) -> (res: bool)
    ensures
        res == spec_is_numeric_char(c),
{
    ('0' <= c && c <= '9') || c == '.'
}

/// Whether `c` may continue a number.
pub open spec fn spec_is_numeric_char(c: char) -> bool {
    ('0' <= c && c <= '9') || c == '.'
}

} // verus!
