use vstd::prelude::*;
use crate::text::{
    chars_of, lower_ascii, replace_char, replace_char_in, string_from_chars, to_lower_ascii,
    to_upper_ascii, upper_ascii,
};

verus! {

/// A path in the form the MPQ archives store: backslashes, ASCII upper case.
pub fn normalise(path: &str) -> (p: String)
    ensures
        p@ == upper_ascii(replace_char(path@, '/', '\\')),
{
    let v = to_upper_ascii(&replace_char_in(&chars_of(path), '/', '\\'));
    string_from_chars(v.as_slice())
}

/// A path from an archive's file list in the form the rest of the program uses: slashes,
/// ASCII lower case.
pub fn abnormalize(path: &str) -> (p: String)
    ensures
        p@ == lower_ascii(replace_char(path@, '\\', '/')),
{
    let v = to_lower_ascii(&replace_char_in(&chars_of(path), '\\', '/'));
    string_from_chars(v.as_slice())
}

/// Turning a path into the archives' form and back gives the path with slashes in ASCII
/// lower case: whatever case and separators the path had, the round trip loses nothing
/// else.
pub proof fn law_normalise_round_trip(path: Seq<char>)
    ensures
        lower_ascii(replace_char(upper_ascii(replace_char(path, '/', '\\')), '\\', '/'))
            == lower_ascii(replace_char(path, '\\', '/')),
{
    let lhs = lower_ascii(replace_char(upper_ascii(replace_char(path, '/', '\\')), '\\', '/'));
    let rhs = lower_ascii(replace_char(path, '\\', '/'));
    assert forall|i: int| 0 <= i < path.len() implies lhs[i] == rhs[i] by {
        let c = path[i];
        if 'a' <= c && c <= 'z' {
            assert(((((c as u32) - 32) as char) as u32) == (c as u32) - 32);
            assert((((((c as u32) - 32) as char) as u32) + 32) as char == c);
        }
    }
    assert(lhs =~= rhs);
}

} // verus!
