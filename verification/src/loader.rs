use vstd::prelude::*;
use crate::text::{
    chars_of, decimal, replace_all, replace_all_in, string_from_chars, u8_decimal, upper_ascii,
};

verus! {

/// Where the ADT file of a tile lies: `world/maps/{map}/{map}_{x}_{y}.adt`.
pub open spec fn adt_path_text(map_name: Seq<char>, x: u8, y: u8) -> Seq<char> {
    "world/maps/"@ + map_name + "/"@ + map_name + "_"@ + decimal(x as nat) + "_"@ + decimal(
        y as nat,
    ) + ".adt"@
}

fn append(v: &mut Vec<char>, s: &Vec<char>)
    ensures
        final(v)@ == old(v)@ + s@,
{
    let mut i: usize = 0;
    let ghost v0 = v@;
    while i < s.len()
        invariant
            i <= s@.len(),
            v@ == v0 + s@.take(i as int),
        decreases s@.len() - i,
    {
        v.push(s[i]);
        i = i + 1;
        assert(v@ =~= v0 + s@.take(i as int));
    }
    assert(s@.take(i as int) =~= s@);
}

/// The path of the ADT file of tile (`x`, `y`) of the map `map_name`.
pub fn adt_path(map_name: &str, x: u8, y: u8) -> (p: String)
    ensures
        p@ == adt_path_text(map_name@, x, y),
{
    let map = chars_of(map_name);
    let mut v = chars_of("world/maps/");
    append(&mut v, &map);
    append(&mut v, &chars_of("/"));
    append(&mut v, &map);
    append(&mut v, &chars_of("_"));
    append(&mut v, &u8_decimal(x));
    append(&mut v, &chars_of("_"));
    append(&mut v, &u8_decimal(y));
    append(&mut v, &chars_of(".adt"));
    string_from_chars(v.as_slice())
}

/// What `str::to_uppercase` makes of `s` (Unicode upper case).
pub uninterp spec fn unicode_upper(s: Seq<char>) -> Seq<char>;

/// Upper-cases `s` with `str::to_uppercase`. The result is named by `unicode_upper`; for
/// ASCII text it is the ASCII upper case (the Unicode upper case of an ASCII letter is its
/// ASCII upper case). What it makes of other characters is not stated.
#[verifier::external_body]
fn to_uppercase(s: &str) -> (u: String)
    ensures
        u@ == unicode_upper(s@),
        crate::text::is_ascii_text(s@) ==> u@ == upper_ascii(s@),
{
    s.to_uppercase()
}

/// The SKIN file of an M2 model: the path upper-cased, with every `.M2` replaced by
/// `00.SKIN`.
pub open spec fn skin_path_text(m2_path: Seq<char>) -> Seq<char> {
    replace_all(unicode_upper(m2_path), ".M2"@, "00.SKIN"@)
}

/// The path of the first SKIN file of the M2 model at `m2_path`.
pub fn skin_path(m2_path: &str) -> (p: String)
    ensures
        p@ == skin_path_text(m2_path@),
        crate::text::is_ascii_text(m2_path@) ==> p@ == replace_all(
            upper_ascii(m2_path@),
            ".M2"@,
            "00.SKIN"@,
        ),
{
    let upper = to_uppercase(m2_path);
    let pat = chars_of(".M2");
    proof {
        reveal_strlit(".M2");
    }
    let v = replace_all_in(&chars_of(upper.as_str()), &pat, &chars_of("00.SKIN"));
    string_from_chars(v.as_slice())
}

} // verus!
