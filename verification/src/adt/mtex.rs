use vstd::prelude::*;
use crate::io::{nullterm_list, read_nullterm_strings_at, decoded_as, Cursor};
use crate::error::FormatError;

verus! {

/// The texture file names of an ADT tile.
pub struct Mtex {
    pub filenames: Vec<String>,
}

/// Reads the null-terminated file names of an MTEX body. Never fails.
pub fn parse(data: &[u8]) -> (res: Result<Mtex, FormatError>)
    ensures
        res matches Ok(m) && m.filenames@.len() == nullterm_list(data@, 0).len() && (forall|i: int|
            0 <= i < m.filenames@.len() ==> decoded_as(
                nullterm_list(data@, 0)[i],
                #[trigger] m.filenames@[i]@,
            )),
{
    let mut r = Cursor::new(data);
    let filenames = match read_nullterm_strings_at(&mut r, 0) {
        Ok(v) => v,
        Err(e) => return Err(e),
    };
    Ok(Mtex { filenames })
}

} // verus!
