use vstd::prelude::*;
use crate::io::{nullterm_bytes, read_nullterm_string, decoded_as, Cursor};
use crate::error::FormatError;

verus! {

/// A texture record of an M2 model.
#[derive(Debug, Clone, Copy)]
pub struct M2Texture {
    /// 0: the file name is stored in the file; other values: looked up at run time.
    pub texture_type: u32,
    pub flags: u32,
    pub filename_length: u32,
    /// Byte offset of the null-terminated BLP file name.
    pub filename_offset: u32,
}

/// The null-terminated file name stored at `offset` (lossy UTF-8). Never fails.
pub fn get_texture_path(data: &[u8], offset: usize) -> (res: Result<String, FormatError>)
    ensures
        res matches Ok(s) && decoded_as(nullterm_bytes(data@, offset as int), s@),
{
    let mut r = Cursor::new(data);
    r.seek(offset as u64);
    read_nullterm_string(&mut r)
}

} // verus!
