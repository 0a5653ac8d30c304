use vstd::prelude::*;
use crate::io::{can_read, le_u32, read_u32, decoded_as, utf8_lossy, Cursor};
use crate::error::FormatError;

verus! {

/// The header in front of every chunk of the chunked formats: a four-byte tag (stored
/// reversed, so `MVER` reads `REVM`) and the size of the body that follows.
pub struct ChunkHeader {
    pub magic: [u8; 4],
    pub size: u32,
}

impl ChunkHeader {
    /// The tag as text, in the order it is usually written (the stored bytes reversed).
    pub fn magic_str(&self) -> (s: String)
        ensures
            decoded_as(seq![self.magic[3], self.magic[2], self.magic[1], self.magic[0]], s@),
    {
        let reversed = [self.magic[3], self.magic[2], self.magic[1], self.magic[0]];
        assert(reversed@ == seq![self.magic[3], self.magic[2], self.magic[1], self.magic[0]]);
        utf8_lossy(reversed.as_slice())
    }

    /// Reads a header: four tag bytes, then the body size as a little-endian `u32`.
    /// Fails when fewer than eight bytes are left, with the cursor moved to the end of the
    /// data.
    pub fn read(r: &mut Cursor) -> (res: Result<ChunkHeader, FormatError>)
        ensures
            final(r).data@ == old(r).data@,
            can_read(*old(r), 8) ==> (res matches Ok(h) && h.magic@ == old(r).data@.subrange(
                old(r).pos as int,
                old(r).pos + 4,
            ) && h.size == le_u32(old(r).data@, old(r).pos + 4) && final(r).pos == old(r).pos
                + 8),
            !can_read(*old(r), 8) ==> res == Err::<ChunkHeader, FormatError>(
                FormatError::UnexpectedEof,
            ) && final(r).pos == old(r).data@.len(),
    {
        if !r.has(8) {
            r.seek(r.data.len() as u64);
            return Err(FormatError::UnexpectedEof);
        }
        let p = r.pos as usize;
        let magic = [r.data[p], r.data[p + 1], r.data[p + 2], r.data[p + 3]];
        r.pos = r.pos + 4;
        let size = match read_u32(r) {
            Ok(v) => v,
            Err(e) => return Err(e),
        };
        assert(magic@ == old(r).data@.subrange(p as int, p + 4));
        Ok(ChunkHeader { magic, size })
    }
}

} // verus!
