use vstd::prelude::*;

verus! {

/// Why a file of one of the game's formats could not be read.
#[derive(Debug, Clone, PartialEq, Eq)]
pub enum FormatError {
    /// The data ended before a value that had to be read.
    UnexpectedEof,
    /// The file does not start with `MD20`.
    NotM2File,
    /// The file does not start with `SKIN`.
    NotSkinFile,
    /// An MCNK chunk has no MCLY subchunk.
    MissingMcly,
    /// An MCNK chunk has no MCVT subchunk.
    MissingMcvt,
    /// An ADT file holds this many MCNK chunks instead of 256.
    ChunkCount(usize),
    /// An uncompressed alpha map starting at this offset runs past the MCAL data.
    AlphaMapOutOfBounds(usize),
    /// A 4-bit packed alpha map starting at this offset runs past the MCAL data.
    PackedAlphaMapOutOfBounds(usize),
    /// Compressed alpha data ended when this many output bytes had been written.
    CompressedDataEnded(usize),
    /// A fill run has no value byte at this input position.
    FillValueMissing(usize),
    /// A copy run needs input up to this end but the data has only this many bytes.
    CopyOutOfBounds(usize, usize),
    /// The BLP decoder refused the image, with its message.
    BlpDecode(String),
}

} // verus!
