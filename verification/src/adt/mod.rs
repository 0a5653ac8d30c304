pub mod mcal;
pub mod mcly;
pub mod mcnk;
pub mod mddf;
pub mod mtex;

use vstd::prelude::*;
use self::mcnk::{mcnk_outcome, mcnk_reaches_bad_offset, Mcnk, McnkModel};
use self::mddf::{mddf_entries, MddfEntry};

use crate::io::{le_u32, nullterm_list, read_nullterm_strings_at, decoded_as, Cursor};
use crate::chunks::ChunkHeader;
use crate::error::FormatError;

verus! {

/// An ADT map tile: 256 terrain chunks, texture names and doodad placements.
pub struct Adt {
    pub chunks: Vec<Mcnk>,
    pub texture_paths: Vec<String>,
    pub doodad_filenames: Option<Vec<String>>,
    pub doodad_placements: Option<Vec<MddfEntry>>,
    pub tile_x: u8,
    pub tile_y: u8,
}

/// What the top-level chunk walk has found so far: the chunks in order and the bodies of
/// the last MTEX, MMDX and MDDF chunks.
pub struct AdtScan {
    pub chunks: Seq<McnkModel>,
    pub mtex: Option<Seq<u8>>,
    pub mmdx: Option<Seq<u8>>,
    pub mddf: Option<Seq<u8>>,
}

/// The tag of an MCNK chunk as stored.
pub open spec fn tag_mcnk() -> Seq<u8> {
    seq![0x4bu8, 0x4eu8, 0x43u8, 0x4du8]
}

/// The tag of an MTEX chunk as stored.
pub open spec fn tag_mtex() -> Seq<u8> {
    seq![0x58u8, 0x45u8, 0x54u8, 0x4du8]
}

/// The tag of an MMDX chunk as stored.
pub open spec fn tag_mmdx() -> Seq<u8> {
    seq![0x58u8, 0x44u8, 0x4du8, 0x4du8]
}

/// The tag of an MDDF chunk as stored.
pub open spec fn tag_mddf() -> Seq<u8> {
    seq![0x46u8, 0x44u8, 0x44u8, 0x4du8]
}

/// The chunk read at `pos` carries a body that is read (MCNK, MTEX, MMDX, MDDF).
pub open spec fn has_read_body(d: Seq<u8>, pos: int) -> bool {
    let magic = d.subrange(pos, pos + 4);
    magic == tag_mcnk() || magic == tag_mtex() || magic == tag_mmdx() || magic == tag_mddf()
}

/// Walks the top-level chunks from `pos`. A header that does not fit ends the walk; a body
/// that must be read and does not fit, or an MCNK body that cannot be read, is an error.
/// Other chunks (MVER, MHDR, unknown ones) are skipped.
pub open spec fn adt_scan(d: Seq<u8>, pos: int, st: AdtScan) -> Result<AdtScan, FormatError>
    decreases d.len() - pos,
{
    if pos < 0 || pos + 8 > d.len() {
        Ok(st)
    } else {
        let magic = d.subrange(pos, pos + 4);
        let body = pos + 8;
        let next = body + le_u32(d, pos + 4);
        if has_read_body(d, pos) && next > d.len() {
            Err(FormatError::UnexpectedEof)
        } else {
            let r = if magic == tag_mcnk() {
                match mcnk_outcome(d.subrange(body, next)) {
                    Err(e) => Err(e),
                    Ok(c) => Ok(AdtScan { chunks: st.chunks.push(c), ..st }),
                }
            } else if magic == tag_mtex() {
                Ok(AdtScan { mtex: Some(d.subrange(body, next)), ..st })
            } else if magic == tag_mmdx() {
                Ok(AdtScan { mmdx: Some(d.subrange(body, next)), ..st })
            } else if magic == tag_mddf() {
                Ok(AdtScan { mddf: Some(d.subrange(body, next)), ..st })
            } else {
                Ok(st)
            };
            match r {
                Err(e) => Err(e),
                Ok(st2) => if next + 8 > d.len() {
                    Ok(st2)
                } else {
                    adt_scan(d, next, st2)
                },
            }
        }
    }
}

/// Nothing found yet.
pub open spec fn adt_scan_start() -> AdtScan {
    AdtScan { chunks: Seq::empty(), mtex: None, mmdx: None, mddf: None }
}

/// The tile that an ADT file describes, as found by the walk, or why it cannot be read.
pub open spec fn adt_outcome(d: Seq<u8>) -> Result<AdtScan, FormatError> {
    match adt_scan(d, 0, adt_scan_start()) {
        Err(e) => Err(e),
        Ok(st) => if st.chunks.len() != 256 {
            Err(FormatError::ChunkCount(st.chunks.len() as usize))
        } else {
            Ok(st)
        },
    }
}

/// A tile that reads holds exactly 256 terrain chunks.
pub proof fn law_tile_has_256_chunks(d: Seq<u8>)
    ensures
        adt_outcome(d) matches Ok(st) ==> st.chunks.len() == 256,
{
}

/// The walk from `pos` reaches an MCNK body whose reading slices an alpha map past the
/// end of its MCAL body (before any error).
pub open spec fn adt_scan_reaches_bad_offset(d: Seq<u8>, pos: int) -> bool
    decreases d.len() - pos,
{
    if pos < 0 || pos + 8 > d.len() {
        false
    } else {
        let magic = d.subrange(pos, pos + 4);
        let body = pos + 8;
        let next = body + le_u32(d, pos + 4);
        if has_read_body(d, pos) && next > d.len() {
            false
        } else if magic == tag_mcnk() && mcnk_reaches_bad_offset(d.subrange(body, next)) {
            true
        } else if magic == tag_mcnk() && mcnk_outcome(d.subrange(body, next)) is Err {
            false
        } else if next + 8 > d.len() {
            false
        } else {
            adt_scan_reaches_bad_offset(d, next)
        }
    }
}

/// `names` are the strings of the list of null-terminated names in `body`, decoded.
pub open spec fn names_of(body: Seq<u8>, names: Seq<Seq<char>>) -> bool {
    &&& names.len() == nullterm_list(body, 0).len()
    &&& forall|i: int|
        0 <= i < names.len() ==> decoded_as(nullterm_list(body, 0)[i], #[trigger] names[i])
}

/// The texts of `v`.
pub open spec fn texts(v: Seq<String>) -> Seq<Seq<char>> {
    Seq::new(v.len(), |i: int| v[i]@)
}

impl Adt {
    /// The chunks' contents.
    pub open spec fn chunk_models(&self) -> Seq<McnkModel> {
        Seq::new(self.chunks@.len(), |i: int| self.chunks@[i].model())
    }

    /// This tile holds what the walk found: the chunks, the names of the last MTEX (none
    /// without one), the names of the last MMDX and the placements of the last MDDF
    /// (empty lists without them).
    pub open spec fn holds(&self, st: AdtScan) -> bool {
        &&& self.chunk_models() == st.chunks
        &&& names_of(
            match st.mtex {
                Some(b) => b,
                None => Seq::empty(),
            },
            texts(self.texture_paths@),
        )
        &&& self.doodad_filenames matches Some(names) && names_of(
            match st.mmdx {
                Some(b) => b,
                None => Seq::empty(),
            },
            texts(names@),
        )
        &&& self.doodad_placements matches Some(es) && mddf_entries(
            match st.mddf {
                Some(b) => b,
                None => Seq::empty(),
            },
            es@,
        )
    }
}

/// Whether the tag is the four bytes given.
fn tag_is(m: &[u8; 4], a: u8, b: u8, c: u8, e: u8) -> (r: bool)
    ensures
        r == (m@ == seq![a, b, c, e]),
{
    let r = m[0] == a && m[1] == b && m[2] == c && m[3] == e;
    assert(r ==> m@ =~= seq![a, b, c, e]);
    assert(m@ == seq![a, b, c, e] ==> m@[0] == a && m@[1] == b && m@[2] == c && m@[3] == e);
    r
}

/// How reading an ADT file ended.
enum AdtRead {
    Done(Result<Adt, FormatError>),
    BadOffset,
}

/// Walks the file as `parse` does, reporting the case of an alpha map sliced past the end
/// of its MCAL body instead of slicing there.
#[verifier::rlimit(100)]
fn read_adt(data: &[u8]) -> (res: AdtRead)
    ensures
        res is BadOffset <==> adt_scan_reaches_bad_offset(data@, 0),
        res matches AdtRead::Done(r) ==> match adt_scan(data@, 0, adt_scan_start()) {
            Ok(st) => r matches Ok(a) && a.holds(st) && a.tile_x == 0 && a.tile_y == 0,
            Err(e) => r == Err::<Adt, FormatError>(e),
        },
{
    let ghost d = data@;
    let mut r = Cursor::new(data);
    let len = data.len() as u64;
    let mut chunks: Vec<Mcnk> = Vec::new();
    let mut texture_paths: Vec<String> = Vec::new();
    let mut raw_mmdx: Option<Vec<String>> = Some(Vec::new());
    let mut raw_mddf: Option<Vec<MddfEntry>> = Some(Vec::new());
    let ghost mut st = adt_scan_start();
    let ghost target = adt_scan(d, 0, adt_scan_start());
    assert(nullterm_list(Seq::<u8>::empty(), 0).len() == 0);
    assert(texts(texture_paths@) =~= Seq::<Seq<char>>::empty());
    assert(Seq::new(chunks@.len(), |i: int| chunks@[i].model()) =~= Seq::<McnkModel>::empty());
    loop
        invariant_except_break
            d == data@,
            target == adt_scan(d, 0, adt_scan_start()),
            r.data@ == d,
            len == d.len(),
            adt_scan(d, r.pos as int, st) == target,
            adt_scan_reaches_bad_offset(d, r.pos as int) == adt_scan_reaches_bad_offset(d, 0),
            (Adt {
                chunks,
                texture_paths,
                doodad_filenames: raw_mmdx,
                doodad_placements: raw_mddf,
                tile_x: 0,
                tile_y: 0,
            }).holds(st),
        ensures
            d == data@,
            target == adt_scan(d, 0, adt_scan_start()),
            target == Ok::<AdtScan, FormatError>(st),
            !adt_scan_reaches_bad_offset(d, 0),
            (Adt {
                chunks,
                texture_paths,
                doodad_filenames: raw_mmdx,
                doodad_placements: raw_mddf,
                tile_x: 0,
                tile_y: 0,
            }).holds(st),
        decreases (if r.pos > len { 0 } else { len - r.pos }),
    {
        let ghost pos = r.pos as int;
        let ghost st_before = st;
        let header = match ChunkHeader::read(&mut r) {
            Ok(h) => h,
            Err(_) => {
                break;
            },
        };
        let start = r.position();
        let next = start.saturating_add(header.size as u64);
        assert(header.magic@ == d.subrange(pos, pos + 4));
        let ghost nxt = pos + 8 + le_u32(d, pos + 4);
        if tag_is(&header.magic, 0x4bu8, 0x4eu8, 0x43u8, 0x4du8) {
            let chunk_data = match r.read_bytes(header.size as u64) {
                Ok(b) => b,
                Err(e) => {
                    assert(adt_scan(d, pos, st) == Err::<AdtScan, FormatError>(e));
                    assert(!adt_scan_reaches_bad_offset(d, pos));
                    return AdtRead::Done(Err(e));
                },
            };
            if !mcnk::alpha_offsets_valid(chunk_data.as_slice()) {
                assert(adt_scan_reaches_bad_offset(d, pos));
                return AdtRead::BadOffset;
            }
            let chunk = match mcnk::parse(chunk_data.as_slice()) {
                Ok(c) => c,
                Err(e) => {
                    assert(adt_scan(d, pos, st) == Err::<AdtScan, FormatError>(e));
                    assert(!adt_scan_reaches_bad_offset(d, pos));
                    return AdtRead::Done(Err(e));
                },
            };
            let ghost old_models = Seq::new(chunks@.len(), |i: int| chunks@[i].model());
            chunks.push(chunk);
            proof {
                st = AdtScan { chunks: st.chunks.push(chunk.model()), ..st };
                assert(Seq::new(chunks@.len(), |i: int| chunks@[i].model()) =~= old_models.push(
                    chunk.model(),
                ));
            }
        } else if tag_is(&header.magic, 0x58u8, 0x45u8, 0x54u8, 0x4du8) {
            let chunk_data = match r.read_bytes(header.size as u64) {
                Ok(b) => b,
                Err(e) => {
                    assert(adt_scan(d, pos, st) == Err::<AdtScan, FormatError>(e));
                    assert(!adt_scan_reaches_bad_offset(d, pos));
                    return AdtRead::Done(Err(e));
                },
            };
            texture_paths = mtex::parse(chunk_data.as_slice()).unwrap().filenames;
            proof {
                st = AdtScan { mtex: Some(chunk_data@), ..st };
                assert(texts(texture_paths@).len() == texture_paths@.len());
            }
        } else if tag_is(&header.magic, 0x58u8, 0x44u8, 0x4du8, 0x4du8) {
            let chunk_data = match r.read_bytes(header.size as u64) {
                Ok(b) => b,
                Err(e) => {
                    assert(adt_scan(d, pos, st) == Err::<AdtScan, FormatError>(e));
                    assert(!adt_scan_reaches_bad_offset(d, pos));
                    return AdtRead::Done(Err(e));
                },
            };
            let mut cursor = Cursor::new(chunk_data.as_slice());
            let names = read_nullterm_strings_at(&mut cursor, 0).unwrap();
            proof {
                st = AdtScan { mmdx: Some(chunk_data@), ..st };
                assert(texts(names@).len() == names@.len());
            }
            raw_mmdx = Some(names);
        } else if tag_is(&header.magic, 0x46u8, 0x44u8, 0x44u8, 0x4du8) {
            let chunk_data = match r.read_bytes(header.size as u64) {
                Ok(b) => b,
                Err(e) => {
                    assert(adt_scan(d, pos, st) == Err::<AdtScan, FormatError>(e));
                    assert(!adt_scan_reaches_bad_offset(d, pos));
                    return AdtRead::Done(Err(e));
                },
            };
            raw_mddf = Some(mddf::parse(chunk_data.as_slice()).unwrap());
            proof {
                st = AdtScan { mddf: Some(chunk_data@), ..st };
            }
        } else {
            r.seek(next);
        }
        proof {
            assert(r.pos == nxt || (r.pos == u64::MAX && nxt > u64::MAX));
            assert(adt_scan(d, pos, st_before) == (if nxt + 8 > d.len() {
                Ok::<AdtScan, FormatError>(st)
            } else {
                adt_scan(d, nxt, st)
            }));
            assert(adt_scan_reaches_bad_offset(d, pos) == (if nxt + 8 > d.len() {
                false
            } else {
                adt_scan_reaches_bad_offset(d, nxt)
            }));
            if nxt + 8 > d.len() {
                assert(adt_scan(d, r.pos as int, st) == Ok::<AdtScan, FormatError>(st));
                assert(!adt_scan_reaches_bad_offset(d, r.pos as int));
            }
        }
    }
    AdtRead::Done(
        Ok(
            Adt {
                chunks,
                texture_paths,
                doodad_filenames: raw_mmdx,
                doodad_placements: raw_mddf,
                tile_x: 0,
                tile_y: 0,
            },
        ),
    )
}

/// Reads an ADT file: walks its top-level chunks, reading every MCNK chunk, the MTEX
/// texture names, the MMDX doodad names and the MDDF doodad placements, and requires
/// exactly 256 MCNK chunks. The tile coordinates are left at 0.
pub fn parse(data: &[u8]) -> (res: Result<Adt, FormatError>)
    requires
        !adt_scan_reaches_bad_offset(data@, 0),
    ensures
        match adt_outcome(data@) {
            Ok(st) => res matches Ok(a) && a.holds(st) && a.tile_x == 0 && a.tile_y == 0,
            Err(e) => res == Err::<Adt, FormatError>(e),
        },
{
    match read_adt(data) {
        AdtRead::Done(Ok(adt)) => {
            if adt.chunks.len() != 256 {
                return Err(FormatError::ChunkCount(adt.chunks.len()));
            }
            Ok(adt)
        },
        AdtRead::Done(Err(e)) => Err(e),
        AdtRead::BadOffset => Err(FormatError::UnexpectedEof),
    }
}

/// Whether `parse` can read this file: `false` exactly when it would reach an MCNK chunk
/// with a run-length encoded alpha map whose offset lies past the end of its MCAL body.
pub fn alpha_offsets_valid(data: &[u8]) -> (b: bool)
    ensures
        b == !adt_scan_reaches_bad_offset(data@, 0),
{
    match read_adt(data) {
        AdtRead::BadOffset => false,
        _ => true,
    }
}

} // verus!
