use vstd::prelude::*;
use crate::adt::mcal::{self, alpha_maps, blended_layers, reaches_bad_offset, Mcal};
use crate::adt::mcly::{self, mcly_layers, Mcly, MclyEntry};
use crate::io::{copy_range, le_u32, read_f32, read_f32_at, read_u32_at, Cursor};
use crate::chunks::ChunkHeader;
use crate::error::FormatError;

verus! {

/// Values of the heightmap of a chunk (9 x 9 outer and 8 x 8 inner vertices).
pub const HEIGHT_COUNT: usize = 145;

/// One terrain chunk (MCNK) of an ADT tile. Floats are held as their IEEE-754 bit
/// patterns.
pub struct Mcnk {
    /// x, y, z of the chunk's position, as stored (bit patterns).
    pub position: [u32; 3],
    /// The heightmap (bit patterns).
    pub heights: [u32; HEIGHT_COUNT],
    pub area_id: u32,
    pub holes: u32,
    pub layers: Mcly,
    pub mcal: Mcal,
}

/// What an MCNK chunk holds, as sequences.
pub struct McnkModel {
    pub position: Seq<u32>,
    pub heights: Seq<u32>,
    pub area_id: u32,
    pub holes: u32,
    pub layers: Seq<MclyEntry>,
    pub alpha_maps: Seq<Seq<u8>>,
}

impl Mcnk {
    pub open spec fn model(&self) -> McnkModel {
        McnkModel {
            position: self.position@,
            heights: self.heights@,
            area_id: self.area_id,
            holes: self.holes,
            layers: self.layers.layers@,
            alpha_maps: self.mcal.maps(),
        }
    }
}

/// What the subchunk walk has found so far.
pub struct ScanModel {
    pub heights: Option<Seq<u32>>,
    pub layers: Option<Seq<MclyEntry>>,
    pub raw_mcal: Option<Seq<u8>>,
}

/// The tag of the MCVT (heights) subchunk as stored.
pub open spec fn tag_mcvt() -> Seq<u8> {
    seq![0x54u8, 0x56u8, 0x43u8, 0x4du8]
}

/// The tag of the MCLY (layers) subchunk as stored.
pub open spec fn tag_mcly() -> Seq<u8> {
    seq![0x59u8, 0x4cu8, 0x43u8, 0x4du8]
}

/// The tag of the MCNR (normals) subchunk as stored.
pub open spec fn tag_mcnr() -> Seq<u8> {
    seq![0x52u8, 0x4eu8, 0x43u8, 0x4du8]
}

/// The tag of the MCAL (alpha maps) subchunk as stored.
pub open spec fn tag_mcal() -> Seq<u8> {
    seq![0x4cu8, 0x41u8, 0x43u8, 0x4du8]
}

/// The 145 height values stored from `at`.
pub open spec fn heights_at(d: Seq<u8>, at: int) -> Seq<u32> {
    Seq::new(HEIGHT_COUNT as nat, |k: int| le_u32(d, at + 4 * k))
}

/// Walks the subchunks from `pos` to the end of `d`, keeping the last MCVT heights, MCLY
/// layers and MCAL body. Each subchunk is an 8-byte header (tag, size) and a body; the
/// walk goes on after the body, except after MCNR, whose body is followed by 13 more
/// bytes. A header or a body that runs past the end is an error.
pub open spec fn mcnk_scan(d: Seq<u8>, pos: int, st: ScanModel) -> Result<ScanModel, FormatError>
    decreases d.len() - pos,
{
    if pos >= d.len() {
        Ok(st)
    } else if pos + 8 > d.len() {
        Err(FormatError::UnexpectedEof)
    } else {
        let magic = d.subrange(pos, pos + 4);
        let body = pos + 8;
        let next = body + le_u32(d, pos + 4);
        if magic == tag_mcvt() {
            if body + 4 * HEIGHT_COUNT > d.len() {
                Err(FormatError::UnexpectedEof)
            } else {
                let st2 = ScanModel { heights: Some(heights_at(d, body)), ..st };
                if next >= d.len() {
                    Ok(st2)
                } else {
                    mcnk_scan(d, next, st2)
                }
            }
        } else if magic == tag_mcly() {
            if next > d.len() {
                Err(FormatError::UnexpectedEof)
            } else {
                let st2 = ScanModel { layers: Some(mcly_layers(d.subrange(body, next))), ..st };
                if next >= d.len() {
                    Ok(st2)
                } else {
                    mcnk_scan(d, next, st2)
                }
            }
        } else if magic == tag_mcal() {
            if next > d.len() {
                Err(FormatError::UnexpectedEof)
            } else {
                let st2 = ScanModel { raw_mcal: Some(d.subrange(body, next)), ..st };
                if next >= d.len() {
                    Ok(st2)
                } else {
                    mcnk_scan(d, next, st2)
                }
            }
        } else if magic == tag_mcnr() {
            if next + 13 >= d.len() {
                Ok(st)
            } else {
                mcnk_scan(d, next + 13, st)
            }
        } else {
            if next >= d.len() {
                Ok(st)
            } else {
                mcnk_scan(d, next, st)
            }
        }
    }
}

/// The walk over the subchunks that follow the 128-byte MCNK header.
pub open spec fn mcnk_subchunks(d: Seq<u8>) -> Result<ScanModel, FormatError> {
    mcnk_scan(d, 128, ScanModel { heights: None, layers: None, raw_mcal: None })
}

/// The chunk that an MCNK body describes, or why it cannot be read. The header holds the
/// area id at 52, the holes mask at 60 and the position at 104; a chunk needs an MCLY
/// subchunk (checked first) and an MCVT subchunk; a missing MCAL means no alpha maps.
pub open spec fn mcnk_outcome(d: Seq<u8>) -> Result<McnkModel, FormatError> {
    if d.len() < 116 {
        Err(FormatError::UnexpectedEof)
    } else {
        match mcnk_subchunks(d) {
            Err(e) => Err(e),
            Ok(st) => match st.layers {
                None => Err(FormatError::MissingMcly),
                Some(layers) => {
                    let maps = match st.raw_mcal {
                        Some(raw) => alpha_maps(raw, blended_layers(layers)),
                        None => Ok(Seq::empty()),
                    };
                    match maps {
                        Err(e) => Err(e),
                        Ok(ms) => match st.heights {
                            None => Err(FormatError::MissingMcvt),
                            Some(h) => Ok(
                                McnkModel {
                                    position: seq![le_u32(d, 104), le_u32(d, 108), le_u32(d, 112)],
                                    heights: h,
                                    area_id: le_u32(d, 52),
                                    holes: le_u32(d, 60),
                                    layers,
                                    alpha_maps: ms,
                                },
                            ),
                        },
                    }
                },
            },
        }
    }
}

/// A chunk that reads takes its header fields from fixed places of the 128-byte header:
/// the area id from bytes 52..56, the holes mask from 60..64, and the position x, y, z
/// from the three consecutive little-endian words at 104, 108 and 112.
pub proof fn law_mcnk_header_fields(d: Seq<u8>)
    ensures
        mcnk_outcome(d) matches Ok(m) ==> {
            &&& m.position.len() == 3
            &&& m.position[0] == le_u32(d, 104)
            &&& m.position[1] == le_u32(d, 108)
            &&& m.position[2] == le_u32(d, 112)
            &&& m.area_id == le_u32(d, 52)
            &&& m.holes == le_u32(d, 60)
        },
{
}

/// Reading this MCNK body reaches a run-length encoded alpha map whose offset lies past
/// the end of the MCAL body (slicing there panics).
pub open spec fn mcnk_reaches_bad_offset(d: Seq<u8>) -> bool {
    &&& d.len() >= 116
    &&& mcnk_subchunks(d) matches Ok(st)
    &&& st.layers matches Some(layers)
    &&& st.raw_mcal matches Some(raw)
    &&& reaches_bad_offset(raw, blended_layers(layers))
}

/// The subchunks found by the walk.
struct Subchunks {
    heights: Option<[u32; HEIGHT_COUNT]>,
    layers: Option<Mcly>,
    raw_mcal: Option<Vec<u8>>,
}

impl Subchunks {
    spec fn model(&self) -> ScanModel {
        ScanModel {
            heights: match self.heights {
                Some(h) => Some(h@),
                None => None,
            },
            layers: match self.layers {
                Some(l) => Some(l.layers@),
                None => None,
            },
            raw_mcal: match self.raw_mcal {
                Some(m) => Some(m@),
                None => None,
            },
        }
    }
}

/// Whether the stored tag is the four bytes given.
fn tag_is(m: &[u8; 4], a: u8, b: u8, c: u8, e: u8) -> (r: bool)
    ensures
        r == (m@ == seq![a, b, c, e]),
{
    let r = m[0] == a && m[1] == b && m[2] == c && m[3] == e;
    assert(r ==> m@ =~= seq![a, b, c, e]);
    assert(m@ == seq![a, b, c, e] ==> m@[0] == a && m@[1] == b && m@[2] == c && m@[3] == e);
    r
}

/// Walks the subchunks after the 128-byte header.
fn scan_subchunks(data: &[u8]) -> (res: Result<Subchunks, FormatError>)
    ensures
        match mcnk_subchunks(data@) {
            Ok(st) => res matches Ok(s) && s.model() == st,
            Err(e) => res == Err::<Subchunks, FormatError>(e),
        },
{
    let ghost d = data@;
    let mut r = Cursor::new(data);
    r.seek(128);
    let end = data.len() as u64;
    let mut st = Subchunks { heights: None, layers: None, raw_mcal: None };
    while r.position() < end
        invariant
            d == data@,
            r.data@ == d,
            end == d.len(),
            mcnk_scan(d, r.pos as int, st.model()) == mcnk_subchunks(d),
        decreases end - (if r.pos > end { end } else { r.pos }),
    {
        let ghost pos0 = r.pos as int;
        let header = match ChunkHeader::read(&mut r) {
            Ok(h) => h,
            Err(e) => {
                assert(mcnk_scan(d, pos0, st.model()) == Err::<ScanModel, FormatError>(
                    FormatError::UnexpectedEof,
                ));
                assert(mcnk_subchunks(d) == Err::<ScanModel, FormatError>(FormatError::UnexpectedEof));
                assert(e == FormatError::UnexpectedEof);
                return Err(e);
            },
        };
        let body = r.position();
        let next = body.saturating_add(header.size as u64);
        let ghost pos = body - 8;
        assert(header.magic@ == d.subrange(pos as int, pos + 4));
        if tag_is(&header.magic, 0x54u8, 0x56u8, 0x43u8, 0x4du8) {
            if !r.has(4 * HEIGHT_COUNT as u64) {
                assert(mcnk_scan(d, pos0, st.model()) == Err::<ScanModel, FormatError>(
                    FormatError::UnexpectedEof,
                ));
                return Err(FormatError::UnexpectedEof);
            }
            let mut buf = [0u32; HEIGHT_COUNT];
            let mut k: usize = 0;
            while k < HEIGHT_COUNT
                invariant
                    r.data@ == d,
                    k <= HEIGHT_COUNT,
                    r.pos == body + 4 * k,
                    body + 4 * HEIGHT_COUNT <= d.len(),
                    buf@.len() == HEIGHT_COUNT,
                    forall|m: int| 0 <= m < k ==> buf@[m] == le_u32(d, body + 4 * m),
                decreases HEIGHT_COUNT - k,
            {
                let h = read_f32(&mut r).unwrap();
                buf[k] = h;
                k = k + 1;
            }
            assert(buf@ =~= heights_at(d, body as int));
            st.heights = Some(buf);
        } else if tag_is(&header.magic, 0x59u8, 0x4cu8, 0x43u8, 0x4du8) {
            let buffer = match r.read_bytes(header.size as u64) {
                Ok(b) => b,
                Err(e) => {
                    return Err(e);
                },
            };
            let layers = mcly::parse(buffer.as_slice()).unwrap();
            st.layers = Some(layers);
        } else if tag_is(&header.magic, 0x52u8, 0x4eu8, 0x43u8, 0x4du8) {
            r.seek(next.saturating_add(13));
            continue;
        } else if tag_is(&header.magic, 0x4cu8, 0x41u8, 0x43u8, 0x4du8) {
            let buf = match r.read_bytes(header.size as u64) {
                Ok(b) => b,
                Err(e) => {
                    return Err(e);
                },
            };
            st.raw_mcal = Some(buf);
        }
        r.seek(next);
    }
    Ok(st)
}

/// Reads an MCNK chunk body: the header fields, then the MCVT, MCLY, MCNR and MCAL
/// subchunks that follow the 128-byte header (others are skipped).
pub fn parse(data: &[u8]) -> (res: Result<Mcnk, FormatError>)
    requires
        !mcnk_reaches_bad_offset(data@),
    ensures
        match mcnk_outcome(data@) {
            Ok(m) => res matches Ok(x) && x.model() == m,
            Err(e) => res == Err::<Mcnk, FormatError>(e),
        },
        res matches Ok(x) ==> x.position[0] == le_u32(data@, 104) && x.position[1] == le_u32(
            data@,
            108,
        ) && x.position[2] == le_u32(data@, 112),
{
    let mut r = Cursor::new(data);
    let area_id = match read_u32_at(&mut r, 52) {
        Ok(v) => v,
        Err(e) => return Err(e),
    };
    let holes = match read_u32_at(&mut r, 60) {
        Ok(v) => v,
        Err(e) => return Err(e),
    };
    let pos_x = match read_f32_at(&mut r, 104) {
        Ok(v) => v,
        Err(e) => return Err(e),
    };
    let pos_y = match read_f32_at(&mut r, 108) {
        Ok(v) => v,
        Err(e) => return Err(e),
    };
    let pos_z = match read_f32_at(&mut r, 112) {
        Ok(v) => v,
        Err(e) => return Err(e),
    };
    let st = match scan_subchunks(data) {
        Ok(s) => s,
        Err(e) => return Err(e),
    };
    let layers = match st.layers {
        Some(l) => l,
        None => return Err(FormatError::MissingMcly),
    };
    let mcal = match st.raw_mcal {
        Some(raw) => match mcal::parse(raw.as_slice(), &layers) {
            Ok(m) => m,
            Err(e) => return Err(e),
        },
        None => Mcal::default(),
    };
    let heights = match st.heights {
        Some(h) => h,
        None => return Err(FormatError::MissingMcvt),
    };
    let position = [pos_x, pos_y, pos_z];
    assert(position@ == seq![pos_x, pos_y, pos_z]);
    let res = Mcnk { position, heights, area_id, holes, layers, mcal };
    assert(res.mcal.maps() =~= mcnk_outcome(data@)->Ok_0.alpha_maps);
    Ok(res)
}

/// Whether `parse` can read this MCNK body: `false` exactly when it would reach a
/// run-length encoded alpha map whose offset lies past the end of the MCAL body.
pub fn alpha_offsets_valid(data: &[u8]) -> (b: bool)
    ensures
        b == !mcnk_reaches_bad_offset(data@),
{
    if data.len() < 116 {
        return true;
    }
    match scan_subchunks(data) {
        Ok(st) => match (st.layers, st.raw_mcal) {
            (Some(layers), Some(raw)) => mcal::offsets_in_bounds(raw.as_slice(), &layers),
            _ => true,
        },
        Err(_) => true,
    }
}

} // verus!
