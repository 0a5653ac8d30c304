use vstd::prelude::*;
use crate::io::{le_u16, le_u32, read_f32, read_u16, read_u32, Cursor};
use crate::error::FormatError;

verus! {

/// The placement of one doodad (M2 model) on an ADT tile. Floats are held as their
/// IEEE-754 bit patterns.
#[derive(Clone, Copy, Debug)]
pub struct MddfEntry {
    /// Index into the doodad file name list.
    pub name_id: u32,
    /// Unique identifier; not needed for rendering.
    pub unique_id: u32,
    /// Position (bit patterns of three floats).
    pub position: [u32; 3],
    /// Rotation in degrees around each axis (bit patterns of three floats).
    pub rotation: [u32; 3],
    /// Fixed-point scale; 1024 means 1.0.
    pub scale: u16,
    pub flags: u16,
}

/// `e` is the 36-byte placement record stored at `at`.
pub open spec fn mddf_entry_at(d: Seq<u8>, at: int, e: MddfEntry) -> bool {
    &&& e.name_id == le_u32(d, at)
    &&& e.unique_id == le_u32(d, at + 4)
    &&& e.position@ == seq![le_u32(d, at + 8), le_u32(d, at + 12), le_u32(d, at + 16)]
    &&& e.rotation@ == seq![le_u32(d, at + 20), le_u32(d, at + 24), le_u32(d, at + 28)]
    &&& e.scale == le_u16(d, at + 32)
    &&& e.flags == le_u16(d, at + 34)
}

/// `es` are the placement records of an MDDF body: one per whole 36 bytes.
pub open spec fn mddf_entries(d: Seq<u8>, es: Seq<MddfEntry>) -> bool {
    &&& es.len() == d.len() / 36
    &&& forall|i: int| 0 <= i < es.len() ==> mddf_entry_at(d, 36 * i, #[trigger] es[i])
}

/// Reads the placement records of an MDDF body; trailing bytes are ignored. Never fails.
pub fn parse(data: &[u8]) -> (res: Result<Vec<MddfEntry>, FormatError>)
    ensures
        res matches Ok(es) && mddf_entries(data@, es@),
{
    let count = data.len() / 36;
    let mut entries: Vec<MddfEntry> = Vec::new();
    let mut r = Cursor::new(data);
    let mut i: usize = 0;
    while i < count
        invariant
            count == data@.len() / 36,
            i <= count,
            r.data@ == data@,
            r.pos == 36 * i,
            entries@.len() == i,
            forall|k: int| 0 <= k < i ==> mddf_entry_at(data@, 36 * k, #[trigger] entries@[k]),
        decreases count - i,
    {
        assert(36 * i + 36 <= data@.len());
        let name_id = read_u32(&mut r).unwrap();
        let unique_id = read_u32(&mut r).unwrap();
        let p0 = read_f32(&mut r).unwrap();
        let p1 = read_f32(&mut r).unwrap();
        let p2 = read_f32(&mut r).unwrap();
        let r0 = read_f32(&mut r).unwrap();
        let r1 = read_f32(&mut r).unwrap();
        let r2 = read_f32(&mut r).unwrap();
        let scale = read_u16(&mut r).unwrap();
        let flags = read_u16(&mut r).unwrap();
        let e = MddfEntry {
            name_id,
            unique_id,
            position: [p0, p1, p2],
            rotation: [r0, r1, r2],
            scale,
            flags,
        };
        assert(e.position@ == seq![p0, p1, p2]);
        assert(e.rotation@ == seq![r0, r1, r2]);
        entries.push(e);
        i = i + 1;
    }
    Ok(entries)
}

/// Each doodad placement is a 36-byte record in file order: name index at 0, unique id at
/// 4, the position words at 8, 12, 16, the rotation words at 20, 24, 28, the scale at 32
/// and the flags at 34.
pub proof fn law_mddf_record_layout(d: Seq<u8>, es: Seq<MddfEntry>)
    requires
        mddf_entries(d, es),
    ensures
        es.len() == d.len() / 36,
        forall|i: int|
            0 <= i < es.len() ==> {
                let e = #[trigger] es[i];
                let at = 36 * i;
                &&& e.name_id == le_u32(d, at)
                &&& e.unique_id == le_u32(d, at + 4)
                &&& e.position[0] == le_u32(d, at + 8) && e.position[1] == le_u32(d, at + 12)
                    && e.position[2] == le_u32(d, at + 16)
                &&& e.rotation[0] == le_u32(d, at + 20) && e.rotation[1] == le_u32(d, at + 24)
                    && e.rotation[2] == le_u32(d, at + 28)
                &&& e.scale == le_u16(d, at + 32)
                &&& e.flags == le_u16(d, at + 34)
            },
{
    assert forall|i: int| 0 <= i < es.len() implies {
        let e = #[trigger] es[i];
        let at = 36 * i;
        &&& e.name_id == le_u32(d, at)
        &&& e.unique_id == le_u32(d, at + 4)
        &&& e.position[0] == le_u32(d, at + 8) && e.position[1] == le_u32(d, at + 12)
            && e.position[2] == le_u32(d, at + 16)
        &&& e.rotation[0] == le_u32(d, at + 20) && e.rotation[1] == le_u32(d, at + 24)
            && e.rotation[2] == le_u32(d, at + 28)
        &&& e.scale == le_u16(d, at + 32)
        &&& e.flags == le_u16(d, at + 34)
    } by {
        assert(mddf_entry_at(d, 36 * i, es[i]));
        assert(es[i].position[0] == es[i].position@[0]);
    }
}

} // verus!
