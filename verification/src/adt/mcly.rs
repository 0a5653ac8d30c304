use vstd::prelude::*;
use crate::io::{le_u32, read_u32, Cursor};
use crate::error::FormatError;

verus! {

/// One texture layer of a terrain chunk.
#[derive(Clone, Copy, Debug)]
pub struct MclyEntry {
    pub texture_id: u32,
    pub flags: u32,
    pub offset_in_mcal: u32,
    pub effect_id: u32,
}

/// The texture layers of a terrain chunk (up to four in WotLK).
#[derive(Clone, Debug)]
pub struct Mcly {
    pub layers: Vec<MclyEntry>,
}

/// The 16-byte layer record stored at `at`.
pub open spec fn mcly_entry_at(d: Seq<u8>, at: int) -> MclyEntry {
    MclyEntry {
        texture_id: le_u32(d, at),
        flags: le_u32(d, at + 4),
        offset_in_mcal: le_u32(d, at + 8),
        effect_id: le_u32(d, at + 12),
    }
}

/// The layers of an MCLY body: one record per whole 16 bytes; trailing bytes are ignored.
pub open spec fn mcly_layers(d: Seq<u8>) -> Seq<MclyEntry> {
    Seq::new((d.len() / 16) as nat, |i: int| mcly_entry_at(d, 16 * i))
}

/// Reads the layer records of an MCLY body. Never fails.
pub fn parse(data: &[u8]) -> (res: Result<Mcly, FormatError>)
    ensures
        res matches Ok(m) && m.layers@ == mcly_layers(data@),
{
    let num_layers = data.len() / 16;
    let mut layers: Vec<MclyEntry> = Vec::new();
    let mut r = Cursor::new(data);
    let mut i: usize = 0;
    while i < num_layers
        invariant
            num_layers == data@.len() / 16,
            i <= num_layers,
            r.data@ == data@,
            r.pos == 16 * i,
            layers@ == mcly_layers(data@).take(i as int),
        decreases num_layers - i,
    {
        assert(16 * i + 16 <= data@.len());
        let texture_id = read_u32(&mut r).unwrap();
        let flags = read_u32(&mut r).unwrap();
        let offset_in_mcal = read_u32(&mut r).unwrap();
        let effect_id = read_u32(&mut r).unwrap();
        layers.push(MclyEntry { texture_id, flags, offset_in_mcal, effect_id });
        i = i + 1;
        assert(layers@ == mcly_layers(data@).take(i as int));
    }
    assert(layers@ == mcly_layers(data@));
    Ok(Mcly { layers })
}

/// The layers of an MCLY body are its whole 16-byte records in order; record `i` holds the
/// texture id, the flags, the alpha map offset and the effect id as the four little-endian
/// words at 16i, 16i+4, 16i+8 and 16i+12.
pub proof fn law_mcly_record_layout(d: Seq<u8>)
    ensures
        mcly_layers(d).len() == d.len() / 16,
        forall|i: int|
            0 <= i < d.len() / 16 ==> {
                let e = #[trigger] mcly_layers(d)[i];
                &&& e.texture_id == le_u32(d, 16 * i)
                &&& e.flags == le_u32(d, 16 * i + 4)
                &&& e.offset_in_mcal == le_u32(d, 16 * i + 8)
                &&& e.effect_id == le_u32(d, 16 * i + 12)
            },
{
}

} // verus!
