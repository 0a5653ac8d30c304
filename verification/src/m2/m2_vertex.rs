use vstd::prelude::*;
use crate::io::le_u32;

verus! {

/// One vertex of an M2 model, 48 bytes in the file. Floats are held as their IEEE-754
/// bit patterns.
#[derive(Debug, Copy, Clone)]
pub struct M2Vertex {
    pub position: [u32; 3],
    pub bone_weights: [u8; 4],
    pub bone_indices: [u8; 4],
    pub normal: [u32; 3],
    pub tex_coords: [[u32; 2]; 2],
}

/// `v` is the vertex record stored at `at`.
pub open spec fn vertex_at(d: Seq<u8>, at: int, v: M2Vertex) -> bool {
    &&& v.position@ == seq![le_u32(d, at), le_u32(d, at + 4), le_u32(d, at + 8)]
    &&& v.bone_weights@ == d.subrange(at + 12, at + 16)
    &&& v.bone_indices@ == d.subrange(at + 16, at + 20)
    &&& v.normal@ == seq![le_u32(d, at + 20), le_u32(d, at + 24), le_u32(d, at + 28)]
    &&& v.tex_coords[0]@ == seq![le_u32(d, at + 32), le_u32(d, at + 36)]
    &&& v.tex_coords[1]@ == seq![le_u32(d, at + 40), le_u32(d, at + 44)]
}

/// A vertex record is read field by field in file order: three position words at 0, 4
/// and 8, four bone weights at 12..16, four bone indices at 16..20, three normal words at
/// 20, 24 and 28, the first texture coordinate pair (u, v) at 32 and 36, and the second
/// pair at 40 and 44.
pub proof fn law_vertex_record_layout(d: Seq<u8>, at: int, v: M2Vertex)
    requires
        vertex_at(d, at, v),
        0 <= at,
        at + 48 <= d.len(),
    ensures
        v.position[0] == le_u32(d, at),
        v.position[1] == le_u32(d, at + 4),
        v.position[2] == le_u32(d, at + 8),
        forall|k: int| 0 <= k < 4 ==> v.bone_weights[k] == d[at + 12 + k],
        forall|k: int| 0 <= k < 4 ==> v.bone_indices[k] == d[at + 16 + k],
        v.normal[0] == le_u32(d, at + 20),
        v.normal[1] == le_u32(d, at + 24),
        v.normal[2] == le_u32(d, at + 28),
        v.tex_coords[0][0] == le_u32(d, at + 32),
        v.tex_coords[0][1] == le_u32(d, at + 36),
        v.tex_coords[1][0] == le_u32(d, at + 40),
        v.tex_coords[1][1] == le_u32(d, at + 44),
{
    assert forall|k: int| 0 <= k < 4 implies v.bone_weights[k] == d[at + 12 + k] by {
        assert(v.bone_weights@[k] == d.subrange(at + 12, at + 16)[k]);
    }
    assert forall|k: int| 0 <= k < 4 implies v.bone_indices[k] == d[at + 16 + k] by {
        assert(v.bone_indices@[k] == d.subrange(at + 16, at + 20)[k]);
    }
}

} // verus!
