use vstd::prelude::*;
use crate::m2::m2_model::M2Model;
use crate::m2::m2_skin::{M2Batch, M2Skin, M2Submesh};
use crate::m2::m2_vertex::M2Vertex;

verus! {

/// An M2 model with its SKIN applied: the vertices the skin selects, its triangles with
/// 32-bit indices, and the model's texture data.
pub struct M2ResolvedMesh {
    pub vertices: Vec<M2Vertex>,
    pub indices: Vec<u32>,
    pub submeshes: Vec<M2Submesh>,
    pub batches: Vec<M2Batch>,
    pub texture_paths: Vec<String>,
    pub texture_lookup: Vec<u16>,
}

/// Every vertex index of the skin names a vertex of the model.
pub open spec fn skin_fits_model(model: M2Model, skin: M2Skin) -> bool {
    forall|i: int|
        0 <= i < skin.vertices@.len() ==> (#[trigger] skin.vertices@[i] as int)
            < model.vertices@.len()
}

impl M2ResolvedMesh {
    /// Picks the model vertices that the skin names, in the skin's order, widens the
    /// skin's triangle indices to `u32`, and takes the skin's submeshes and batches and the
    /// model's texture paths and lookup table as they are.
    pub fn new(model: M2Model, skin: M2Skin) -> (m: Self)
        requires
            skin_fits_model(model, skin),
        ensures
            m.vertices@ == Seq::new(
                skin.vertices@.len(),
                |i: int| model.vertices@[skin.vertices@[i] as int],
            ),
            m.indices@ == Seq::new(skin.indices@.len(), |i: int| skin.indices@[i] as u32),
            m.submeshes@ == skin.submeshes@,
            m.batches@ == skin.batches@,
            m.texture_paths@ == model.texture_paths@,
            m.texture_lookup@ == model.texture_lookup@,
    {
        let mut vertices: Vec<M2Vertex> = Vec::new();
        let mut i: usize = 0;
        while i < skin.vertices.len()
            invariant
                i <= skin.vertices@.len(),
                skin_fits_model(model, skin),
                vertices@ == Seq::new(i as nat, |k: int| model.vertices@[skin.vertices@[k] as int]),
            decreases skin.vertices@.len() - i,
        {
            let m2_idx = skin.vertices[i] as usize;
            assert((skin.vertices@[i as int] as int) < model.vertices@.len());
            vertices.push(model.vertices[m2_idx]);
            i = i + 1;
            assert(vertices@ =~= Seq::new(
                i as nat,
                |k: int| model.vertices@[skin.vertices@[k] as int],
            ));
        }
        let mut indices: Vec<u32> = Vec::new();
        let mut j: usize = 0;
        while j < skin.indices.len()
            invariant
                j <= skin.indices@.len(),
                indices@ == Seq::new(j as nat, |k: int| skin.indices@[k] as u32),
            decreases skin.indices@.len() - j,
        {
            indices.push(skin.indices[j] as u32);
            j = j + 1;
            assert(indices@ =~= Seq::new(j as nat, |k: int| skin.indices@[k] as u32));
        }
        let submeshes = skin.submeshes;
        let batches = skin.batches;
        let texture_paths = model.texture_paths;
        let texture_lookup = model.texture_lookup;
        M2ResolvedMesh { vertices, indices, submeshes, batches, texture_paths, texture_lookup }
    }
}

/// Whether `M2ResolvedMesh::new` can combine these: every skin vertex index names a
/// model vertex.
pub fn skin_fits(model: &M2Model, skin: &M2Skin) -> (b: bool)
    ensures
        b == skin_fits_model(*model, *skin),
{
    let mut i: usize = 0;
    while i < skin.vertices.len()
        invariant
            i <= skin.vertices@.len(),
            forall|k: int|
                0 <= k < i ==> (#[trigger] skin.vertices@[k] as int) < model.vertices@.len(),
        decreases skin.vertices@.len() - i,
    {
        if skin.vertices[i] as usize >= model.vertices.len() {
            return false;
        }
        i = i + 1;
    }
    true
}

} // verus!
