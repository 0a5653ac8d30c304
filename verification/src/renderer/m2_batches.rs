use vstd::prelude::*;
use crate::m2::m2_resolved_mesh::M2ResolvedMesh;

verus! {

/// The index range a batch draws and the texture slot it uses.
#[derive(Debug, Clone, Copy)]
pub struct BatchRange {
    pub start_index: u32,
    pub index_count: u32,
    /// The batch's texture combo index, which the caller resolves to a texture.
    pub texture_slot: usize,
}

/// Every batch names one of the mesh's submeshes.
pub open spec fn batches_name_submeshes(mesh: M2ResolvedMesh) -> bool {
    forall|i: int|
        0 <= i < mesh.batches@.len() ==> (#[trigger] mesh.batches@[i].submesh_index as int)
            < mesh.submeshes@.len()
}

/// What each batch of a mesh draws: the index range of its submesh, and its texture
/// combo index.
pub fn batch_ranges(mesh: &M2ResolvedMesh) -> (ranges: Vec<BatchRange>)
    requires
        batches_name_submeshes(*mesh),
    ensures
        ranges@.len() == mesh.batches@.len(),
        forall|i: int|
            0 <= i < ranges@.len() ==> {
                let b = mesh.batches@[i];
                let s = mesh.submeshes@[b.submesh_index as int];
                &&& (#[trigger] ranges@[i]).start_index == s.index_start as u32
                &&& ranges@[i].index_count == s.index_count as u32
                &&& ranges@[i].texture_slot == b.texture_index as usize
            },
{
    let mut ranges: Vec<BatchRange> = Vec::new();
    let mut i: usize = 0;
    while i < mesh.batches.len()
        invariant
            i <= mesh.batches@.len(),
            batches_name_submeshes(*mesh),
            ranges@.len() == i,
            forall|k: int|
                0 <= k < i ==> {
                    let b = mesh.batches@[k];
                    let s = mesh.submeshes@[b.submesh_index as int];
                    &&& (#[trigger] ranges@[k]).start_index == s.index_start as u32
                    &&& ranges@[k].index_count == s.index_count as u32
                    &&& ranges@[k].texture_slot == b.texture_index as usize
                },
        decreases mesh.batches@.len() - i,
    {
        let b = mesh.batches[i];
        assert((mesh.batches@[i as int].submesh_index as int) < mesh.submeshes@.len());
        let submesh = mesh.submeshes[b.submesh_index as usize];
        ranges.push(
            BatchRange {
                start_index: submesh.index_start as u32,
                index_count: submesh.index_count as u32,
                texture_slot: b.texture_index as usize,
            },
        );
        i = i + 1;
    }
    ranges
}

/// A batch whose texture has been found: the index range it draws and the texture.
#[derive(Debug, Clone, Copy)]
pub struct TexturedBatch {
    pub start_index: u32,
    pub index_count: u32,
    pub texture: u32,
}

/// The batches that are drawn: in order, each batch whose texture was found
/// (`textures[i]` is the texture found for `ranges[i]`), with that texture; the others
/// are skipped.
pub open spec fn drawn_batches(ranges: Seq<BatchRange>, textures: Seq<Option<u32>>) -> Seq<
    TexturedBatch,
>
    decreases ranges.len(),
{
    if ranges.len() == 0 {
        Seq::empty()
    } else {
        let earlier = drawn_batches(ranges.drop_last(), textures);
        let r = ranges.last();
        match textures[ranges.len() - 1] {
            Some(t) => earlier.push(
                TexturedBatch { start_index: r.start_index, index_count: r.index_count, texture: t },
            ),
            None => earlier,
        }
    }
}

/// Keeps, in order, the batches whose texture was found, each with its texture
/// (`textures[i]` is what resolving the texture of `ranges[i]` gave).
pub fn keep_textured(ranges: &Vec<BatchRange>, textures: &Vec<Option<u32>>) -> (kept: Vec<
    TexturedBatch,
>)
    requires
        textures@.len() == ranges@.len(),
    ensures
        kept@ == drawn_batches(ranges@, textures@),
{
    let mut kept: Vec<TexturedBatch> = Vec::new();
    let mut i: usize = 0;
    while i < ranges.len()
        invariant
            i <= ranges@.len() == textures@.len(),
            kept@ == drawn_batches(ranges@.take(i as int), textures@),
        decreases ranges@.len() - i,
    {
        let ghost before = ranges@.take(i as int);
        assert(ranges@.take(i + 1).drop_last() =~= before);
        let r = ranges[i];
        match textures[i] {
            Some(t) => {
                kept.push(
                    TexturedBatch {
                        start_index: r.start_index,
                        index_count: r.index_count,
                        texture: t,
                    },
                );
            },
            None => {},
        }
        i = i + 1;
    }
    assert(ranges@.take(i as int) =~= ranges@);
    kept
}

} // verus!
