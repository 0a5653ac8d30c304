use vstd::prelude::*;
use crate::adt::mcal::ALPHA_MAP_SIZE;
use crate::adt::mcly::Mcly;

verus! {

/// The per-chunk material handed to the terrain shader.
#[derive(Debug, Clone, Copy)]
pub struct ChunkMaterialData {
    /// Number of layers: the alpha maps plus the base layer.
    pub layer_count: u32,
    /// Texture ids of the first four layers, zero where there is none.
    pub texture_ids: [u32; 4],
}

/// An alpha map as RGBA texels: each value repeated in all four channels, so that the map
/// can go through the same mipmap pipeline as a color texture.
pub fn expand_alpha_to_rgba(map: &[u8; ALPHA_MAP_SIZE]) -> (rgba: Vec<u8>)
    ensures
        rgba@.len() == 4 * ALPHA_MAP_SIZE,
        forall|i: int| 0 <= i < rgba@.len() ==> rgba@[i] == map@[i / 4],
{
    let mut rgba: Vec<u8> = Vec::new();
    let mut i: usize = 0;
    while i < ALPHA_MAP_SIZE
        invariant
            i <= ALPHA_MAP_SIZE,
            rgba@.len() == 4 * i,
            forall|k: int| 0 <= k < rgba@.len() ==> rgba@[k] == map@[k / 4],
        decreases ALPHA_MAP_SIZE - i,
    {
        let alpha = map[i];
        rgba.push(alpha);
        rgba.push(alpha);
        rgba.push(alpha);
        rgba.push(alpha);
        proof {
            assert forall|k: int| 4 * i <= k < 4 * i + 4 implies #[trigger] rgba@[k] == map@[k / 4] by {
                assert(k / 4 == i as int);
            }
        }
        i = i + 1;
    }
    rgba
}

/// The material of a chunk with `alpha_map_count` alpha maps and these layers: the layer
/// count is the alpha maps plus the base layer; the texture ids are those of the first
/// four layers.
pub fn chunk_material(alpha_map_count: usize, layers: &Mcly) -> (m: ChunkMaterialData)
    requires
        (alpha_map_count as u32) < u32::MAX,
    ensures
        m.layer_count == (alpha_map_count as u32) + 1,
        forall|i: int|
            0 <= i < 4 ==> m.texture_ids@[i] == if i < layers.layers@.len() {
                layers.layers@[i].texture_id
            } else {
                0u32
            },
{
    let mut texture_ids = [0u32; 4];
    let mut i: usize = 0;
    while i < 4 && i < layers.layers.len()
        invariant
            i <= 4,
            i <= layers.layers@.len(),
            texture_ids@.len() == 4,
            forall|k: int| 0 <= k < i ==> texture_ids@[k] == layers.layers@[k].texture_id,
            forall|k: int| i <= k < 4 ==> texture_ids@[k] == 0,
        decreases 4 - i,
    {
        texture_ids[i] = layers.layers[i].texture_id;
        i = i + 1;
    }
    ChunkMaterialData { layer_count: alpha_map_count as u32 + 1, texture_ids }
}

} // verus!
