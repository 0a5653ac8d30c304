use wowedit::adt::mcly::{Mcly, MclyEntry};
use wowedit::renderer::m2_batches::{keep_textured, BatchRange};
use wowedit::renderer::terrain_alpha::{chunk_material, expand_alpha_to_rgba};
use wowedit::renderer::terrain_mesh::{cell_indices, chunk_indices, vertex_local_pos};
use wowedit::renderer::terrain_mipmap::{floor_log2, mip_passes};
use wowedit::renderer::terrain_textures::upload_order;
use wowedit::renderer::texture_manager::TextureSlots;

#[test]
fn cells_are_four_triangles_around_the_centre() {
    assert_eq!(cell_indices(0, 0), [1, 9, 0, 18, 9, 1, 17, 9, 18, 0, 9, 17]);
    assert_eq!(cell_indices(7, 7), [127, 135, 126, 144, 135, 127, 143, 135, 144, 126, 135, 143]);
}

#[test]
fn chunk_index_buffer_covers_the_chunk() {
    let idx = chunk_indices();
    assert_eq!(idx.len(), 768);
    assert_eq!(*idx.iter().max().unwrap(), 144);
    assert_eq!(&idx[12..24], &cell_indices(0, 1));
    assert_eq!(&idx[96..108], &cell_indices(1, 0));
    assert!(idx.iter().skip(1).step_by(3).all(|&i| i % 17 >= 9));
}

#[test]
fn vertex_positions_in_half_cells() {
    assert_eq!(vertex_local_pos(0), (0, 0));
    assert_eq!(vertex_local_pos(8), (16, 0));
    assert_eq!(vertex_local_pos(9), (1, 1));
    assert_eq!(vertex_local_pos(16), (15, 1));
    assert_eq!(vertex_local_pos(35), (2, 4));
    assert_eq!(vertex_local_pos(144), (16, 16));
}

#[test]
fn chunk_vertices_are_distinct_and_inside_the_chunk() {
    let mut seen = std::collections::HashSet::new();
    for idx in 0..145 {
        let (x, y) = vertex_local_pos(idx);
        assert!(x <= 16 && y <= 16);
        assert!(seen.insert((x, y)));
    }
    assert_eq!(seen.len(), 145);
}

#[test]
fn alpha_maps_expand_to_four_channels() {
    let mut map = [0u8; 4096];
    map[5] = 9;
    map[4095] = 1;
    let rgba = expand_alpha_to_rgba(&map);
    assert_eq!(rgba.len(), 16384);
    assert_eq!(&rgba[20..24], &[9, 9, 9, 9]);
    assert_eq!(&rgba[16380..], &[1, 1, 1, 1]);
    assert_eq!(rgba[19], 0);
}

#[test]
fn chunk_material_counts_the_base_layer() {
    let entry = |id| MclyEntry { texture_id: id, flags: 0, offset_in_mcal: 0, effect_id: 0 };
    let layers = Mcly { layers: vec![entry(10), entry(11), entry(12), entry(13), entry(14)] };
    let m = chunk_material(3, &layers);
    assert_eq!(m.layer_count, 4);
    assert_eq!(m.texture_ids, [10, 11, 12, 13]);
    let m = chunk_material(0, &Mcly { layers: vec![entry(7)] });
    assert_eq!(m.layer_count, 1);
    assert_eq!(m.texture_ids, [7, 0, 0, 0]);
}

#[test]
fn integer_logarithm() {
    assert_eq!(floor_log2(1), 0);
    assert_eq!(floor_log2(255), 7);
    assert_eq!(floor_log2(256), 8);
    assert_eq!(floor_log2(u32::MAX), 31);
}

#[test]
fn mip_passes_halve_each_level() {
    let passes = mip_passes(256, 256);
    assert_eq!(passes.len(), 8);
    let sizes: Vec<(u32, u32, u32)> = passes.iter().map(|p| (p.level, p.width, p.workgroups_x)).collect();
    assert_eq!(
        sizes,
        vec![(1, 128, 16), (2, 64, 8), (3, 32, 4), (4, 16, 2), (5, 8, 1), (6, 4, 1), (7, 2, 1), (8, 1, 1)],
    );
    let passes = mip_passes(256, 64);
    assert_eq!(passes.len(), 6);
    assert_eq!((passes[5].level, passes[5].width, passes[5].height), (6, 4, 1));
    assert_eq!(mip_passes(100, 1).len(), 0);
    assert_eq!(mip_passes(20, 20)[0].workgroups_y, 2);
}

#[test]
fn textures_upload_in_index_order() {
    assert_eq!(upload_order(&vec![3, 1, 2]), vec![1, 2, 3]);
    assert_eq!(upload_order(&vec![5, 5, 0]), vec![0, 5, 5]);
}

#[test]
fn texture_slots_keep_their_index() {
    let mut slots = TextureSlots::new();
    assert_eq!(slots.get_index("a.blp"), None);
    assert_eq!(slots.insert("a.blp"), 0);
    assert_eq!(slots.insert("b.blp"), 1);
    assert_eq!(slots.get_index("a.blp"), Some(0));
    assert_eq!(slots.get_index("b.blp"), Some(1));
    assert_eq!(slots.get_index("c.blp"), None);
    assert_eq!(slots.len(), 2);
}

#[test]
fn failed_loads_take_no_slot_and_slots_stay_dense() {
    let mut slots = TextureSlots::new();
    assert_eq!(slots.record_load("a.blp", true), Some(0));
    assert_eq!(slots.record_load("missing.blp", false), None);
    assert_eq!(slots.get_index("missing.blp"), None);
    assert_eq!(slots.record_load("b.blp", true), Some(1));
    assert_eq!(slots.get_index("a.blp"), Some(0));
    assert_eq!(slots.get(0).map(String::as_str), Some("a.blp"));
    assert_eq!(slots.get(1).map(String::as_str), Some("b.blp"));
    assert_eq!(slots.get(2), None);
    assert_eq!(slots.len(), 2);
}

#[test]
fn batches_without_a_texture_are_skipped_in_order() {
    let range = |start: u32, count: u32, slot: usize| BatchRange {
        start_index: start,
        index_count: count,
        texture_slot: slot,
    };
    let ranges = vec![range(0, 6, 0), range(6, 3, 9), range(9, 12, 1)];
    let kept = keep_textured(&ranges, &vec![Some(4), None, Some(2)]);
    assert_eq!(kept.len(), 2);
    assert_eq!((kept[0].start_index, kept[0].index_count, kept[0].texture), (0, 6, 4));
    assert_eq!((kept[1].start_index, kept[1].index_count, kept[1].texture), (9, 12, 2));
    assert!(keep_textured(&ranges, &vec![None, None, None]).is_empty());
}
