use wowedit::error::FormatError;
use wowedit::m2::m2_model::M2Model;
use wowedit::m2::m2_resolved_mesh::{skin_fits, M2ResolvedMesh};
use wowedit::m2::m2_skin::parse_skin;
use wowedit::m2::m2_texture::get_texture_path;
use wowedit::m2::{
    parse_header, parse_model, parse_render_flags, parse_texture_lookup, parse_textures,
    parse_vertices,
};
use wowedit::renderer::m2_batches::batch_ranges;

fn put_u32(v: &mut [u8], at: usize, x: u32) {
    v[at..at + 4].copy_from_slice(&x.to_le_bytes());
}

fn vertex_bytes(seed: f32) -> Vec<u8> {
    let mut v = Vec::new();
    for x in [seed, seed + 1.0, seed + 2.0] {
        v.extend_from_slice(&x.to_le_bytes());
    }
    v.extend_from_slice(&[255, 0, 0, 0, 1, 2, 3, 4]);
    for x in [0.0f32, 0.0, 1.0, 0.25, 0.75, 0.5, 0.5] {
        v.extend_from_slice(&x.to_le_bytes());
    }
    v
}

/// An M2 file with three vertices, one texture named `tex.blp` and a lookup table.
fn m2_file() -> Vec<u8> {
    let mut d = vec![0u8; 0x100];
    d[0..4].copy_from_slice(b"MD20");
    put_u32(&mut d, 0x3C, 3);
    put_u32(&mut d, 0x40, 0x100);
    put_u32(&mut d, 0x50, 1);
    put_u32(&mut d, 0x54, 0x100 + 144);
    put_u32(&mut d, 0x70, 2);
    put_u32(&mut d, 0x74, 0x98);
    put_u32(&mut d, 0x80, 2);
    put_u32(&mut d, 0x84, 0x90);
    d[0x90..0x94].copy_from_slice(&[0, 0, 7, 0]);
    d[0x98..0xA0].copy_from_slice(&[1, 0, 2, 0, 3, 0, 4, 0]);
    for i in 0..3 {
        d.extend(vertex_bytes(10.0 * i as f32));
    }
    let name_at = (d.len() + 16) as u32;
    d.extend_from_slice(&0u32.to_le_bytes());
    d.extend_from_slice(&0u32.to_le_bytes());
    d.extend_from_slice(&8u32.to_le_bytes());
    d.extend_from_slice(&name_at.to_le_bytes());
    d.extend_from_slice(b"tex.blp\0");
    d
}

/// A SKIN file selecting vertices 2 and 0, one triangle, one submesh and one batch.
fn skin_file() -> Vec<u8> {
    let mut d = vec![0u8; 48];
    d[0..4].copy_from_slice(b"SKIN");
    let lookups = [(2u32, 48u32), (3, 52), (0, 0), (1, 58), (1, 106)];
    for (k, (size, offset)) in lookups.iter().enumerate() {
        put_u32(&mut d, 4 + 8 * k, *size);
        put_u32(&mut d, 8 + 8 * k, *offset);
    }
    put_u32(&mut d, 44, 9);
    d.extend_from_slice(&[2, 0, 0, 0]);
    d.extend_from_slice(&[0, 0, 1, 0, 1, 0]);
    let mut submesh = vec![0u8; 48];
    submesh[8..10].copy_from_slice(&0u16.to_le_bytes());
    submesh[10..12].copy_from_slice(&3u16.to_le_bytes());
    submesh[44..48].copy_from_slice(&2.5f32.to_le_bytes());
    d.extend(submesh);
    d.extend_from_slice(&[0x10, 0x00, 0x01, 0x00, 0x00, 0x00, 0x00, 0x00, 0x01, 0x00, 0x00, 0x00, 0x00, 0x00, 0x00, 0x00]);
    d
}

#[test]
fn m2_header_reads_counts_and_offsets() {
    let h = parse_header(&m2_file()).unwrap();
    assert_eq!(h.vertices_count, 3);
    assert_eq!(h.vertices_offset, 0x100);
    assert_eq!(h.textures_count, 1);
    assert_eq!(h.materials_count, 2);
    assert_eq!(h.texture_lookup_offset, 0x90);
}

#[test]
fn m2_header_errors() {
    assert_eq!(parse_header(b"MD2").err(), Some(FormatError::UnexpectedEof));
    assert_eq!(parse_header(b"MD21xxxxxxxx").err(), Some(FormatError::NotM2File));
    let mut short = m2_file();
    short.truncate(0x87);
    assert_eq!(parse_header(&short).err(), Some(FormatError::UnexpectedEof));
}

#[test]
fn m2_vertices_are_read_field_by_field() {
    let d = m2_file();
    let vs = parse_vertices(&d, 0x100, 3).unwrap();
    assert_eq!(vs.len(), 3);
    assert_eq!(f32::from_bits(vs[2].position[1]), 21.0);
    assert_eq!(vs[1].bone_weights, [255, 0, 0, 0]);
    assert_eq!(vs[1].bone_indices, [1, 2, 3, 4]);
    assert_eq!(f32::from_bits(vs[0].normal[2]), 1.0);
    assert_eq!(f32::from_bits(vs[0].tex_coords[0][0]), 0.25);
    assert_eq!(f32::from_bits(vs[0].tex_coords[1][1]), 0.5);
    assert_eq!(parse_vertices(&d, 0x100, 100).err(), Some(FormatError::UnexpectedEof));
    assert_eq!(parse_vertices(&d, 1 << 30, 0).unwrap().len(), 0);
}

#[test]
fn m2_tables_are_read() {
    let d = m2_file();
    assert_eq!(parse_texture_lookup(&d, 0x90, 2).unwrap(), vec![0, 7]);
    let mats = parse_render_flags(&d, 0x98, 2).unwrap();
    assert_eq!((mats[1].flags, mats[1].blend_mode), (3, 4));
    let texs = parse_textures(&d, 0x100 + 144, 1).unwrap();
    assert_eq!(texs[0].filename_length, 8);
    assert_eq!(get_texture_path(&d, texs[0].filename_offset as usize).unwrap(), "tex.blp");
    assert_eq!(parse_textures(&d, d.len() - 8, 1).err(), Some(FormatError::UnexpectedEof));
}

#[test]
fn m2_model_collects_vertices_and_texture_names() {
    let m = parse_model(&m2_file()).unwrap();
    assert_eq!(m.vertices.len(), 3);
    assert_eq!(m.texture_paths, vec!["tex.blp".to_string()]);
    assert_eq!(m.texture_lookup, vec![0, 7]);
    assert_eq!(parse_model(b"nope").err(), Some(FormatError::NotM2File));
}

#[test]
fn skin_reads_arrays_and_records() {
    let s = parse_skin(&skin_file()).unwrap();
    assert_eq!(s.vertices, vec![2, 0]);
    assert_eq!(s.indices, vec![0, 1, 1]);
    assert_eq!(s.submeshes.len(), 1);
    assert_eq!(s.submeshes[0].index_count, 3);
    assert_eq!(f32::from_bits(s.submeshes[0].sort_radius), 2.5);
    assert_eq!(s.batches.len(), 1);
    assert_eq!(s.batches[0].flags, 0x10);
    assert_eq!(s.batches[0].shader_id, 1);
    assert_eq!(s.batches[0].texture_index, 1);
}

#[test]
fn skin_errors() {
    assert_eq!(parse_skin(b"SKI").err(), Some(FormatError::UnexpectedEof));
    assert_eq!(parse_skin(b"SKIP").err(), Some(FormatError::NotSkinFile));
    assert_eq!(parse_skin(b"SKIN").err(), Some(FormatError::UnexpectedEof));
    let mut d = skin_file();
    d.truncate(100);
    assert_eq!(parse_skin(&d).err(), Some(FormatError::UnexpectedEof));
}

#[test]
fn resolved_mesh_selects_skin_vertices() {
    let model: M2Model = parse_model(&m2_file()).unwrap();
    let skin = parse_skin(&skin_file()).unwrap();
    assert!(skin_fits(&model, &skin));
    let mesh = M2ResolvedMesh::new(model, skin);
    assert_eq!(mesh.vertices.len(), 2);
    assert_eq!(f32::from_bits(mesh.vertices[0].position[0]), 20.0);
    assert_eq!(f32::from_bits(mesh.vertices[1].position[0]), 0.0);
    assert_eq!(mesh.indices, vec![0u32, 1, 1]);
    assert_eq!(mesh.texture_paths, vec!["tex.blp".to_string()]);
    let ranges = batch_ranges(&mesh);
    assert_eq!(ranges.len(), 1);
    assert_eq!((ranges[0].start_index, ranges[0].index_count, ranges[0].texture_slot), (0, 3, 1));
}

#[test]
fn skin_naming_missing_vertices_does_not_fit() {
    let model: M2Model = parse_model(&m2_file()).unwrap();
    let mut d = skin_file();
    d[48] = 3;
    let skin = parse_skin(&d).unwrap();
    assert!(!skin_fits(&model, &skin));
}
