use wowedit::adt::mcly::{self, Mcly, MclyEntry};
use wowedit::adt::{alpha_offsets_valid, mcal, mcnk, mddf, mtex, parse};
use wowedit::error::FormatError;

fn push_u32(v: &mut Vec<u8>, x: u32) {
    v.extend_from_slice(&x.to_le_bytes());
}

fn push_u16(v: &mut Vec<u8>, x: u16) {
    v.extend_from_slice(&x.to_le_bytes());
}

fn chunk(tag: &[u8; 4], body: &[u8]) -> Vec<u8> {
    let mut v = tag.to_vec();
    push_u32(&mut v, body.len() as u32);
    v.extend_from_slice(body);
    v
}

fn layer(texture_id: u32, flags: u32, offset: u32) -> MclyEntry {
    MclyEntry { texture_id, flags, offset_in_mcal: offset, effect_id: 0 }
}

fn mcly_body(layers: &[MclyEntry]) -> Vec<u8> {
    let mut v = Vec::new();
    for l in layers {
        push_u32(&mut v, l.texture_id);
        push_u32(&mut v, l.flags);
        push_u32(&mut v, l.offset_in_mcal);
        push_u32(&mut v, l.effect_id);
    }
    v
}

/// An MCNK body: the 128-byte header, then MCVT, MCLY, MCNR (with its 13 extra bytes)
/// and MCAL as asked for.
fn mcnk_body(area: u32, with_mcvt: bool, with_mcly: bool, mcal: Option<&[u8]>) -> Vec<u8> {
    let mut v = vec![0u8; 128];
    v[52..56].copy_from_slice(&area.to_le_bytes());
    v[60..64].copy_from_slice(&0x8000u32.to_le_bytes());
    v[104..108].copy_from_slice(&1.0f32.to_le_bytes());
    v[108..112].copy_from_slice(&2.0f32.to_le_bytes());
    v[112..116].copy_from_slice(&3.0f32.to_le_bytes());
    if with_mcvt {
        let mut h = Vec::new();
        for i in 0..145 {
            h.extend_from_slice(&(i as f32).to_le_bytes());
        }
        v.extend(chunk(b"TVCM", &h));
    }
    let mut normals = chunk(b"RNCM", &[7u8; 435]);
    normals.extend_from_slice(&[0xEEu8; 13]);
    v.extend(normals);
    if with_mcly {
        let ls = match mcal {
            Some(_) => vec![layer(10, 0, 0), layer(11, 0x200, 0)],
            None => vec![layer(10, 0, 0)],
        };
        v.extend(chunk(b"YLCM", &mcly_body(&ls)));
    }
    if let Some(m) = mcal {
        v.extend(chunk(b"LACM", m));
    }
    v
}

fn adt_file(chunks: usize) -> Vec<u8> {
    let mut v = chunk(b"REVM", &18u32.to_le_bytes());
    v.extend(chunk(b"RDHM", &[0u8; 64]));
    v.extend(chunk(b"XETM", b"tileset\\grass.blp\0tileset\\rock.blp\0"));
    v.extend(chunk(b"XDMM", b"world\\tree.m2\0"));
    let mut placement = Vec::new();
    push_u32(&mut placement, 0);
    push_u32(&mut placement, 77);
    for x in [1.0f32, 2.0, 3.0, 0.0, 90.0, 0.0] {
        placement.extend_from_slice(&x.to_le_bytes());
    }
    push_u16(&mut placement, 1024);
    push_u16(&mut placement, 0);
    v.extend(chunk(b"FDDM", &placement));
    let map = vec![5u8; 4096];
    for i in 0..chunks {
        v.extend(chunk(b"KNCM", &mcnk_body(i as u32, true, true, Some(&map))));
    }
    v
}

#[test]
fn mcly_reads_whole_records_only() {
    let mut body = mcly_body(&[layer(1, 2, 3), layer(4, 0x100, 64)]);
    body.extend_from_slice(&[9, 9, 9]);
    let m = mcly::parse(&body).unwrap();
    assert_eq!(m.layers.len(), 2);
    assert_eq!(m.layers[1].texture_id, 4);
    assert_eq!(m.layers[1].flags, 0x100);
    assert_eq!(m.layers[1].offset_in_mcal, 64);
    assert_eq!(m.layers[0].effect_id, 0);
}

#[test]
fn mtex_reads_texture_names() {
    let m = mtex::parse(b"a.blp\0b.blp\0").unwrap();
    assert_eq!(m.filenames, vec!["a.blp".to_string(), "b.blp".to_string()]);
}

#[test]
fn mddf_reads_placements() {
    let file = adt_file(0);
    let start = file.len() - 44 + 8;
    let es = mddf::parse(&file[start..start + 36]).unwrap();
    assert_eq!(es.len(), 1);
    assert_eq!(es[0].unique_id, 77);
    assert_eq!(f32::from_bits(es[0].position[2]), 3.0);
    assert_eq!(f32::from_bits(es[0].rotation[1]), 90.0);
    assert_eq!(es[0].scale, 1024);
    assert_eq!(mddf::parse(&[0u8; 35]).unwrap().len(), 0);
}

#[test]
fn mcal_reads_each_storage_kind() {
    let mut data: Vec<u8> = (0..4096u32).map(|i| (i % 256) as u8).collect();
    data.extend(vec![0x21u8; 2048]);
    for _ in 0..33 {
        data.extend_from_slice(&[0xFF, 0x07]);
    }
    let layers = Mcly {
        layers: vec![layer(0, 0, 0), layer(1, 0x200, 0), layer(2, 0x100, 4096), layer(3, 0, 6144)],
    };
    assert!(mcal::offsets_in_bounds(&data, &layers));
    let m = mcal::parse(&data, &layers).unwrap();
    assert_eq!(m.alpha_maps.len(), 3);
    assert_eq!(m.alpha_maps[0][300], (300 % 256) as u8);
    assert_eq!(m.alpha_maps[1][0], 0x11);
    assert_eq!(m.alpha_maps[1][1], 0x22);
    assert!(m.alpha_maps[2].iter().all(|&b| b == 7));
}

#[test]
fn mcal_run_length_copies_and_fills() {
    let mut data = vec![0x03u8, 1, 2, 3];
    for _ in 0..33 {
        data.extend_from_slice(&[0xFF, 9]);
    }
    let layers = Mcly { layers: vec![layer(0, 0, 0), layer(1, 0, 0)] };
    let m = mcal::parse(&data, &layers).unwrap();
    assert_eq!(&m.alpha_maps[0][0..5], &[1, 2, 3, 9, 9]);
    assert_eq!(m.alpha_maps[0][4095], 9);
}

#[test]
fn mcal_errors_name_the_failure() {
    let base = layer(0, 0, 0);
    let run = |data: &[u8], l: MclyEntry| {
        mcal::parse(data, &Mcly { layers: vec![base.clone(), l] }).err()
    };
    assert_eq!(run(&[0x82, 0x09], layer(1, 0, 0)), Some(FormatError::CompressedDataEnded(2)));
    assert_eq!(run(&[0x85], layer(1, 0, 0)), Some(FormatError::FillValueMissing(1)));
    assert_eq!(run(&[0x05, 1, 2], layer(1, 0, 0)), Some(FormatError::CopyOutOfBounds(6, 3)));
    assert_eq!(run(&[0u8; 4096], layer(1, 0x200, 1)), Some(FormatError::AlphaMapOutOfBounds(1)));
    assert_eq!(
        run(&[0u8; 2048], layer(1, 0x100, 2)),
        Some(FormatError::PackedAlphaMapOutOfBounds(2)),
    );
}

#[test]
fn mcal_base_layer_alone_has_no_maps() {
    let m = mcal::parse(&[], &Mcly { layers: vec![layer(0, 0, 0)] }).unwrap();
    assert!(m.alpha_maps.is_empty());
    let m = mcal::parse(&[], &Mcly { layers: vec![] }).unwrap();
    assert!(m.alpha_maps.is_empty());
}

#[test]
fn mcal_offset_past_the_end_is_detected() {
    let layers = Mcly { layers: vec![layer(0, 0, 0), layer(1, 0, 10)] };
    assert!(!mcal::offsets_in_bounds(&[0u8; 4], &layers));
    assert!(mcal::offsets_in_bounds(&[0u8; 10], &layers));
    let earlier_error = Mcly { layers: vec![layer(0, 0, 0), layer(1, 0x200, 0), layer(2, 0, 10)] };
    assert!(mcal::offsets_in_bounds(&[0u8; 4], &earlier_error));
}

#[test]
fn mcnk_reads_header_and_subchunks() {
    let map = vec![200u8; 4096];
    let body = mcnk_body(42, true, true, Some(&map));
    assert!(mcnk::alpha_offsets_valid(&body));
    let c = mcnk::parse(&body).unwrap();
    assert_eq!(c.area_id, 42);
    assert_eq!(c.holes, 0x8000);
    assert_eq!(f32::from_bits(c.position[0]), 1.0);
    assert_eq!(f32::from_bits(c.position[2]), 3.0);
    assert_eq!(f32::from_bits(c.heights[144]), 144.0);
    assert_eq!(c.layers.layers.len(), 2);
    assert_eq!(c.mcal.alpha_maps.len(), 1);
    assert_eq!(c.mcal.alpha_maps[0][17], 200);
}

#[test]
fn mcnk_without_mcal_has_no_alpha_maps() {
    let c = mcnk::parse(&mcnk_body(1, true, true, None)).unwrap();
    assert!(c.mcal.alpha_maps.is_empty());
    assert_eq!(c.layers.layers.len(), 1);
}

#[test]
fn mcnk_missing_subchunks_are_errors() {
    let map = vec![0u8; 4096];
    assert_eq!(mcnk::parse(&mcnk_body(1, true, false, None)).err(), Some(FormatError::MissingMcly));
    assert_eq!(
        mcnk::parse(&mcnk_body(1, false, true, Some(&map))).err(),
        Some(FormatError::MissingMcvt),
    );
    assert_eq!(mcnk::parse(&[0u8; 115]).err(), Some(FormatError::UnexpectedEof));
    assert_eq!(mcnk::parse(&[0u8; 120]).err(), Some(FormatError::MissingMcly));
    let mut truncated = mcnk_body(1, true, true, None);
    truncated.extend_from_slice(b"LACM\x10\0\0\0abc");
    assert_eq!(mcnk::parse(&truncated).err(), Some(FormatError::UnexpectedEof));
}

#[test]
fn adt_reads_a_whole_tile() {
    let data = adt_file(256);
    assert!(alpha_offsets_valid(&data));
    let adt = parse(&data).unwrap();
    assert_eq!(adt.chunks.len(), 256);
    assert_eq!(adt.chunks[255].area_id, 255);
    assert_eq!(
        adt.texture_paths,
        vec!["tileset\\grass.blp".to_string(), "tileset\\rock.blp".to_string()],
    );
    assert_eq!(adt.doodad_filenames, Some(vec!["world\\tree.m2".to_string()]));
    assert_eq!(adt.doodad_placements.as_ref().unwrap()[0].unique_id, 77);
    assert_eq!((adt.tile_x, adt.tile_y), (0, 0));
}

#[test]
fn adt_needs_256_chunks() {
    assert_eq!(parse(&adt_file(255)).err(), Some(FormatError::ChunkCount(255)));
    assert_eq!(parse(&[]).err(), Some(FormatError::ChunkCount(0)));
}

#[test]
fn adt_truncated_chunk_body_is_an_error() {
    let mut data = adt_file(256);
    data.extend_from_slice(b"KNCM\x00\x01\x00\x00short");
    assert_eq!(parse(&data).err(), Some(FormatError::UnexpectedEof));
    let mut data = adt_file(256);
    data.extend_from_slice(b"XXXX\x00\x01\x00\x00short");
    assert_eq!(parse(&data).unwrap().chunks.len(), 256);
}

#[test]
fn adt_bad_alpha_offset_is_detected() {
    let mut data = adt_file(0);
    let mut body = vec![0u8; 128];
    let layers = [layer(0, 0, 0), layer(1, 0, 99)];
    let mut h = Vec::new();
    for _ in 0..145 {
        h.extend_from_slice(&0f32.to_le_bytes());
    }
    body.extend(chunk(b"TVCM", &h));
    body.extend(chunk(b"YLCM", &mcly_body(&layers)));
    body.extend(chunk(b"LACM", &[0u8; 4]));
    assert!(!mcnk::alpha_offsets_valid(&body));
    data.extend(chunk(b"KNCM", &body));
    assert!(!alpha_offsets_valid(&data));
}
