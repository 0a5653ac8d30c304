pub mod m2_model;
pub mod m2_resolved_mesh;
pub mod m2_skin;
pub mod m2_texture;
pub mod m2_vertex;

use vstd::prelude::*;
use self::m2_model::M2Model;
use self::m2_texture::{get_texture_path, M2Texture};
use self::m2_vertex::{vertex_at, M2Vertex};
use crate::io::{
    le_u16, le_u32, nullterm_bytes, read_f32, read_u16, read_u32, read_u32_at, decoded_as,
    Cursor,
};
use crate::error::FormatError;

verus! {

/// The counts and offsets of the M2 header that rendering needs.
#[derive(Debug, Clone, Copy)]
pub struct M2Header {
    pub vertices_count: u32,
    pub vertices_offset: u32,
    pub textures_count: u32,
    pub textures_offset: u32,
    pub materials_count: u32,
    pub materials_offset: u32,
    pub texture_lookup_count: u32,
    pub texture_lookup_offset: u32,
}

/// The render flags of one material.
#[derive(Debug, Clone, Copy)]
pub struct M2Material {
    pub flags: u16,
    pub blend_mode: u16,
}

/// The magic an M2 file starts with: `MD20`.
pub open spec fn m2_magic() -> Seq<u8> {
    seq![0x4du8, 0x44u8, 0x32u8, 0x30u8]
}

/// The header an M2 file holds, or why it cannot be read: it must start with `MD20` and
/// reach past offset 0x88.
pub open spec fn m2_header(d: Seq<u8>) -> Result<M2Header, FormatError> {
    if d.len() < 4 {
        Err(FormatError::UnexpectedEof)
    } else if d.subrange(0, 4) != m2_magic() {
        Err(FormatError::NotM2File)
    } else if d.len() < 0x88 {
        Err(FormatError::UnexpectedEof)
    } else {
        Ok(
            M2Header {
                vertices_count: le_u32(d, 0x3c),
                vertices_offset: le_u32(d, 0x40),
                textures_count: le_u32(d, 0x50),
                textures_offset: le_u32(d, 0x54),
                materials_count: le_u32(d, 0x70),
                materials_offset: le_u32(d, 0x74),
                texture_lookup_count: le_u32(d, 0x80),
                texture_lookup_offset: le_u32(d, 0x84),
            },
        )
    }
}

/// `count` records of `size` bytes starting at `offset` lie within `d` (none always do).
pub open spec fn records_fit(d: Seq<u8>, offset: int, count: int, size: int) -> bool {
    count == 0 || offset + count * size <= d.len()
}

/// The material record stored at `at`.
pub open spec fn material_at(d: Seq<u8>, at: int) -> M2Material {
    M2Material { flags: le_u16(d, at), blend_mode: le_u16(d, at + 2) }
}

/// The texture record stored at `at`.
pub open spec fn texture_at(d: Seq<u8>, at: int) -> M2Texture {
    M2Texture {
        texture_type: le_u32(d, at),
        flags: le_u32(d, at + 4),
        filename_length: le_u32(d, at + 8),
        filename_offset: le_u32(d, at + 12),
    }
}

/// Reads `count` 4-byte material records at `offset`; fails when they do not fit.
pub fn parse_render_flags(data: &[u8], offset: usize, count: usize) -> (res: Result<
    Vec<M2Material>,
    FormatError,
>)
    ensures
        records_fit(data@, offset as int, count as int, 4) ==> (res matches Ok(v) && v@ == Seq::new(
            count as nat,
            |i: int| material_at(data@, offset + 4 * i),
        )),
        !records_fit(data@, offset as int, count as int, 4) ==> res == Err::<
            Vec<M2Material>,
            FormatError,
        >(FormatError::UnexpectedEof),
{
    let mut r = Cursor::new(data);
    r.seek(offset as u64);
    let mut materials: Vec<M2Material> = Vec::new();
    let mut i: usize = 0;
    let dlen = data.len();
    while i < count
        invariant
            i <= count,
            r.data@ == data@,
            r.pos == offset + 4 * i,
            i > 0 ==> offset + 4 * i <= data@.len(),
            dlen == data@.len(),
            materials@ == Seq::new(i as nat, |k: int| material_at(data@, offset + 4 * k)),
        decreases count - i,
    {
        let flags = match read_u16(&mut r) {
            Ok(v) => v,
            Err(e) => return Err(e),
        };
        let blend_mode = match read_u16(&mut r) {
            Ok(v) => v,
            Err(e) => return Err(e),
        };
        materials.push(M2Material { flags, blend_mode });
        i = i + 1;
        assert(materials@ =~= Seq::new(i as nat, |k: int| material_at(data@, offset + 4 * k)));
    }
    assert(materials@ =~= Seq::new(count as nat, |k: int| material_at(data@, offset + 4 * k)));
    Ok(materials)
}

/// Reads the M2 header: checks the `MD20` magic and reads the counts and offsets at
/// 0x3C, 0x40, 0x50, 0x54, 0x70, 0x74, 0x80 and 0x84.
pub fn parse_header(data: &[u8]) -> (res: Result<M2Header, FormatError>)
    ensures
        res == m2_header(data@),
{
    let mut r = Cursor::new(data);
    let magic = match r.read_bytes(4) {
        Ok(m) => m,
        Err(e) => return Err(e),
    };
    if !(magic[0] == 0x4d && magic[1] == 0x44 && magic[2] == 0x32 && magic[3] == 0x30) {
        assert(data@.subrange(0, 4) != m2_magic()) by {
            if data@.subrange(0, 4) == m2_magic() {
                assert(magic@[0] == 0x4d && magic@[1] == 0x44 && magic@[2] == 0x32 && magic@[3]
                    == 0x30);
            }
        }
        return Err(FormatError::NotM2File);
    }
    assert(data@.subrange(0, 4) =~= m2_magic());
    let vertices_count = match read_u32_at(&mut r, 0x3C) {
        Ok(v) => v,
        Err(e) => return Err(e),
    };
    let vertices_offset = match read_u32_at(&mut r, 0x40) {
        Ok(v) => v,
        Err(e) => return Err(e),
    };
    let textures_count = match read_u32_at(&mut r, 0x50) {
        Ok(v) => v,
        Err(e) => return Err(e),
    };
    let textures_offset = match read_u32_at(&mut r, 0x54) {
        Ok(v) => v,
        Err(e) => return Err(e),
    };
    let materials_count = match read_u32_at(&mut r, 0x70) {
        Ok(v) => v,
        Err(e) => return Err(e),
    };
    let materials_offset = match read_u32_at(&mut r, 0x74) {
        Ok(v) => v,
        Err(e) => return Err(e),
    };
    let texture_lookup_count = match read_u32_at(&mut r, 0x80) {
        Ok(v) => v,
        Err(e) => return Err(e),
    };
    let texture_lookup_offset = match read_u32_at(&mut r, 0x84) {
        Ok(v) => v,
        Err(e) => return Err(e),
    };
    Ok(
        M2Header {
            vertices_count,
            vertices_offset,
            textures_count,
            textures_offset,
            materials_count,
            materials_offset,
            texture_lookup_count,
            texture_lookup_offset,
        },
    )
}

/// Reads `count` 48-byte vertex records at `offset`; fails when they do not fit.
pub fn parse_vertices(data: &[u8], offset: usize, count: usize) -> (res: Result<
    Vec<M2Vertex>,
    FormatError,
>)
    ensures
        records_fit(data@, offset as int, count as int, 48) ==> (res matches Ok(v) && v@.len()
            == count && forall|i: int|
            0 <= i < count ==> vertex_at(data@, offset + 48 * i, #[trigger] v@[i]) && v@[i].tex_coords[0]@
                == seq![le_u32(data@, offset + 48 * i + 32), le_u32(data@, offset + 48 * i + 36)]
                && v@[i].tex_coords[1]@ == seq![
                le_u32(data@, offset + 48 * i + 40),
                le_u32(data@, offset + 48 * i + 44),
            ]),
        !records_fit(data@, offset as int, count as int, 48) ==> res == Err::<
            Vec<M2Vertex>,
            FormatError,
        >(FormatError::UnexpectedEof),
{
    let mut vertices: Vec<M2Vertex> = Vec::new();
    let mut r = Cursor::new(data);
    r.seek(offset as u64);
    let mut i: usize = 0;
    let dlen = data.len();
    while i < count
        invariant
            i <= count,
            r.data@ == data@,
            r.pos == offset + 48 * i,
            i > 0 ==> offset + 48 * i <= data@.len(),
            dlen == data@.len(),
            vertices@.len() == i,
            forall|k: int| 0 <= k < i ==> vertex_at(data@, offset + 48 * k, #[trigger] vertices@[k]),
        decreases count - i,
    {
        if !r.has(48) {
            return Err(FormatError::UnexpectedEof);
        }
        let p = r.pos as usize;
        let p0 = read_f32(&mut r).unwrap();
        let p1 = read_f32(&mut r).unwrap();
        let p2 = read_f32(&mut r).unwrap();
        let bone_weights = [data[p + 12], data[p + 13], data[p + 14], data[p + 15]];
        let bone_indices = [data[p + 16], data[p + 17], data[p + 18], data[p + 19]];
        r.seek((p + 20) as u64);
        let n0 = read_f32(&mut r).unwrap();
        let n1 = read_f32(&mut r).unwrap();
        let n2 = read_f32(&mut r).unwrap();
        let t0 = read_f32(&mut r).unwrap();
        let t1 = read_f32(&mut r).unwrap();
        let t2 = read_f32(&mut r).unwrap();
        let t3 = read_f32(&mut r).unwrap();
        let v = M2Vertex {
            position: [p0, p1, p2],
            bone_weights,
            bone_indices,
            normal: [n0, n1, n2],
            tex_coords: [[t0, t1], [t2, t3]],
        };
        assert(v.position@ =~= seq![p0, p1, p2]);
        assert(v.normal@ =~= seq![n0, n1, n2]);
        assert(v.bone_weights@ =~= data@.subrange(p + 12, p + 16));
        assert(v.bone_indices@ =~= data@.subrange(p + 16, p + 20));
        assert(v.tex_coords[0]@ =~= seq![t0, t1]);
        assert(v.tex_coords[1]@ =~= seq![t2, t3]);
        vertices.push(v);
        i = i + 1;
    }
    Ok(vertices)
}

/// Reads `count` 16-byte texture records at `offset`; fails when they do not fit.
pub fn parse_textures(data: &[u8], offset: usize, count: usize) -> (res: Result<
    Vec<M2Texture>,
    FormatError,
>)
    ensures
        records_fit(data@, offset as int, count as int, 16) ==> (res matches Ok(v) && v@ == Seq::new(
            count as nat,
            |i: int| texture_at(data@, offset + 16 * i),
        )),
        !records_fit(data@, offset as int, count as int, 16) ==> res == Err::<
            Vec<M2Texture>,
            FormatError,
        >(FormatError::UnexpectedEof),
{
    let mut textures: Vec<M2Texture> = Vec::new();
    let mut r = Cursor::new(data);
    r.seek(offset as u64);
    let mut i: usize = 0;
    let dlen = data.len();
    while i < count
        invariant
            i <= count,
            r.data@ == data@,
            r.pos == offset + 16 * i,
            i > 0 ==> offset + 16 * i <= data@.len(),
            dlen == data@.len(),
            textures@ == Seq::new(i as nat, |k: int| texture_at(data@, offset + 16 * k)),
        decreases count - i,
    {
        if !r.has(16) {
            return Err(FormatError::UnexpectedEof);
        }
        let texture_type = read_u32(&mut r).unwrap();
        let flags = read_u32(&mut r).unwrap();
        let filename_length = read_u32(&mut r).unwrap();
        let filename_offset = read_u32(&mut r).unwrap();
        textures.push(M2Texture { texture_type, flags, filename_length, filename_offset });
        i = i + 1;
        assert(textures@ =~= Seq::new(i as nat, |k: int| texture_at(data@, offset + 16 * k)));
    }
    assert(textures@ =~= Seq::new(count as nat, |k: int| texture_at(data@, offset + 16 * k)));
    Ok(textures)
}

/// Reads the texture lookup table: `count` little-endian `u16` at `offset`; fails when
/// they do not fit.
pub fn parse_texture_lookup(data: &[u8], offset: usize, count: usize) -> (res: Result<
    Vec<u16>,
    FormatError,
>)
    ensures
        records_fit(data@, offset as int, count as int, 2) ==> (res matches Ok(v) && v@ == Seq::new(
            count as nat,
            |i: int| le_u16(data@, offset + 2 * i),
        )),
        !records_fit(data@, offset as int, count as int, 2) ==> res == Err::<Vec<u16>, FormatError>(
            FormatError::UnexpectedEof,
        ),
{
    let mut r = Cursor::new(data);
    r.seek(offset as u64);
    let mut table: Vec<u16> = Vec::new();
    let mut i: usize = 0;
    let dlen = data.len();
    while i < count
        invariant
            i <= count,
            r.data@ == data@,
            r.pos == offset + 2 * i,
            i > 0 ==> offset + 2 * i <= data@.len(),
            dlen == data@.len(),
            table@ == Seq::new(i as nat, |k: int| le_u16(data@, offset + 2 * k)),
        decreases count - i,
    {
        let v = match read_u16(&mut r) {
            Ok(v) => v,
            Err(e) => return Err(e),
        };
        table.push(v);
        i = i + 1;
        assert(table@ =~= Seq::new(i as nat, |k: int| le_u16(data@, offset + 2 * k)));
    }
    assert(table@ =~= Seq::new(count as nat, |k: int| le_u16(data@, offset + 2 * k)));
    Ok(table)
}

/// An M2 file whose header reads and whose vertex, texture and texture lookup arrays fit.
pub open spec fn model_readable(d: Seq<u8>) -> bool {
    &&& m2_header(d) matches Ok(h)
    &&& records_fit(d, h.vertices_offset as int, h.vertices_count as int, 48)
    &&& records_fit(d, h.textures_offset as int, h.textures_count as int, 16)
    &&& records_fit(d, h.texture_lookup_offset as int, h.texture_lookup_count as int, 2)
}

/// The error that reading a model that is not readable ends with.
pub open spec fn model_error(d: Seq<u8>) -> FormatError {
    match m2_header(d) {
        Err(e) => e,
        Ok(_) => FormatError::UnexpectedEof,
    }
}

/// `m` holds what the M2 file `d` describes: its vertices, the file names its texture
/// records point at, and its texture lookup table.
pub open spec fn model_holds(d: Seq<u8>, m: M2Model) -> bool {
    let h = m2_header(d)->Ok_0;
    &&& m.vertices@.len() == h.vertices_count
    &&& forall|i: int|
        0 <= i < h.vertices_count ==> vertex_at(
            d,
            h.vertices_offset + 48 * i,
            #[trigger] m.vertices@[i],
        )
    &&& m.texture_paths@.len() == h.textures_count
    &&& forall|i: int|
        0 <= i < h.textures_count ==> decoded_as(
            nullterm_bytes(d, texture_at(d, h.textures_offset + 16 * i).filename_offset as int),
            (#[trigger] m.texture_paths@[i])@,
        )
    &&& m.texture_lookup@ == Seq::new(
        h.texture_lookup_count as nat,
        |i: int| le_u16(d, h.texture_lookup_offset + 2 * i),
    )
}

/// Reads the parts of an M2 file that are rendered: the header, the vertices, the texture
/// records with the file names they point at, and the texture lookup table.
pub fn parse_model(data: &[u8]) -> (res: Result<M2Model, FormatError>)
    ensures
        model_readable(data@) ==> (res matches Ok(m) && model_holds(data@, m)),
        !model_readable(data@) ==> res == Err::<M2Model, FormatError>(model_error(data@)),
{
    let header = match parse_header(data) {
        Ok(h) => h,
        Err(e) => return Err(e),
    };
    let vertices = match parse_vertices(
        data,
        header.vertices_offset as usize,
        header.vertices_count as usize,
    ) {
        Ok(v) => v,
        Err(e) => return Err(e),
    };
    let textures = match parse_textures(
        data,
        header.textures_offset as usize,
        header.textures_count as usize,
    ) {
        Ok(v) => v,
        Err(e) => return Err(e),
    };
    let texture_lookup = match parse_texture_lookup(
        data,
        header.texture_lookup_offset as usize,
        header.texture_lookup_count as usize,
    ) {
        Ok(v) => v,
        Err(e) => return Err(e),
    };
    let mut texture_paths: Vec<String> = Vec::new();
    let mut i: usize = 0;
    while i < textures.len()
        invariant
            i <= textures@.len(),
            texture_paths@.len() == i,
            forall|k: int|
                0 <= k < i ==> decoded_as(
                    nullterm_bytes(data@, textures@[k].filename_offset as int),
                    (#[trigger] texture_paths@[k])@,
                ),
        decreases textures@.len() - i,
    {
        let path = get_texture_path(data, textures[i].filename_offset as usize).unwrap();
        texture_paths.push(path);
        i = i + 1;
    }
    Ok(M2Model { vertices, texture_paths, texture_lookup })
}

/// An M2 header that reads starts with `MD20` and takes each (count, offset) pair from its
/// fixed place: vertices at 0x3c/0x40, textures at 0x50/0x54, render flags at 0x70/0x74
/// and the texture lookup table at 0x80/0x84. A texture record holds its type, flags, name
/// length and name offset as the words at +0, +4, +8, +12; a render flag record holds its
/// flags and blend mode as the `u16`s at +0 and +2.
pub proof fn law_m2_layout(d: Seq<u8>, at: int)
    ensures
        m2_header(d) matches Ok(h) ==> {
            &&& d.len() >= 0x88
            &&& d[0] == 0x4d && d[1] == 0x44 && d[2] == 0x32 && d[3] == 0x30
            &&& h.vertices_count == le_u32(d, 0x3c) && h.vertices_offset == le_u32(d, 0x40)
            &&& h.textures_count == le_u32(d, 0x50) && h.textures_offset == le_u32(d, 0x54)
            &&& h.materials_count == le_u32(d, 0x70) && h.materials_offset == le_u32(d, 0x74)
            &&& h.texture_lookup_count == le_u32(d, 0x80) && h.texture_lookup_offset == le_u32(
                d,
                0x84,
            )
        },
        texture_at(d, at).texture_type == le_u32(d, at),
        texture_at(d, at).flags == le_u32(d, at + 4),
        texture_at(d, at).filename_length == le_u32(d, at + 8),
        texture_at(d, at).filename_offset == le_u32(d, at + 12),
        material_at(d, at).flags == le_u16(d, at),
        material_at(d, at).blend_mode == le_u16(d, at + 2),
{
    if m2_header(d) is Ok {
        assert(d.subrange(0, 4)[0] == d[0] && d.subrange(0, 4)[1] == d[1]);
        assert(d.subrange(0, 4)[2] == d[2] && d.subrange(0, 4)[3] == d[3]);
    }
}

} // verus!
