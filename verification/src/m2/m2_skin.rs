use vstd::prelude::*;
use crate::io::{can_read, le_u16, le_u32, read_f32, read_u16, read_u32, read_u8, Cursor};
use crate::error::FormatError;

verus! {

/// A count and an offset of an array in a SKIN file.
#[derive(Debug, Clone, Copy)]
pub struct M2Lookup {
    pub size: u32,
    pub offset: u32,
}

/// The header of a SKIN file.
#[derive(Debug)]
pub struct M2SkinHeader {
    pub magic: [u8; 4],
    pub vertices: M2Lookup,
    pub indices: M2Lookup,
    pub bones: M2Lookup,
    pub submeshes: M2Lookup,
    pub batches: M2Lookup,
    pub bone_count: u32,
}

/// The render data of a SKIN file.
#[derive(Debug)]
pub struct M2Skin {
    /// Indices into the vertices of the M2 file: the vertices that are rendered.
    pub vertices: Vec<u16>,
    /// Triangles over the vertices above, three indices each.
    pub indices: Vec<u16>,
    pub submeshes: Vec<M2Submesh>,
    pub batches: Vec<M2Batch>,
}

/// A submesh record, 48 bytes. Floats are held as their IEEE-754 bit patterns.
#[derive(Debug, Clone, Copy)]
pub struct M2Submesh {
    pub id: u16,
    pub level: u16,
    pub vertex_start: u16,
    pub vertex_count: u16,
    pub index_start: u16,
    pub index_count: u16,
    pub bone_count: u16,
    pub bone_combo_index: u16,
    pub bone_influences: u16,
    pub center_bone_index: u16,
    pub center: [u32; 3],
    pub sort_center: [u32; 3],
    pub sort_radius: u32,
}

/// A batch (texture unit) record, 16 bytes.
#[derive(Debug, Clone, Copy)]
pub struct M2Batch {
    pub flags: u8,
    pub priority: u8,
    pub shader_id: u16,
    pub submesh_index: u16,
    pub material_index: u16,
    pub texture_index: u16,
    pub tex_unit_index: u16,
    pub transparency_index: u16,
    pub texture_anim_index: u16,
}

/// Size of a submesh record.
pub const SUBMESH_SIZE: usize = 48;

/// Size of a batch record.
pub const BATCH_SIZE: usize = 16;

/// The magic a SKIN file starts with: `SKIN`.
pub open spec fn skin_magic() -> Seq<u8> {
    seq![0x53u8, 0x4bu8, 0x49u8, 0x4eu8]
}

/// The lookup stored at `at`.
pub open spec fn lookup_at(d: Seq<u8>, at: int) -> M2Lookup {
    M2Lookup { size: le_u32(d, at), offset: le_u32(d, at + 4) }
}

/// `s` is the submesh record stored at `at`.
pub open spec fn submesh_at(d: Seq<u8>, at: int, s: M2Submesh) -> bool {
    &&& s.id == le_u16(d, at)
    &&& s.level == le_u16(d, at + 2)
    &&& s.vertex_start == le_u16(d, at + 4)
    &&& s.vertex_count == le_u16(d, at + 6)
    &&& s.index_start == le_u16(d, at + 8)
    &&& s.index_count == le_u16(d, at + 10)
    &&& s.bone_count == le_u16(d, at + 12)
    &&& s.bone_combo_index == le_u16(d, at + 14)
    &&& s.bone_influences == le_u16(d, at + 16)
    &&& s.center_bone_index == le_u16(d, at + 18)
    &&& s.center@ == seq![le_u32(d, at + 20), le_u32(d, at + 24), le_u32(d, at + 28)]
    &&& s.sort_center@ == seq![le_u32(d, at + 32), le_u32(d, at + 36), le_u32(d, at + 40)]
    &&& s.sort_radius == le_u32(d, at + 44)
}

/// A submesh record (the 48-byte skin section) is read in file order: id at 0, level at
/// 2, the first vertex and the vertex count at 4 and 6, the first index and the index
/// count at 8 and 10, then the bone fields from 12; so the vertex range and the index
/// range of a submesh are the ones stored, each in its own field.
pub proof fn law_submesh_record_layout(d: Seq<u8>, at: int, s: M2Submesh)
    requires
        submesh_at(d, at, s),
    ensures
        s.id == le_u16(d, at),
        s.level == le_u16(d, at + 2),
        s.vertex_start == le_u16(d, at + 4),
        s.vertex_count == le_u16(d, at + 6),
        s.index_start == le_u16(d, at + 8),
        s.index_count == le_u16(d, at + 10),
        s.bone_count == le_u16(d, at + 12),
{
}

/// Every submesh a SKIN file yields draws the index range stored in its record: the
/// first index from bytes 8..10 and the count from 10..12 of the `i`-th 48-byte record of
/// the submesh array (whose count and offset are the lookup at 28), and its vertex range
/// from bytes 4..8.
pub proof fn law_skin_submesh_ranges(d: Seq<u8>, s: M2Skin)
    requires
        skin_holds(d, s),
    ensures
        s.submeshes@.len() == le_u32(d, 28),
        forall|i: int|
            0 <= i < s.submeshes@.len() ==> {
                let at = le_u32(d, 32) + 48 * i;
                &&& (#[trigger] s.submeshes@[i]).index_start == le_u16(d, at + 8)
                &&& s.submeshes@[i].index_count == le_u16(d, at + 10)
                &&& s.submeshes@[i].vertex_start == le_u16(d, at + 4)
                &&& s.submeshes@[i].vertex_count == le_u16(d, at + 6)
            },
{
    assert forall|i: int| 0 <= i < s.submeshes@.len() implies {
        let at = le_u32(d, 32) + 48 * i;
        &&& (#[trigger] s.submeshes@[i]).index_start == le_u16(d, at + 8)
        &&& s.submeshes@[i].index_count == le_u16(d, at + 10)
        &&& s.submeshes@[i].vertex_start == le_u16(d, at + 4)
        &&& s.submeshes@[i].vertex_count == le_u16(d, at + 6)
    } by {
        law_submesh_record_layout(d, le_u32(d, 32) + SUBMESH_SIZE * i, s.submeshes@[i]);
    }
}

/// The batch record stored at `at`.
pub open spec fn batch_at(d: Seq<u8>, at: int) -> M2Batch {
    M2Batch {
        flags: d[at],
        priority: d[at + 1],
        shader_id: le_u16(d, at + 2),
        submesh_index: le_u16(d, at + 4),
        material_index: le_u16(d, at + 6),
        texture_index: le_u16(d, at + 8),
        tex_unit_index: le_u16(d, at + 10),
        transparency_index: le_u16(d, at + 12),
        texture_anim_index: le_u16(d, at + 14),
    }
}

/// `count` records of `size` bytes at `offset` fit in `d` (none always do).
pub open spec fn array_fits(d: Seq<u8>, l: M2Lookup, size: int) -> bool {
    l.size == 0 || l.offset + l.size * size <= d.len()
}

/// The `u16` array that a lookup describes.
pub open spec fn u16_array(d: Seq<u8>, l: M2Lookup) -> Seq<u16> {
    Seq::new(l.size as nat, |i: int| le_u16(d, l.offset + 2 * i))
}

/// The file is a SKIN file whose header and arrays all fit.
pub open spec fn skin_readable(d: Seq<u8>) -> bool {
    &&& d.len() >= 48
    &&& d.subrange(0, 4) == skin_magic()
    &&& array_fits(d, lookup_at(d, 4), 2)
    &&& array_fits(d, lookup_at(d, 12), 2)
    &&& array_fits(d, lookup_at(d, 28), SUBMESH_SIZE as int)
    &&& array_fits(d, lookup_at(d, 36), BATCH_SIZE as int)
}

/// The error that reading a SKIN file that is not readable ends with.
pub open spec fn skin_error(d: Seq<u8>) -> FormatError {
    if d.len() >= 4 && d.subrange(0, 4) != skin_magic() {
        FormatError::NotSkinFile
    } else {
        FormatError::UnexpectedEof
    }
}

/// `s` holds what the SKIN file `d` describes: the vertex and index arrays and the
/// submesh and batch records that its header points at.
pub open spec fn skin_holds(d: Seq<u8>, s: M2Skin) -> bool {
    &&& s.vertices@ == u16_array(d, lookup_at(d, 4))
    &&& s.indices@ == u16_array(d, lookup_at(d, 12))
    &&& s.submeshes@.len() == lookup_at(d, 28).size
    &&& forall|i: int|
        0 <= i < s.submeshes@.len() ==> submesh_at(
            d,
            lookup_at(d, 28).offset + SUBMESH_SIZE * i,
            #[trigger] s.submeshes@[i],
        )
    &&& s.batches@ == Seq::new(
        lookup_at(d, 36).size as nat,
        |i: int| batch_at(d, lookup_at(d, 36).offset + BATCH_SIZE * i),
    )
}

fn read_lookup(r: &mut Cursor) -> (res: Result<M2Lookup, FormatError>)
    ensures
        final(r).data@ == old(r).data@,
        can_read(*old(r), 8) ==> res == Ok::<M2Lookup, FormatError>(
            lookup_at(old(r).data@, old(r).pos as int),
        ) && final(r).pos == old(r).pos + 8,
        !can_read(*old(r), 8) ==> res == Err::<M2Lookup, FormatError>(FormatError::UnexpectedEof),
{
    let size = match read_u32(r) {
        Ok(v) => v,
        Err(e) => return Err(e),
    };
    let offset = match read_u32(r) {
        Ok(v) => v,
        Err(e) => return Err(e),
    };
    Ok(M2Lookup { size, offset })
}

fn parse_header(r: &mut Cursor) -> (res: Result<M2SkinHeader, FormatError>)
    requires
        old(r).pos == 0,
    ensures
        final(r).data@ == old(r).data@,
        old(r).data@.len() >= 48 && old(r).data@.subrange(0, 4) == skin_magic() ==> (res matches Ok(
            h,
        ) && h.vertices == lookup_at(old(r).data@, 4) && h.indices == lookup_at(old(r).data@, 12)
            && h.submeshes == lookup_at(old(r).data@, 28) && h.batches == lookup_at(
            old(r).data@,
            36,
        )),
        !(old(r).data@.len() >= 48 && old(r).data@.subrange(0, 4) == skin_magic()) ==> res
            == Err::<M2SkinHeader, FormatError>(skin_error(old(r).data@)),
{
    let magic_bytes = match r.read_bytes(4) {
        Ok(m) => m,
        Err(e) => return Err(e),
    };
    let magic = [magic_bytes[0], magic_bytes[1], magic_bytes[2], magic_bytes[3]];
    if !(magic[0] == 0x53 && magic[1] == 0x4b && magic[2] == 0x49 && magic[3] == 0x4e) {
        assert(r.data@.subrange(0, 4) != skin_magic()) by {
            if r.data@.subrange(0, 4) == skin_magic() {
                assert(magic_bytes@[0] == 0x53 && magic_bytes@[1] == 0x4b && magic_bytes@[2] == 0x49
                    && magic_bytes@[3] == 0x4e);
            }
        }
        return Err(FormatError::NotSkinFile);
    }
    assert(r.data@.subrange(0, 4) =~= skin_magic());
    assert(r.pos == 4);
    let vertices = match read_lookup(r) {
        Ok(v) => v,
        Err(e) => return Err(e),
    };
    let indices = match read_lookup(r) {
        Ok(v) => v,
        Err(e) => return Err(e),
    };
    let bones = match read_lookup(r) {
        Ok(v) => v,
        Err(e) => return Err(e),
    };
    let submeshes = match read_lookup(r) {
        Ok(v) => v,
        Err(e) => return Err(e),
    };
    let batches = match read_lookup(r) {
        Ok(v) => v,
        Err(e) => return Err(e),
    };
    let bone_count = match read_u32(r) {
        Ok(v) => v,
        Err(e) => return Err(e),
    };
    Ok(M2SkinHeader { magic, vertices, indices, bones, submeshes, batches, bone_count })
}

/// Reads the `u16` array a lookup describes.
fn read_u16_array(r: &mut Cursor, l: M2Lookup) -> (res: Result<Vec<u16>, FormatError>)
    ensures
        final(r).data@ == old(r).data@,
        array_fits(old(r).data@, l, 2) ==> (res matches Ok(v) && v@ == u16_array(old(r).data@, l)),
        !array_fits(old(r).data@, l, 2) ==> res == Err::<Vec<u16>, FormatError>(
            FormatError::UnexpectedEof,
        ),
{
    r.seek(l.offset as u64);
    let ghost d = r.data@;
    let mut out: Vec<u16> = Vec::new();
    let mut i: u32 = 0;
    while i < l.size
        invariant
            i <= l.size,
            r.data@ == d,
            d == old(r).data@,
            r.pos == l.offset + 2 * i,
            i > 0 ==> l.offset + 2 * i <= d.len(),
            out@ == Seq::new(i as nat, |k: int| le_u16(d, l.offset + 2 * k)),
        decreases l.size - i,
    {
        let v = match read_u16(r) {
            Ok(v) => v,
            Err(e) => return Err(e),
        };
        out.push(v);
        i = i + 1;
        assert(out@ =~= Seq::new(i as nat, |k: int| le_u16(d, l.offset + 2 * k)));
    }
    assert(out@ =~= u16_array(d, l));
    Ok(out)
}

fn read_submeshes(header: &M2SkinHeader, r: &mut Cursor) -> (res: Result<
    Vec<M2Submesh>,
    FormatError,
>)
    ensures
        final(r).data@ == old(r).data@,
        array_fits(old(r).data@, header.submeshes, SUBMESH_SIZE as int) ==> (res matches Ok(v)
            && v@.len() == header.submeshes.size && forall|i: int|
            0 <= i < v@.len() ==> submesh_at(
                old(r).data@,
                header.submeshes.offset + SUBMESH_SIZE * i,
                #[trigger] v@[i],
            )),
        !array_fits(old(r).data@, header.submeshes, SUBMESH_SIZE as int) ==> res == Err::<
            Vec<M2Submesh>,
            FormatError,
        >(FormatError::UnexpectedEof),
{
    let l = header.submeshes;
    r.seek(l.offset as u64);
    let ghost d = r.data@;
    let mut submeshes: Vec<M2Submesh> = Vec::new();
    let mut i: u32 = 0;
    while i < l.size
        invariant
            i <= l.size,
            l == header.submeshes,
            r.data@ == d,
            d == old(r).data@,
            r.pos == l.offset + SUBMESH_SIZE * i,
            i > 0 ==> l.offset + SUBMESH_SIZE * i <= d.len(),
            submeshes@.len() == i,
            forall|k: int|
                0 <= k < i ==> submesh_at(d, l.offset + SUBMESH_SIZE * k, #[trigger] submeshes@[k]),
        decreases l.size - i,
    {
        if !r.has(SUBMESH_SIZE as u64) {
            return Err(FormatError::UnexpectedEof);
        }
        let id = read_u16(r).unwrap();
        let level = read_u16(r).unwrap();
        let vertex_start = read_u16(r).unwrap();
        let vertex_count = read_u16(r).unwrap();
        let index_start = read_u16(r).unwrap();
        let index_count = read_u16(r).unwrap();
        let bone_count = read_u16(r).unwrap();
        let bone_combo_index = read_u16(r).unwrap();
        let bone_influences = read_u16(r).unwrap();
        let center_bone_index = read_u16(r).unwrap();
        let c0 = read_f32(r).unwrap();
        let c1 = read_f32(r).unwrap();
        let c2 = read_f32(r).unwrap();
        let s0 = read_f32(r).unwrap();
        let s1 = read_f32(r).unwrap();
        let s2 = read_f32(r).unwrap();
        let sort_radius = read_f32(r).unwrap();
        let s = M2Submesh {
            id,
            level,
            vertex_start,
            vertex_count,
            index_start,
            index_count,
            bone_count,
            bone_combo_index,
            bone_influences,
            center_bone_index,
            center: [c0, c1, c2],
            sort_center: [s0, s1, s2],
            sort_radius,
        };
        assert(s.center@ =~= seq![c0, c1, c2]);
        assert(s.sort_center@ =~= seq![s0, s1, s2]);
        submeshes.push(s);
        i = i + 1;
    }
    Ok(submeshes)
}

fn read_batches(header: &M2SkinHeader, r: &mut Cursor) -> (res: Result<
    Vec<M2Batch>,
    FormatError,
>)
    ensures
        final(r).data@ == old(r).data@,
        array_fits(old(r).data@, header.batches, BATCH_SIZE as int) ==> (res matches Ok(v) && v@
            == Seq::new(
            header.batches.size as nat,
            |i: int| batch_at(old(r).data@, header.batches.offset + BATCH_SIZE * i),
        )),
        !array_fits(old(r).data@, header.batches, BATCH_SIZE as int) ==> res == Err::<
            Vec<M2Batch>,
            FormatError,
        >(FormatError::UnexpectedEof),
{
    let l = header.batches;
    r.seek(l.offset as u64);
    let ghost d = r.data@;
    let mut batches: Vec<M2Batch> = Vec::new();
    let mut i: u32 = 0;
    while i < l.size
        invariant
            i <= l.size,
            l == header.batches,
            r.data@ == d,
            d == old(r).data@,
            r.pos == l.offset + BATCH_SIZE * i,
            i > 0 ==> l.offset + BATCH_SIZE * i <= d.len(),
            batches@ == Seq::new(i as nat, |k: int| batch_at(d, l.offset + BATCH_SIZE * k)),
        decreases l.size - i,
    {
        if !r.has(BATCH_SIZE as u64) {
            return Err(FormatError::UnexpectedEof);
        }
        let flags = read_u8(r).unwrap();
        let priority = read_u8(r).unwrap();
        let shader_id = read_u16(r).unwrap();
        let submesh_index = read_u16(r).unwrap();
        let material_index = read_u16(r).unwrap();
        let texture_index = read_u16(r).unwrap();
        let tex_unit_index = read_u16(r).unwrap();
        let transparency_index = read_u16(r).unwrap();
        let texture_anim_index = read_u16(r).unwrap();
        batches.push(
            M2Batch {
                flags,
                priority,
                shader_id,
                submesh_index,
                material_index,
                texture_index,
                tex_unit_index,
                transparency_index,
                texture_anim_index,
            },
        );
        i = i + 1;
        assert(batches@ =~= Seq::new(i as nat, |k: int| batch_at(d, l.offset + BATCH_SIZE * k)));
    }
    assert(batches@ =~= Seq::new(l.size as nat, |k: int| batch_at(d, l.offset + BATCH_SIZE * k)));
    Ok(batches)
}

/// Reads a SKIN file: the header (magic `SKIN`, five lookups, the bone count), then the
/// vertex index array, the triangle index array, the submeshes and the batches.
pub fn parse_skin(data: &[u8]) -> (res: Result<M2Skin, FormatError>)
    ensures
        skin_readable(data@) ==> (res matches Ok(s) && skin_holds(data@, s)),
        !skin_readable(data@) ==> res == Err::<M2Skin, FormatError>(skin_error(data@)),
{
    let mut r = Cursor::new(data);
    let header = match parse_header(&mut r) {
        Ok(h) => h,
        Err(e) => return Err(e),
    };
    let vertices = match read_u16_array(&mut r, header.vertices) {
        Ok(v) => v,
        Err(e) => return Err(e),
    };
    let indices = match read_u16_array(&mut r, header.indices) {
        Ok(v) => v,
        Err(e) => return Err(e),
    };
    let submeshes = match read_submeshes(&header, &mut r) {
        Ok(v) => v,
        Err(e) => return Err(e),
    };
    let batches = match read_batches(&header, &mut r) {
        Ok(v) => v,
        Err(e) => return Err(e),
    };
    Ok(M2Skin { vertices, indices, submeshes, batches })
}

/// A SKIN file's arrays are found through the lookups of its header (count, then offset):
/// vertices at 4, triangle indices at 12, submeshes at 28, batches at 36. The vertex and
/// index arrays hold little-endian `u16`s; each 16-byte batch record names its submesh at
/// +4 and its texture at +8.
pub proof fn law_skin_layout(d: Seq<u8>, s: M2Skin)
    requires
        skin_holds(d, s),
    ensures
        s.vertices@.len() == le_u32(d, 4),
        forall|i: int| 0 <= i < s.vertices@.len() ==> #[trigger] s.vertices@[i] == le_u16(d, le_u32(d, 8) + 2 * i),
        s.indices@.len() == le_u32(d, 12),
        forall|i: int| 0 <= i < s.indices@.len() ==> #[trigger] s.indices@[i] == le_u16(d, le_u32(d, 16) + 2 * i),
        s.batches@.len() == le_u32(d, 36),
        forall|i: int|
            0 <= i < s.batches@.len() ==> {
                let b = #[trigger] s.batches@[i];
                &&& b.submesh_index == le_u16(d, le_u32(d, 40) + 16 * i + 4)
                &&& b.texture_index == le_u16(d, le_u32(d, 40) + 16 * i + 8)
            },
{
}

} // verus!
