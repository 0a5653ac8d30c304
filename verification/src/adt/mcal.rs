use vstd::prelude::*;
use crate::adt::mcly::{Mcly, MclyEntry};
use crate::error::FormatError;

verus! {

/// Texels in one alpha map (64 x 64).
pub const ALPHA_MAP_SIZE: usize = 4096;

/// The alpha maps of a terrain chunk.
pub struct Mcal {
    /// One alpha map per layer after the base, in layer order; 4096 values each.
    pub alpha_maps: Vec<[u8; ALPHA_MAP_SIZE]>,
}

impl Mcal {
    /// The alpha maps as sequences of texel values.
    pub open spec fn maps(&self) -> Seq<Seq<u8>> {
        Seq::new(self.alpha_maps@.len(), |i: int| self.alpha_maps@[i]@)
    }
}

impl Default for Mcal {
    /// No alpha maps: a chunk with only a base layer.
    fn default() -> (m: Mcal)
        ensures
            m.alpha_maps@.len() == 0,
    {
        Mcal { alpha_maps: Vec::new() }
    }
}

/// The layer's alpha map is stored uncompressed (4096 bytes).
pub open spec fn is_uncompressed(layer: MclyEntry) -> bool {
    layer.flags & 0x200 != 0
}

/// The layer's alpha map is stored as 4-bit values, two per byte.
pub open spec fn is_packed(layer: MclyEntry) -> bool {
    !is_uncompressed(layer) && layer.flags & 0x100 != 0
}

/// The layer's alpha map is run-length encoded.
pub open spec fn is_rle(layer: MclyEntry) -> bool {
    !is_uncompressed(layer) && layer.flags & 0x100 == 0
}

/// Run-length decoding from input position `i`, with `out` written so far, until `size`
/// bytes are written. A control byte with its high bit set repeats the next byte
/// (control & 0x7F) times; otherwise the next (control & 0x7F) bytes are copied. Runs are
/// cut at `size`.
pub open spec fn rle_decode(d: Seq<u8>, i: int, out: Seq<u8>, size: int) -> Result<
    Seq<u8>,
    FormatError,
>
    decreases size - out.len(), d.len() - i,
    when 0 <= i && out.len() <= size
{
    if out.len() >= size {
        Ok(out)
    } else if i >= d.len() {
        Err(FormatError::CompressedDataEnded(out.len() as usize))
    } else {
        let control = d[i];
        let count = (control & 0x7f) as int;
        let end = if out.len() + count < size { out.len() + count } else { size };
        if control & 0x80 != 0 {
            if i + 1 >= d.len() {
                Err(FormatError::FillValueMissing((i + 1) as usize))
            } else {
                rle_decode(
                    d,
                    i + 2,
                    out + Seq::new((end - out.len()) as nat, |k: int| d[i + 1]),
                    size,
                )
            }
        } else {
            let src_end = i + 1 + (end - out.len());
            if src_end > d.len() {
                Err(FormatError::CopyOutOfBounds(saturate(src_end), d.len() as usize))
            } else {
                rle_decode(d, src_end, out + d.subrange(i + 1, src_end), size)
            }
        }
    }
}

/// `x` as a `usize`, or `usize::MAX` when it does not fit.
pub open spec fn saturate(x: int) -> usize {
    if x > usize::MAX {
        usize::MAX
    } else {
        x as usize
    }
}

/// The texels of a 4-bit packed map: each nibble (low first) scaled to 0..255 by 17.
pub open spec fn unpack_nibbles(d: Seq<u8>, offset: int) -> Seq<u8> {
    Seq::new(
        ALPHA_MAP_SIZE as nat,
        |k: int|
            if k % 2 == 0 {
                ((d[offset + k / 2] & 0x0f) * 17) as u8
            } else {
                ((d[offset + k / 2] >> 4) * 17) as u8
            },
    )
}

/// The alpha map of one layer read from the MCAL body `d`.
pub open spec fn alpha_map(d: Seq<u8>, layer: MclyEntry) -> Result<Seq<u8>, FormatError> {
    let offset = layer.offset_in_mcal as int;
    if is_uncompressed(layer) {
        if offset + ALPHA_MAP_SIZE > d.len() {
            Err(FormatError::AlphaMapOutOfBounds(offset as usize))
        } else {
            Ok(d.subrange(offset, offset + ALPHA_MAP_SIZE))
        }
    } else if is_packed(layer) {
        if offset + ALPHA_MAP_SIZE / 2 > d.len() {
            Err(FormatError::PackedAlphaMapOutOfBounds(offset as usize))
        } else {
            Ok(unpack_nibbles(d, offset))
        }
    } else {
        rle_decode(d.subrange(offset, d.len() as int), 0, Seq::empty(), ALPHA_MAP_SIZE as int)
    }
}

/// The alpha maps of the given layers, in order, or the first layer's error.
pub open spec fn alpha_maps(d: Seq<u8>, layers: Seq<MclyEntry>) -> Result<
    Seq<Seq<u8>>,
    FormatError,
>
    decreases layers.len(),
{
    if layers.len() == 0 {
        Ok(Seq::empty())
    } else {
        match alpha_maps(d, layers.drop_last()) {
            Err(e) => Err(e),
            Ok(ms) => match alpha_map(d, layers.last()) {
                Err(e) => Err(e),
                Ok(m) => Ok(ms.push(m)),
            },
        }
    }
}

/// Reading the alpha maps of these layers reaches a run-length encoded map whose offset
/// lies past the end of `d` (slicing there panics).
pub open spec fn reaches_bad_offset(d: Seq<u8>, layers: Seq<MclyEntry>) -> bool
    decreases layers.len(),
{
    if layers.len() == 0 {
        false
    } else {
        reaches_bad_offset(d, layers.drop_last()) || (alpha_maps(d, layers.drop_last()) is Ok
            && is_rle(layers.last()) && layers.last().offset_in_mcal > d.len())
    }
}

/// The layers that have an alpha map: all but the base layer.
pub open spec fn blended_layers(layers: Seq<MclyEntry>) -> Seq<MclyEntry> {
    if layers.len() == 0 {
        layers
    } else {
        layers.drop_first()
    }
}

/// Decoding writes exactly `size` bytes when it succeeds.
proof fn lemma_rle_len(d: Seq<u8>, i: int, out: Seq<u8>, size: int)
    requires
        0 <= i,
        out.len() <= size,
    ensures
        rle_decode(d, i, out, size) matches Ok(s) ==> s.len() == size,
    decreases size - out.len(), d.len() - i,
{
    if out.len() < size && i < d.len() {
        let control = d[i];
        let count = (control & 0x7f) as int;
        let end = if out.len() + count < size { out.len() + count } else { size };
        if control & 0x80 != 0 {
            if i + 1 < d.len() {
                lemma_rle_len(d, i + 2, out + Seq::new((end - out.len()) as nat, |k: int| d[i + 1]), size);
            }
        } else {
            let src_end = i + 1 + (end - out.len());
            if src_end <= d.len() {
                lemma_rle_len(d, src_end, out + d.subrange(i + 1, src_end), size);
            }
        }
    }
}

/// Run-length decoding fills the whole map: when it succeeds from an empty output it
/// has written exactly `size` bytes.
pub proof fn law_rle_fills_map(d: Seq<u8>, size: int)
    requires
        0 <= size,
    ensures
        rle_decode(d, 0, Seq::empty(), size) matches Ok(s) ==> s.len() == size,
{
    lemma_rle_len(d, 0, Seq::empty(), size);
}

/// One alpha map per layer after the base, in layer order, each of 4096 texels.
pub proof fn law_one_map_per_layer(d: Seq<u8>, layers: Seq<MclyEntry>)
    ensures
        alpha_maps(d, layers) matches Ok(ms) ==> ms.len() == layers.len() && forall|i: int|
            0 <= i < ms.len() ==> (#[trigger] ms[i]).len() == ALPHA_MAP_SIZE,
    decreases layers.len(),
{
    if layers.len() > 0 {
        law_one_map_per_layer(d, layers.drop_last());
        let layer = layers.last();
        let offset = layer.offset_in_mcal as int;
        if !is_uncompressed(layer) && !is_packed(layer) {
            lemma_rle_len(
                d.subrange(offset, d.len() as int),
                0,
                Seq::empty(),
                ALPHA_MAP_SIZE as int,
            );
        }
    }
}

/// Once a prefix of the layers fails, or reaches the bad offset, the whole list does.
proof fn lemma_prefix_decides(d: Seq<u8>, ls: Seq<MclyEntry>, k: int)
    requires
        0 <= k <= ls.len(),
    ensures
        alpha_maps(d, ls.take(k)) is Err ==> alpha_maps(d, ls) == alpha_maps(d, ls.take(k))
            && reaches_bad_offset(d, ls) == reaches_bad_offset(d, ls.take(k)),
        reaches_bad_offset(d, ls.take(k)) ==> reaches_bad_offset(d, ls),
    decreases ls.len() - k,
{
    if k < ls.len() {
        lemma_prefix_decides(d, ls.drop_last(), k);
        assert(ls.drop_last().take(k) == ls.take(k));
    } else {
        assert(ls.take(k) == ls);
    }
}

/// `out` followed by zeros up to the size of an alpha map.
pub open spec fn zero_padded(out: Seq<u8>) -> Seq<u8> {
    out + Seq::new((ALPHA_MAP_SIZE - out.len()) as nat, |k: int| 0u8)
}

/// Run-length decoding of `data` into an alpha map, writing `output_size` bytes; the rest
/// of the map stays zero.
fn decompress(data: &[u8], output_size: usize) -> (res: Result<[u8; ALPHA_MAP_SIZE], FormatError>)
    requires
        output_size <= ALPHA_MAP_SIZE,
    ensures
        match rle_decode(data@, 0, Seq::empty(), output_size as int) {
            Ok(s) => res matches Ok(a) && a@ == zero_padded(s),
            Err(e) => res == Err::<[u8; ALPHA_MAP_SIZE], FormatError>(e),
        },
{
    let mut out = [0u8; ALPHA_MAP_SIZE];
    let mut i: usize = 0;
    let mut j: usize = 0;
    let ghost size = output_size as int;
    let ghost d = data@;
    assert(out@.take(0) == Seq::<u8>::empty());
    while j < output_size
        invariant
            d == data@,
            size == output_size,
            j <= output_size <= ALPHA_MAP_SIZE,
            i <= data@.len(),
            out@.len() == ALPHA_MAP_SIZE,
            forall|k: int| j <= k < ALPHA_MAP_SIZE ==> out@[k] == 0,
            rle_decode(d, i as int, out@.take(j as int), size) == rle_decode(
                d,
                0,
                Seq::empty(),
                size,
            ),
        decreases output_size - j, data@.len() - i,
    {
        let ghost written = out@.take(j as int);
        if i >= data.len() {
            return Err(FormatError::CompressedDataEnded(j));
        }
        let control = data[i];
        let ghost ci = i as int;
        i = i + 1;
        let fill = control & 0x80 != 0;
        let count = (control & 0x7F) as usize;
        let end = if j + count < output_size {
            j + count
        } else {
            output_size
        };
        if fill {
            if i >= data.len() {
                return Err(FormatError::FillValueMissing(i));
            }
            let value = data[i];
            i = i + 1;
            let mut k = j;
            while k < end
                invariant
                    j <= k <= end <= ALPHA_MAP_SIZE,
                    out@.len() == ALPHA_MAP_SIZE,
                    out@.take(j as int) == written,
                    forall|m: int| j <= m < k ==> out@[m] == value,
                    forall|m: int| k <= m < ALPHA_MAP_SIZE ==> out@[m] == 0,
                decreases end - k,
            {
                out[k] = value;
                k = k + 1;
            }
            assert(out@.take(end as int) == written + Seq::new(
                (end - j) as nat,
                |m: int| d[ci + 1],
            ));
            j = end;
        } else {
            let copy_len = end - j;
            if copy_len > data.len() - i {
                return Err(FormatError::CopyOutOfBounds(i.saturating_add(copy_len), data.len()));
            }
            let src_end = i + copy_len;
            let mut k: usize = 0;
            while k < copy_len
                invariant
                    k <= copy_len,
                    j + copy_len == end <= ALPHA_MAP_SIZE,
                    i + copy_len == src_end <= data@.len(),
                    out@.len() == ALPHA_MAP_SIZE,
                    out@.take(j as int) == written,
                    forall|m: int| j <= m < j + k ==> out@[m] == data@[i + (m - j)],
                    forall|m: int| j + k <= m < ALPHA_MAP_SIZE ==> out@[m] == 0,
                decreases copy_len - k,
            {
                out[j + k] = data[i + k];
                k = k + 1;
            }
            assert(out@.take(end as int) == written + d.subrange(i as int, src_end as int));
            i = src_end;
            j = end;
        }
    }
    assert(out@.take(j as int) == out@.take(output_size as int));
    assert(out@ == zero_padded(out@.take(output_size as int)));
    Ok(out)
}

/// How reading a list of alpha maps ended.
enum AlphaMapsRead {
    Maps(Vec<[u8; ALPHA_MAP_SIZE]>),
    Failed(FormatError),
    BadOffset,
}

/// The texels of a 4-bit packed map starting at `offset`.
fn unpack(data: &[u8], offset: usize) -> (a: [u8; ALPHA_MAP_SIZE])
    requires
        offset + ALPHA_MAP_SIZE / 2 <= data@.len(),
    ensures
        a@ == unpack_nibbles(data@, offset as int),
{
    let mut map = [0u8; ALPHA_MAP_SIZE];
    let mut i: usize = 0;
    let dlen = data.len();
    while i < ALPHA_MAP_SIZE / 2
        invariant
            dlen == data@.len(),
            i <= ALPHA_MAP_SIZE / 2,
            offset + ALPHA_MAP_SIZE / 2 <= data@.len(),
            map@.len() == ALPHA_MAP_SIZE,
            forall|k: int| 0 <= k < 2 * i ==> map@[k] == unpack_nibbles(data@, offset as int)[k],
        decreases ALPHA_MAP_SIZE / 2 - i,
    {
        assert(offset + i < data@.len());
        let byte = data[offset + i];
        let lo = (byte & 0x0F) << 4 | (byte & 0x0F);
        let hi = (byte & 0xF0) | (byte >> 4);
        assert(((byte & 0x0F) << 4 | (byte & 0x0F)) == ((byte & 0x0f) * 17) as u8) by (bit_vector);
        assert(((byte & 0xF0) | (byte >> 4)) == ((byte >> 4) * 17) as u8) by (bit_vector);
        map[i * 2] = lo;
        map[i * 2 + 1] = hi;
        proof {
            let u = unpack_nibbles(data@, offset as int);
            assert((2 * i) as int / 2 == i as int);
            assert((2 * i + 1) as int / 2 == i as int);
            assert(u[2 * i] == ((data@[offset + i] & 0x0f) * 17) as u8);
            assert(u[2 * i + 1] == ((data@[offset + i] >> 4) * 17) as u8);
        }
        i = i + 1;
    }
    assert(map@ =~= unpack_nibbles(data@, offset as int));
    map
}

/// Reads the alpha maps of `layers[1..]` in order, reporting the run-length case whose
/// offset lies past the end instead of slicing there.
fn read_alpha_maps(data: &[u8], layers: &Mcly) -> (res: AlphaMapsRead)
    ensures
        res is BadOffset <==> reaches_bad_offset(data@, blended_layers(layers.layers@)),
        res matches AlphaMapsRead::Maps(v) ==> alpha_maps(data@, blended_layers(layers.layers@))
            == Ok::<Seq<Seq<u8>>, FormatError>(Seq::new(v@.len(), |i: int| v@[i]@)),
        res matches AlphaMapsRead::Failed(e) ==> alpha_maps(
            data@,
            blended_layers(layers.layers@),
        ) == Err::<Seq<Seq<u8>>, FormatError>(e),
{
    let ghost ls = blended_layers(layers.layers@);
    let mut maps: Vec<[u8; ALPHA_MAP_SIZE]> = Vec::new();
    let n = layers.layers.len();
    let dlen = data.len();
    if n == 0 {
        assert(ls.len() == 0);
        assert(Seq::new(maps@.len(), |i: int| maps@[i]@) =~= Seq::<Seq<u8>>::empty());
        return AlphaMapsRead::Maps(maps);
    }
    let mut i: usize = 1;
    assert(ls.take(0) =~= Seq::<MclyEntry>::empty());
    assert(Seq::new(maps@.len(), |k: int| maps@[k]@) =~= Seq::<Seq<u8>>::empty());
    while i < n
        invariant
            1 <= i <= n,
            dlen == data@.len(),
            n == layers.layers@.len(),
            ls == layers.layers@.drop_first(),
            !reaches_bad_offset(data@, ls.take(i - 1)),
            maps@.len() == i - 1,
            alpha_maps(data@, ls.take(i - 1)) == Ok::<Seq<Seq<u8>>, FormatError>(
                Seq::new(maps@.len(), |k: int| maps@[k]@),
            ),
        decreases n - i,
    {
        let layer = layers.layers[i];
        let ghost prefix = ls.take(i as int);
        assert(prefix.drop_last() == ls.take(i - 1));
        assert(prefix.last() == layer);
        proof {
            lemma_prefix_decides(data@, ls, i as int);
        }
        let offset = layer.offset_in_mcal as usize;
        let map = if layer.flags & 0x200 != 0 {
            if offset as u64 + ALPHA_MAP_SIZE as u64 > data.len() as u64 {
                return AlphaMapsRead::Failed(FormatError::AlphaMapOutOfBounds(offset));
            }
            let mut map = [0u8; ALPHA_MAP_SIZE];
            let mut k: usize = 0;
            while k < ALPHA_MAP_SIZE
                invariant
                    k <= ALPHA_MAP_SIZE,
                    dlen == data@.len(),
                    offset + ALPHA_MAP_SIZE <= data@.len(),
                    map@.len() == ALPHA_MAP_SIZE,
                    forall|m: int| 0 <= m < k ==> map@[m] == data@[offset + m],
                decreases ALPHA_MAP_SIZE - k,
            {
                assert(offset + k < data@.len());
                map[k] = data[offset + k];
                k = k + 1;
            }
            assert(map@ =~= data@.subrange(offset as int, offset + ALPHA_MAP_SIZE));
            map
        } else if layer.flags & 0x100 != 0 {
            if offset as u64 + (ALPHA_MAP_SIZE / 2) as u64 > data.len() as u64 {
                return AlphaMapsRead::Failed(FormatError::PackedAlphaMapOutOfBounds(offset));
            }
            unpack(data, offset)
        } else {
            if offset > data.len() {
                return AlphaMapsRead::BadOffset;
            }
            match decompress(&data[offset..data.len()], ALPHA_MAP_SIZE) {
                Ok(map) => {
                    proof {
                        lemma_rle_len(
                            data@.subrange(offset as int, data@.len() as int),
                            0,
                            Seq::empty(),
                            ALPHA_MAP_SIZE as int,
                        );
                        let s = rle_decode(
                            data@.subrange(offset as int, data@.len() as int),
                            0,
                            Seq::empty(),
                            ALPHA_MAP_SIZE as int,
                        )->Ok_0;
                        assert(zero_padded(s) =~= s);
                    }
                    map
                },
                Err(e) => {
                    return AlphaMapsRead::Failed(e);
                },
            }
        };
        assert(alpha_map(data@, layer) == Ok::<Seq<u8>, FormatError>(map@));
        let ghost old_maps = Seq::new(maps@.len(), |k: int| maps@[k]@);
        maps.push(map);
        assert(Seq::new(maps@.len(), |k: int| maps@[k]@) =~= old_maps.push(map@));
        i = i + 1;
    }
    assert(ls.take(n - 1) == ls);
    AlphaMapsRead::Maps(maps)
}

/// Reads the alpha map of every layer after the base one, in layer order: uncompressed
/// (4096 bytes), 4-bit packed (2048 bytes) or run-length encoded, as the layer's flags
/// say. Fails with the first layer that cannot be read.
pub fn parse(data: &[u8], layers: &Mcly) -> (res: Result<Mcal, FormatError>)
    requires
        !reaches_bad_offset(data@, blended_layers(layers.layers@)),
    ensures
        match alpha_maps(data@, blended_layers(layers.layers@)) {
            Ok(ms) => res matches Ok(m) && m.maps() == ms,
            Err(e) => res == Err::<Mcal, FormatError>(e),
        },
{
    match read_alpha_maps(data, layers) {
        AlphaMapsRead::Maps(alpha_maps) => Ok(Mcal { alpha_maps }),
        AlphaMapsRead::Failed(e) => Err(e),
        AlphaMapsRead::BadOffset => Err(FormatError::UnexpectedEof),
    }
}

/// Whether `parse` can read these layers' alpha maps: `false` exactly when it would reach
/// a run-length encoded map whose offset lies past the end of `data`.
pub fn offsets_in_bounds(data: &[u8], layers: &Mcly) -> (b: bool)
    ensures
        b == !reaches_bad_offset(data@, blended_layers(layers.layers@)),
{
    match read_alpha_maps(data, layers) {
        AlphaMapsRead::BadOffset => false,
        _ => true,
    }
}

} // verus!
