use vstd::prelude::*;
use crate::error::FormatError;
use crate::io::{le_u32, read_u32_at, Cursor};

verus! {

/// A decoded texture: 8-bit RGBA texels, row by row.
pub struct BlpImage {
    pub rgba: Vec<u8>,
    pub width: u32,
    pub height: u32,
}

/// What decoding the BLP file `data` gives: the RGBA texels, the width and the height of
/// its first mipmap, or `None` when it cannot be decoded.
pub uninterp spec fn blp_rgba(data: Seq<u8>) -> Option<(Seq<u8>, u32, u32)>;

/// The format version a BLP file's magic names: 0, 1 or 2 for `BLP0`, `BLP1`, `BLP2`, and
/// -1 for anything else.
pub open spec fn blp_version(d: Seq<u8>) -> int {
    if d.len() < 4 || d[0] != 0x42 || d[1] != 0x4c || d[2] != 0x50 {
        -1
    } else if d[3] == 0x30 {
        0
    } else if d[3] == 0x31 {
        1
    } else if d[3] == 0x32 {
        2
    } else {
        -1
    }
}

/// The length of the fixed header of a BLP file of version `v`: magic, content, flags,
/// width, height, then (versions 0 and 1) two more words and (versions 1 and 2) the 16
/// mipmap offsets and the 16 mipmap sizes.
pub open spec fn blp_header_len(v: int) -> int {
    if v == 0 {
        28
    } else if v == 1 {
        156
    } else {
        148
    }
}

/// The compression (byte 8) and alpha type (byte 10) of a BLP2 header are values the
/// decoder knows; otherwise it refuses the header.
pub open spec fn blp2_flags_known(d: Seq<u8>) -> bool {
    &&& d[8] <= 3
    &&& d[10] == 0 || d[10] == 1 || d[10] == 7 || d[10] == 8
}

/// `x`, or 1 when `x` is 0 (the size of a mipmap level is never below 1).
pub open spec fn at_least_one(x: u32) -> int {
    if x == 0 {
        1
    } else {
        x as int
    }
}

/// An upper bound of the pixel count of every mipmap level: width times height, each taken
/// as at least 1.
pub open spec fn blp_pixel_bound(d: Seq<u8>) -> int {
    at_least_one(le_u32(d, 12)) * at_least_one(le_u32(d, 16))
}

/// The alpha bits per pixel that the palette decoder multiplies the pixel count by: the
/// alpha-bits byte of a BLP2 palette image, the alpha-bits word of an older direct image
/// when it is 0, 1, 4 or 8 (otherwise 0), and 0 for other kinds of image.
pub open spec fn blp_palette_alpha_bits(d: Seq<u8>, v: int) -> int {
    if v == 2 {
        if d[8] == 1 {
            d[9] as int
        } else {
            0
        }
    } else {
        let raw = le_u32(d, 8);
        if raw == 0 || raw == 1 || raw == 4 || raw == 8 {
            raw as int
        } else {
            0
        }
    }
}

/// The mipmap flag: byte 11 of a BLP2 header, the word at 24 of an older one.
pub open spec fn blp_has_mipmaps(d: Seq<u8>, v: int) -> bool {
    if v == 2 {
        d[11] != 0
    } else {
        le_u32(d, 24) != 0
    }
}

/// Where the 16 mipmap offsets start (the 16 sizes follow them).
pub open spec fn blp_locator_start(v: int) -> int {
    if v == 2 {
        20
    } else {
        28
    }
}

/// Offset plus size of mipmap entry `i` fits in a `u32`.
pub open spec fn blp_entry_fits(d: Seq<u8>, v: int, i: int) -> bool {
    le_u32(d, blp_locator_start(v) + 4 * i) as int + le_u32(d, blp_locator_start(v) + 64 + 4 * i)
        <= u32::MAX
}

/// The mipmap entries the decoder may slice by (all 16 when the mipmap flag is set, else
/// the first) have an offset plus size that fits in a `u32`.
pub open spec fn blp_entries_fit(d: Seq<u8>, v: int) -> bool {
    let n = if blp_has_mipmaps(d, v) {
        16int
    } else {
        1int
    };
    forall|i: int| 0 <= i < n ==> #[trigger] blp_entry_fits(d, v, i)
}

/// The header of `data` stays inside the limits of the decoder's `u32` arithmetic and of
/// the address space: the JPEG header length plus 2, every mipmap offset plus its size,
/// the pixel count (and 16 bytes per pixel of it), and the pixel count times the palette
/// alpha bits fit; a DXT image is at least one pixel wide. Files whose header does not
/// read (too short, unknown magic, unknown BLP2 compression or alpha type) are within the
/// limits: the decoder refuses them before any of this arithmetic.
pub open spec fn blp_within_limits(d: Seq<u8>) -> bool {
    let v = blp_version(d);
    let hl = blp_header_len(v);
    if v < 0 || d.len() < hl || (v == 2 && !blp2_flags_known(d)) {
        true
    } else {
        let direct = le_u32(d, 4) == 1;
        &&& (!direct && d.len() >= hl + 4) ==> le_u32(d, hl) <= u32::MAX - 2
        &&& v >= 1 ==> blp_entries_fit(d, v)
        &&& (direct && v >= 1 && d.len() >= hl + 1024) ==> {
            &&& blp_pixel_bound(d) <= u32::MAX
            &&& blp_pixel_bound(d) * 16 <= isize::MAX
            &&& blp_pixel_bound(d) * blp_palette_alpha_bits(d, v) <= u32::MAX
            &&& (v == 2 && d[8] == 2 && d[10] != 8) ==> le_u32(d, 12) >= 1
        }
    }
}

fn word_at(data: &[u8], at: usize) -> (w: u32)
    requires
        at + 4 <= data@.len(),
    ensures
        w == le_u32(data@, at as int),
{
    let mut r = Cursor::new(data);
    match read_u32_at(&mut r, at as u64) {
        Ok(w) => w,
        Err(_) => 0,
    }
}

/// Whether `decode` may be called on `data`: its header is within the decoder's limits
/// (see `blp_within_limits`).
pub fn within_decoder_limits(data: &[u8]) -> (b: bool)
    ensures
        b == blp_within_limits(data@),
{
    let ghost d = data@;
    let len = data.len();
    if len < 4 || data[0] != 0x42 || data[1] != 0x4c || data[2] != 0x50 {
        return true;
    }
    let v: u8 = if data[3] == 0x30 {
        0
    } else if data[3] == 0x31 {
        1
    } else if data[3] == 0x32 {
        2
    } else {
        return true;
    };
    assert(blp_version(d) == v as int);
    let hl: usize = if v == 0 {
        28
    } else if v == 1 {
        156
    } else {
        148
    };
    if len < hl {
        return true;
    }
    if v == 2 && !(data[8] <= 3 && (data[10] == 0 || data[10] == 1 || data[10] == 7
        || data[10] == 8)) {
        return true;
    }
    let direct = word_at(data, 4) == 1;
    if !direct && len >= hl + 4 {
        if word_at(data, hl) > u32::MAX - 2 {
            return false;
        }
    }
    if v >= 1 {
        let lo: usize = if v == 2 {
            20
        } else {
            28
        };
        let has_mipmaps = if v == 2 {
            data[11] != 0
        } else {
            word_at(data, 24) != 0
        };
        assert(has_mipmaps == blp_has_mipmaps(d, v as int));
        let n: usize = if has_mipmaps {
            16
        } else {
            1
        };
        let mut i: usize = 0;
        while i < n
            invariant
                d == data@,
                1 <= v <= 2,
                blp_version(d) == v as int,
                v == 2 ==> blp2_flags_known(d),
                (n == 16) == blp_has_mipmaps(d, v as int),
                n == 16 || n == 1,
                hl as int == blp_header_len(v as int),
                lo as int == blp_locator_start(v as int),
                hl <= data@.len(),
                n <= 16,
                i <= n,
                forall|j: int| 0 <= j < i ==> #[trigger] blp_entry_fits(d, v as int, j),
            decreases n - i,
        {
            let offset = word_at(data, lo + 4 * i);
            let size = word_at(data, lo + 64 + 4 * i);
            if offset as u64 + size as u64 > u32::MAX as u64 {
                assert(!blp_entry_fits(d, v as int, i as int));
                return false;
            }
            i = i + 1;
        }
        assert(blp_entries_fit(d, v as int));
    }
    if direct && v >= 1 && len >= hl + 1024 {
        let w = word_at(data, 12);
        let h = word_at(data, 16);
        let w1: u64 = if w == 0 {
            1
        } else {
            w as u64
        };
        let h1: u64 = if h == 0 {
            1
        } else {
            h as u64
        };
        assert(w1 * h1 <= 0xffff_ffff * 0xffff_ffff) by (nonlinear_arith)
            requires
                w1 <= 0xffff_ffff,
                h1 <= 0xffff_ffff,
        ;
        let pixels = w1 * h1;
        assert(pixels == blp_pixel_bound(d));
        if pixels > u32::MAX as u64 {
            return false;
        }
        if pixels * 16 > isize::MAX as u64 {
            return false;
        }
        let alpha_bits: u64 = if v == 2 {
            if data[8] == 1 {
                data[9] as u64
            } else {
                0
            }
        } else {
            let raw = word_at(data, 8);
            if raw == 0 || raw == 1 || raw == 4 || raw == 8 {
                raw as u64
            } else {
                0
            }
        };
        assert(alpha_bits == blp_palette_alpha_bits(d, v as int));
        assert(pixels * alpha_bits <= 0xffff_ffff * 0xffff_ffff) by (nonlinear_arith)
            requires
                pixels <= 0xffff_ffff,
                alpha_bits <= 0xffff_ffff,
        ;
        if pixels * alpha_bits > u32::MAX as u64 {
            return false;
        }
        if v == 2 && data[8] == 2 && data[10] != 8 && w == 0 {
            return false;
        }
    }
    true
}

/// The header of `data` reads and names JPEG content: the content word at 4 is anything
/// but 1 (direct content), which the decoder takes as JPEG.
pub open spec fn blp_jpeg_content(d: Seq<u8>) -> bool {
    let v = blp_version(d);
    &&& v >= 0
    &&& d.len() >= blp_header_len(v)
    &&& (v == 2 ==> blp2_flags_known(d))
    &&& le_u32(d, 4) != 1
}

/// Whether `data` is a BLP image with JPEG content, which `decode` does not take.
pub fn is_jpeg_content(data: &[u8]) -> (b: bool)
    ensures
        b == blp_jpeg_content(data@),
{
    let len = data.len();
    if len < 4 || data[0] != 0x42 || data[1] != 0x4c || data[2] != 0x50 {
        return false;
    }
    let hl: usize = if data[3] == 0x30 {
        28
    } else if data[3] == 0x31 {
        156
    } else if data[3] == 0x32 {
        148
    } else {
        return false;
    };
    if len < hl {
        return false;
    }
    if data[3] == 0x32 && !(data[8] <= 3 && (data[10] == 0 || data[10] == 1 || data[10] == 7
        || data[10] == 8)) {
        return false;
    }
    word_at(data, 4) != 1
}

/// Parses `data` with `wow_blp::parser::load_blp_from_buf` (no external mipmap files) and
/// converts mipmap 0 with `wow_blp::convert::blp_to_image`, then to 8-bit RGBA with
/// `DynamicImage::to_rgba8`. The outcome is named by `blp_rgba`: both calls depend on the
/// bytes alone. The error is the decoder's message; what it says is not stated.
///
/// The decoder does its size arithmetic in `u32` and sizes buffers by the header, so it
/// is called only on headers within `blp_within_limits`. Files with JPEG content are not
/// handed to it: they reach the JPEG decoder of the `image` crate, which is not known
/// never to panic on malformed data.
#[verifier::external_body]
fn decode_rgba(data: &[u8]) -> (res: Result<(Vec<u8>, u32, u32), String>)
    requires
        blp_within_limits(data@),
        !blp_jpeg_content(data@),
    ensures
        match blp_rgba(data@) {
            Some(t) => res matches Ok(v) && v.0@ == t.0 && v.1 == t.1 && v.2 == t.2,
            None => res is Err,
        },
{
    let blp = wow_blp::parser::load_blp_from_buf(data).map_err(|e| format!("{e}"))?;
    let image = wow_blp::convert::blp_to_image(&blp, 0).map_err(|e| format!("{e}"))?;
    let rgba = image.to_rgba8().into_raw();
    Ok((rgba, image.width(), image.height()))
}

/// Loads a BLP image from its bytes and decodes its first mipmap to RGBA. Images with
/// JPEG content are not decoded here (see `is_jpeg_content`).
pub fn decode(data: &[u8]) -> (res: Result<BlpImage, FormatError>)
    requires
        blp_within_limits(data@),
        !blp_jpeg_content(data@),
    ensures
        match blp_rgba(data@) {
            Some(t) => res matches Ok(img) && img.rgba@ == t.0 && img.width == t.1 && img.height
                == t.2,
            None => res matches Err(FormatError::BlpDecode(_)),
        },
{
    match decode_rgba(data) {
        Ok((rgba, width, height)) => Ok(BlpImage { rgba, width, height }),
        Err(message) => Err(FormatError::BlpDecode(message)),
    }
}

} // verus!
