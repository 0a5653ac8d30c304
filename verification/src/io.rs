use vstd::prelude::*;
use crate::error::FormatError;

verus! {

/// The little-endian `u16` stored at `at`.
pub open spec fn le_u16(b: Seq<u8>, at: int) -> u16 {
    (b[at] as int + b[at + 1] as int * 256) as u16
}

/// The little-endian `u32` stored at `at`.
pub open spec fn le_u32(b: Seq<u8>, at: int) -> u32 {
    (b[at] as int + b[at + 1] as int * 256 + b[at + 2] as int * 65536 + b[at + 3] as int
        * 16777216) as u32
}

/// A read position over a byte slice. As with a seekable reader, the position may lie
/// past the end of the data; reading there fails.
pub struct Cursor<'a> {
    pub data: &'a [u8],
    pub pos: u64,
}

/// `n` bytes can be read at the cursor's position.
pub open spec fn can_read(c: Cursor, n: int) -> bool {
    c.pos + n <= c.data@.len()
}

/// The first index at or after `from` that holds a zero byte, or the length of `b`.
pub open spec fn nul_index(b: Seq<u8>, from: int) -> int
    decreases b.len() - from,
{
    if from >= b.len() {
        b.len() as int
    } else if b[from] == 0 {
        from
    } else {
        nul_index(b, from + 1)
    }
}

pub proof fn lemma_nul_index(b: Seq<u8>, from: int)
    requires
        0 <= from,
    ensures
        from <= b.len() ==> from <= nul_index(b, from) <= b.len(),
        from > b.len() ==> nul_index(b, from) == b.len(),
        nul_index(b, from) < b.len() ==> b[nul_index(b, from)] == 0,
        forall|k: int| from <= k < nul_index(b, from) ==> b[k] != 0,
    decreases b.len() - from,
{
    if from < b.len() && b[from] != 0 {
        lemma_nul_index(b, from + 1);
    }
}

/// The bytes before the terminator of the string that starts at `from`.
pub open spec fn nullterm_bytes(b: Seq<u8>, from: int) -> Seq<u8> {
    if from >= b.len() {
        Seq::empty()
    } else {
        b.subrange(from, nul_index(b, from))
    }
}

/// Where reading a null-terminated string at `pos` leaves the position: after the
/// terminator, at the end when there is none, unchanged when nothing is left.
pub open spec fn nullterm_next(b: Seq<u8>, pos: int) -> int {
    if pos >= b.len() {
        pos
    } else if nul_index(b, pos) < b.len() {
        nul_index(b, pos) + 1
    } else {
        b.len() as int
    }
}

/// The byte strings of a list of null-terminated strings starting at `from`; an empty
/// string or the end of the data ends the list.
pub open spec fn nullterm_list(b: Seq<u8>, from: int) -> Seq<Seq<u8>>
    decreases b.len() - from,
{
    if from < 0 || from >= b.len() || nul_index(b, from) == from {
        Seq::empty()
    } else {
        proof {
            lemma_nul_index(b, from);
        }
        if nul_index(b, from) >= b.len() {
            seq![b.subrange(from, nul_index(b, from))]
        } else {
            seq![b.subrange(from, nul_index(b, from))] + nullterm_list(b, nul_index(b, from) + 1)
        }
    }
}

/// A string read up to its terminator never holds a zero byte: the terminator is left
/// out.
pub proof fn law_nullterm_excludes_terminator(b: Seq<u8>, from: int)
    requires
        0 <= from,
    ensures
        forall|k: int| 0 <= k < nullterm_bytes(b, from).len() ==> nullterm_bytes(b, from)[k] != 0,
{
    lemma_nul_index(b, from);
    if from < b.len() {
        assert forall|k: int| 0 <= k < nullterm_bytes(b, from).len() implies nullterm_bytes(
            b,
            from,
        )[k] != 0 by {
            assert(nullterm_bytes(b, from)[k] == b[from + k]);
        }
    }
}

/// Every string of a list of null-terminated strings is non-empty and holds no zero byte
/// (an empty string ends the list).
pub proof fn law_nullterm_list_entries(b: Seq<u8>, from: int)
    ensures
        forall|i: int|
            0 <= i < nullterm_list(b, from).len() ==> (#[trigger] nullterm_list(b, from)[i]).len()
                > 0 && forall|k: int|
                0 <= k < nullterm_list(b, from)[i].len() ==> nullterm_list(b, from)[i][k] != 0,
    decreases b.len() - from,
{
    if !(from < 0 || from >= b.len() || nul_index(b, from) == from) {
        lemma_nul_index(b, from);
        let first = b.subrange(from, nul_index(b, from));
        assert forall|k: int| 0 <= k < first.len() implies first[k] != 0 by {
            assert(first[k] == b[from + k]);
        }
        if nul_index(b, from) < b.len() {
            law_nullterm_list_entries(b, nul_index(b, from) + 1);
            let rest = nullterm_list(b, nul_index(b, from) + 1);
            assert(nullterm_list(b, from) == seq![first] + rest);
            assert forall|i: int| 0 <= i < nullterm_list(b, from).len() implies (#[trigger] nullterm_list(
                b,
                from,
            )[i]).len() > 0 && forall|k: int|
                0 <= k < nullterm_list(b, from)[i].len() ==> nullterm_list(b, from)[i][k] != 0 by {
                if i > 0 {
                    assert(nullterm_list(b, from)[i] == rest[i - 1]);
                }
            }
        } else {
            assert(nullterm_list(b, from) == seq![first]);
        }
    }
}

/// The text that lossy UTF-8 decoding makes of `bytes` (`String::from_utf8_lossy`).
pub uninterp spec fn utf8_lossy_text(bytes: Seq<u8>) -> Seq<char>;

/// Every byte is below 0x80.
pub open spec fn all_ascii(bytes: Seq<u8>) -> bool {
    forall|i: int| 0 <= i < bytes.len() ==> bytes[i] < 0x80
}

/// The characters whose codes are the given ASCII bytes.
pub open spec fn ascii_text(bytes: Seq<u8>) -> Seq<char> {
    Seq::new(bytes.len(), |i: int| bytes[i] as char)
}

/// A UTF-8 continuation byte.
pub open spec fn is_continuation(b: u8) -> bool {
    0x80 <= b <= 0xBF
}

/// The length of the well-formed UTF-8 sequence that `s` starts with, or 0 when it starts
/// with none (the well-formed byte sequences of the Unicode standard, table 3-7: no
/// overlong forms, no surrogates, nothing above U+10FFFF).
pub open spec fn utf8_sequence_len(s: Seq<u8>) -> int {
    if s.len() == 0 {
        0
    } else if s[0] <= 0x7F {
        1
    } else if 0xC2 <= s[0] <= 0xDF {
        if s.len() >= 2 && is_continuation(s[1]) {
            2
        } else {
            0
        }
    } else if 0xE0 <= s[0] <= 0xEF {
        let second_ok = if s[0] == 0xE0 {
            0xA0 <= s[1] <= 0xBF
        } else if s[0] == 0xED {
            0x80 <= s[1] <= 0x9F
        } else {
            is_continuation(s[1])
        };
        if s.len() >= 3 && second_ok && is_continuation(s[2]) {
            3
        } else {
            0
        }
    } else if 0xF0 <= s[0] <= 0xF4 {
        let second_ok = if s[0] == 0xF0 {
            0x90 <= s[1] <= 0xBF
        } else if s[0] == 0xF4 {
            0x80 <= s[1] <= 0x8F
        } else {
            is_continuation(s[1])
        };
        if s.len() >= 4 && second_ok && is_continuation(s[2]) && is_continuation(s[3]) {
            4
        } else {
            0
        }
    } else {
        0
    }
}

/// The code point encoded by the first `n` bytes of `s`.
pub open spec fn utf8_code_point(s: Seq<u8>, n: int) -> int {
    if n == 1 {
        s[0] as int
    } else if n == 2 {
        (s[0] - 0xC0) * 64 + (s[1] - 0x80)
    } else if n == 3 {
        (s[0] - 0xE0) * 4096 + (s[1] - 0x80) * 64 + (s[2] - 0x80)
    } else {
        (s[0] - 0xF0) * 262144 + (s[1] - 0x80) * 4096 + (s[2] - 0x80) * 64 + (s[3] - 0x80)
    }
}

/// The text that `bytes` encode when they are valid UTF-8, `None` when they are not.
pub open spec fn utf8_decode(bytes: Seq<u8>) -> Option<Seq<char>>
    decreases bytes.len(),
{
    if bytes.len() == 0 {
        Some(Seq::empty())
    } else {
        let n = utf8_sequence_len(bytes);
        if n == 0 {
            None
        } else {
            match utf8_decode(bytes.skip(n)) {
                Some(rest) => Some(seq![utf8_code_point(bytes, n) as char] + rest),
                None => None,
            }
        }
    }
}

/// `s` is what lossy UTF-8 decoding makes of `bytes`: valid UTF-8 (ASCII in particular)
/// comes back as the text it encodes.
pub open spec fn decoded_as(bytes: Seq<u8>, s: Seq<char>) -> bool {
    &&& s == utf8_lossy_text(bytes)
    &&& all_ascii(bytes) ==> s == ascii_text(bytes)
    &&& utf8_decode(bytes) matches Some(t) ==> s == t
}

/// Decodes `bytes` with `String::from_utf8_lossy`. The result is named by
/// `utf8_lossy_text`; as the documentation of that function says, valid UTF-8 comes back
/// as the text it encodes (ASCII as the same characters). What it makes of invalid byte
/// sequences (which parts become U+FFFD) is not stated.
#[verifier::external_body]
pub(crate) fn utf8_lossy(bytes: &[u8]) -> (s: String)
    ensures
        s@ == utf8_lossy_text(bytes@),
        all_ascii(bytes@) ==> s@ == ascii_text(bytes@),
        utf8_decode(bytes@) matches Some(t) ==> s@ == t,
{
    String::from_utf8_lossy(bytes).into_owned()
}

/// The bytes `data[start..end]` as a new vector.
pub fn copy_range(data: &[u8], start: usize, end: usize) -> (v: Vec<u8>)
    requires
        start <= end <= data@.len(),
    ensures
        v@ == data@.subrange(start as int, end as int),
{
    let mut v: Vec<u8> = Vec::new();
    let mut i = start;
    while i < end
        invariant
            start <= i <= end <= data@.len(),
            v@ == data@.subrange(start as int, i as int),
        decreases end - i,
    {
        v.push(data[i]);
        i = i + 1;
    }
    v
}

impl<'a> Cursor<'a> {
    pub fn new(data: &'a [u8]) -> (c: Cursor<'a>)
        ensures
            c.data@ == data@,
            c.pos == 0,
    {
        Cursor { data, pos: 0 }
    }

    /// Moves to an absolute position (which may lie past the end).
    pub fn seek(&mut self, offset: u64)
        ensures
            final(self).data@ == old(self).data@,
            final(self).pos == offset,
    {
        self.pos = offset;
    }

    pub fn position(&self) -> (p: u64)
        ensures
            p == self.pos,
    {
        self.pos
    }

    /// Whether `n` bytes can be read at the current position.
    pub fn has(&self, n: u64) -> (b: bool)
        ensures
            b == can_read(*self, n as int),
    {
        let len = self.data.len() as u64;
        self.pos <= len && len - self.pos >= n
    }

    /// Reads `n` bytes; when fewer are left it fails and moves the cursor to the end of
    /// the data (as `std::io::Cursor::read_exact` does).
    pub fn read_bytes(&mut self, n: u64) -> (res: Result<Vec<u8>, FormatError>)
        ensures
            final(self).data@ == old(self).data@,
            can_read(*old(self), n as int) ==> (res matches Ok(v) && v@ == old(self).data@.subrange(
                old(self).pos as int,
                old(self).pos + n,
            ) && final(self).pos == old(self).pos + n),
            !can_read(*old(self), n as int) ==> res == Err::<Vec<u8>, FormatError>(
                FormatError::UnexpectedEof,
            ) && final(self).pos == old(self).data@.len(),
    {
        if !self.has(n) {
            self.pos = self.data.len() as u64;
            return Err(FormatError::UnexpectedEof);
        }
        let len = self.data.len();
        let start = self.pos as usize;
        let end = start + (n as usize);
        let v = copy_range(self.data, start, end);
        self.pos = self.pos + n;
        Ok(v)
    }
}

/// Reads one byte (see `Cursor::read_bytes` for a short read).
pub fn read_u8(r: &mut Cursor) -> (res: Result<u8, FormatError>)
    ensures
        final(r).data@ == old(r).data@,
        can_read(*old(r), 1) ==> res == Ok::<u8, FormatError>(old(r).data@[old(r).pos as int])
            && final(r).pos == old(r).pos + 1,
        !can_read(*old(r), 1) ==> res == Err::<u8, FormatError>(FormatError::UnexpectedEof)
            && final(r).pos == old(r).data@.len(),
{
    if !r.has(1) {
        r.pos = r.data.len() as u64;
        return Err(FormatError::UnexpectedEof);
    }
    let b = r.data[r.pos as usize];
    r.pos = r.pos + 1;
    Ok(b)
}

/// Reads a little-endian `u16`; a short read fails at the end of the data.
pub fn read_u16(r: &mut Cursor) -> (res: Result<u16, FormatError>)
    ensures
        final(r).data@ == old(r).data@,
        can_read(*old(r), 2) ==> res == Ok::<u16, FormatError>(
            le_u16(old(r).data@, old(r).pos as int),
        ) && final(r).pos == old(r).pos + 2,
        !can_read(*old(r), 2) ==> res == Err::<u16, FormatError>(FormatError::UnexpectedEof)
            && final(r).pos == old(r).data@.len(),
{
    if !r.has(2) {
        r.pos = r.data.len() as u64;
        return Err(FormatError::UnexpectedEof);
    }
    let p = r.pos as usize;
    let v = r.data[p] as u16 + r.data[p + 1] as u16 * 256;
    r.pos = r.pos + 2;
    Ok(v)
}

/// Reads a little-endian `u32`; a short read fails at the end of the data.
pub fn read_u32(r: &mut Cursor) -> (res: Result<u32, FormatError>)
    ensures
        final(r).data@ == old(r).data@,
        can_read(*old(r), 4) ==> res == Ok::<u32, FormatError>(
            le_u32(old(r).data@, old(r).pos as int),
        ) && final(r).pos == old(r).pos + 4,
        !can_read(*old(r), 4) ==> res == Err::<u32, FormatError>(FormatError::UnexpectedEof)
            && final(r).pos == old(r).data@.len(),
{
    if !r.has(4) {
        r.pos = r.data.len() as u64;
        return Err(FormatError::UnexpectedEof);
    }
    let p = r.pos as usize;
    let v = r.data[p] as u32 + r.data[p + 1] as u32 * 256 + r.data[p + 2] as u32 * 65536
        + r.data[p + 3] as u32 * 16777216;
    r.pos = r.pos + 4;
    Ok(v)
}

/// Reads a little-endian 32-bit float and hands back its IEEE-754 bit pattern
/// (`f32::from_bits` of the result is the float).
pub fn read_f32(r: &mut Cursor) -> (res: Result<u32, FormatError>)
    ensures
        final(r).data@ == old(r).data@,
        can_read(*old(r), 4) ==> res == Ok::<u32, FormatError>(
            le_u32(old(r).data@, old(r).pos as int),
        ) && final(r).pos == old(r).pos + 4,
        !can_read(*old(r), 4) ==> res == Err::<u32, FormatError>(FormatError::UnexpectedEof)
            && final(r).pos == old(r).data@.len(),
{
    read_u32(r)
}

/// Moves to `offset` and reads a little-endian `u32` there.
pub fn read_u32_at(r: &mut Cursor, offset: u64) -> (res: Result<u32, FormatError>)
    ensures
        final(r).data@ == old(r).data@,
        offset + 4 <= old(r).data@.len() ==> res == Ok::<u32, FormatError>(
            le_u32(old(r).data@, offset as int),
        ) && final(r).pos == offset + 4,
        offset + 4 > old(r).data@.len() ==> res == Err::<u32, FormatError>(
            FormatError::UnexpectedEof,
        ) && final(r).pos == old(r).data@.len(),
{
    r.seek(offset);
    read_u32(r)
}

/// Moves to `offset` and reads the bit pattern of the little-endian float there.
pub fn read_f32_at(r: &mut Cursor, offset: u64) -> (res: Result<u32, FormatError>)
    ensures
        final(r).data@ == old(r).data@,
        offset + 4 <= old(r).data@.len() ==> res == Ok::<u32, FormatError>(
            le_u32(old(r).data@, offset as int),
        ) && final(r).pos == offset + 4,
        offset + 4 > old(r).data@.len() ==> res == Err::<u32, FormatError>(
            FormatError::UnexpectedEof,
        ) && final(r).pos == old(r).data@.len(),
{
    r.seek(offset);
    read_f32(r)
}

/// Reads up to and including the next zero byte (or to the end of the data) and returns
/// the bytes before the zero.
pub fn read_until_nul(r: &mut Cursor) -> (res: Vec<u8>)
    ensures
        final(r).data@ == old(r).data@,
        res@ == nullterm_bytes(old(r).data@, old(r).pos as int),
        final(r).pos == nullterm_next(old(r).data@, old(r).pos as int),
{
    let len = r.data.len();
    let mut out: Vec<u8> = Vec::new();
    if r.pos >= len as u64 {
        return out;
    }
    let start = r.pos as usize;
    let mut i = start;
    proof {
        lemma_nul_index(r.data@, start as int);
    }
    while i < len && r.data[i] != 0
        invariant
            start <= i <= len,
            len == r.data@.len(),
            i <= nul_index(r.data@, start as int),
            nul_index(r.data@, start as int) <= len,
            nul_index(r.data@, start as int) < len ==> r.data@[nul_index(r.data@, start as int)] == 0,
            forall|k: int| start <= k < nul_index(r.data@, start as int) ==> r.data@[k] != 0,
            out@ == r.data@.subrange(start as int, i as int),
        decreases len - i,
    {
        out.push(r.data[i]);
        i = i + 1;
        assert(out@ == r.data@.subrange(start as int, i as int));
    }
    if i < len {
        r.pos = (i + 1) as u64;
    } else {
        r.pos = len as u64;
    }
    out
}

/// Reads a null-terminated string: the bytes before the next zero byte (or the rest of the
/// data), decoded as lossy UTF-8. Never fails.
pub fn read_nullterm_string(r: &mut Cursor) -> (res: Result<String, FormatError>)
    ensures
        final(r).data@ == old(r).data@,
        (res matches Ok(s) && decoded_as(nullterm_bytes(old(r).data@, old(r).pos as int), s@)),
        final(r).pos == nullterm_next(old(r).data@, old(r).pos as int),
{
    let bytes = read_until_nul(r);
    Ok(utf8_lossy(bytes.as_slice()))
}

/// Reads the list of null-terminated strings that starts at `offset`; an empty string or
/// the end of the data ends it. Never fails.
pub fn read_nullterm_strings_at(r: &mut Cursor, offset: u64) -> (res: Result<
    Vec<String>,
    FormatError,
>)
    ensures
        final(r).data@ == old(r).data@,
        (res matches Ok(v) && v@.len() == nullterm_list(old(r).data@, offset as int).len() && (
        forall|i: int|
            0 <= i < v@.len() ==> decoded_as(
                nullterm_list(old(r).data@, offset as int)[i],
                #[trigger] v@[i]@,
            ))),
{
    r.seek(offset);
    let ghost b = r.data@;
    let mut strings: Vec<String> = Vec::new();
    loop
        invariant_except_break
            r.data@ == b,
            strings@.len() + nullterm_list(b, r.pos as int).len() == nullterm_list(
                b,
                offset as int,
            ).len(),
            forall|i: int|
                0 <= i < strings@.len() ==> decoded_as(
                    nullterm_list(b, offset as int)[i],
                    #[trigger] strings@[i]@,
                ),
            forall|i: int|
                0 <= i < nullterm_list(b, r.pos as int).len() ==> nullterm_list(
                    b,
                    r.pos as int,
                )[i] == nullterm_list(b, offset as int)[strings@.len() + i],
        ensures
            r.data@ == b,
            strings@.len() == nullterm_list(b, offset as int).len(),
            forall|i: int|
                0 <= i < strings@.len() ==> decoded_as(
                    nullterm_list(b, offset as int)[i],
                    #[trigger] strings@[i]@,
                ),
        decreases b.len() - r.pos,
    {
        let ghost p = r.pos as int;
        let buf = read_until_nul(r);
        proof {
            lemma_nul_index(b, p);
        }
        if buf.len() == 0 {
            assert(nullterm_list(b, p).len() == 0);
            break;
        }
        proof {
            let rest = nullterm_list(b, nul_index(b, p) + 1);
            if nul_index(b, p) == b.len() {
                assert(rest.len() == 0);
                assert(nullterm_list(b, p) == seq![b.subrange(p, nul_index(b, p))]);
            } else {
                assert(nullterm_list(b, p) == seq![b.subrange(p, nul_index(b, p))] + rest);
            }
            assert(nullterm_list(b, r.pos as int) == rest);
            assert(nullterm_list(b, p)[0] == nullterm_list(b, offset as int)[strings@.len() as int]);
            assert forall|i: int| 0 <= i < rest.len() implies rest[i] == nullterm_list(
                b,
                offset as int,
            )[strings@.len() + 1 + i] by {
                assert(rest[i] == nullterm_list(b, p)[i + 1]);
            }
        }
        let s = utf8_lossy(buf.as_slice());
        strings.push(s);
    }
    Ok(strings)
}

} // verus!
