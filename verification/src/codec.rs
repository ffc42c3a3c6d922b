//! Byte-level wire codec.
//!
//! Everything on the wire is big-endian. Decoding works through [`Reader`], a
//! cursor over a byte buffer whose methods are specified exactly by the
//! `parse_*` spec functions; encoding appends to a `Vec<u8>` and is specified
//! by the `spec_be*` functions. The two directions are tied together by
//! round-trip lemmas at the bottom of the module.

use vstd::prelude::*;

verus! {

/// Why a decode failed. Decode failures are fatal for a connection: the
/// framing cannot resynchronise after a malformed packet.
#[derive(Clone, Copy, Debug, PartialEq, Eq, Structural)]
pub enum DecodeError {
    /// The buffer ended before the field did.
    ShortInput,
    /// A string length prefix was negative or above the field's limit.
    StringLength(i16),
    /// The code units of a string did not form valid UTF-16.
    InvalidUtf16,
    /// An attribute-map header named a value type that does not exist.
    AttributeType(u8),
    /// A respawn-action packet carried an unknown action code.
    RespawnAction(i8),
    /// A packet identifier that names no inbound packet.
    UnknownPacketId(u8),
    /// A compressed block array that did not inflate.
    Compression,
}

/// Why an encode failed.
#[derive(Clone, Copy, Debug, PartialEq, Eq, Structural)]
pub enum EncodeError {
    /// A string whose UTF-16 encoding exceeds a signed 16-bit length.
    StringTooLong,
}

// ---------------------------------------------------------------------------
// Big-endian byte composition.
// ---------------------------------------------------------------------------

/// The value of two big-endian bytes.
pub open spec fn u16_of(b0: u8, b1: u8) -> u16 {
    ((b0 as int) * 0x100 + (b1 as int)) as u16
}

/// The value of four big-endian bytes.
pub open spec fn u32_of(b0: u8, b1: u8, b2: u8, b3: u8) -> u32 {
    ((b0 as int) * 0x1000000 + (b1 as int) * 0x10000 + (b2 as int) * 0x100 + (b3 as int)) as u32
}

/// The value of eight big-endian bytes.
pub open spec fn u64_of(b0: u8, b1: u8, b2: u8, b3: u8, b4: u8, b5: u8, b6: u8, b7: u8) -> u64 {
    ((b0 as int) * 0x100000000000000 + (b1 as int) * 0x1000000000000 + (b2 as int) * 0x10000000000
        + (b3 as int) * 0x100000000 + (b4 as int) * 0x1000000 + (b5 as int) * 0x10000 + (b6 as int)
        * 0x100 + (b7 as int)) as u64
}

/// The two big-endian bytes of a 16-bit value.
pub open spec fn spec_be2(x: u16) -> Seq<u8> {
    seq![(x / 0x100) as u8, (x % 0x100) as u8]
}

/// The four big-endian bytes of a 32-bit value.
pub open spec fn spec_be4(x: u32) -> Seq<u8> {
    seq![
        (x / 0x1000000) as u8,
        ((x / 0x10000) % 0x100) as u8,
        ((x / 0x100) % 0x100) as u8,
        (x % 0x100) as u8,
    ]
}

/// The eight big-endian bytes of a 64-bit value.
pub open spec fn spec_be8(x: u64) -> Seq<u8> {
    seq![
        (x / 0x100000000000000) as u8,
        ((x / 0x1000000000000) % 0x100) as u8,
        ((x / 0x10000000000) % 0x100) as u8,
        ((x / 0x100000000) % 0x100) as u8,
        ((x / 0x1000000) % 0x100) as u8,
        ((x / 0x10000) % 0x100) as u8,
        ((x / 0x100) % 0x100) as u8,
        (x % 0x100) as u8,
    ]
}

// ---------------------------------------------------------------------------
// Spec-level parsers. Each takes the whole buffer and a cursor and returns
// the parsed value with the new cursor, or the error the exec decoder
// reports on the same input.
// ---------------------------------------------------------------------------

pub open spec fn parse_u8(s: Seq<u8>, i: int) -> Result<(u8, int), DecodeError> {
    if 0 <= i && i + 1 <= s.len() {
        Ok((s[i], i + 1))
    } else {
        Err(DecodeError::ShortInput)
    }
}

pub open spec fn parse_u16(s: Seq<u8>, i: int) -> Result<(u16, int), DecodeError> {
    if 0 <= i && i + 2 <= s.len() {
        Ok((u16_of(s[i], s[i + 1]), i + 2))
    } else {
        Err(DecodeError::ShortInput)
    }
}

pub open spec fn parse_u32(s: Seq<u8>, i: int) -> Result<(u32, int), DecodeError> {
    if 0 <= i && i + 4 <= s.len() {
        Ok((u32_of(s[i], s[i + 1], s[i + 2], s[i + 3]), i + 4))
    } else {
        Err(DecodeError::ShortInput)
    }
}

pub open spec fn parse_u64(s: Seq<u8>, i: int) -> Result<(u64, int), DecodeError> {
    if 0 <= i && i + 8 <= s.len() {
        Ok(
            (
                u64_of(s[i], s[i + 1], s[i + 2], s[i + 3], s[i + 4], s[i + 5], s[i + 6], s[i + 7]),
                i + 8,
            ),
        )
    } else {
        Err(DecodeError::ShortInput)
    }
}

pub open spec fn parse_i8(s: Seq<u8>, i: int) -> Result<(i8, int), DecodeError> {
    match parse_u8(s, i) {
        Ok((v, j)) => Ok((v as i8, j)),
        Err(e) => Err(e),
    }
}

pub open spec fn parse_i16(s: Seq<u8>, i: int) -> Result<(i16, int), DecodeError> {
    match parse_u16(s, i) {
        Ok((v, j)) => Ok((v as i16, j)),
        Err(e) => Err(e),
    }
}

pub open spec fn parse_i32(s: Seq<u8>, i: int) -> Result<(i32, int), DecodeError> {
    match parse_u32(s, i) {
        Ok((v, j)) => Ok((v as i32, j)),
        Err(e) => Err(e),
    }
}

pub open spec fn parse_i64(s: Seq<u8>, i: int) -> Result<(i64, int), DecodeError> {
    match parse_u64(s, i) {
        Ok((v, j)) => Ok((v as i64, j)),
        Err(e) => Err(e),
    }
}

/// A one-byte boolean: zero is false, anything else is true.
pub open spec fn parse_bool(s: Seq<u8>, i: int) -> Result<(bool, int), DecodeError> {
    match parse_u8(s, i) {
        Ok((v, j)) => Ok((v != 0, j)),
        Err(e) => Err(e),
    }
}

/// A raw run of `n` bytes.
pub open spec fn parse_bytes(s: Seq<u8>, i: int, n: int) -> Result<(Seq<u8>, int), DecodeError> {
    if 0 <= i && 0 <= n && i + n <= s.len() {
        Ok((s.subrange(i, i + n), i + n))
    } else {
        Err(DecodeError::ShortInput)
    }
}

// ---------------------------------------------------------------------------
// The exec cursor.
// ---------------------------------------------------------------------------

/// A decoding cursor over a byte buffer.
pub struct Reader<'a> {
    data: &'a Vec<u8>,
    pos: usize,
}

impl<'a> Reader<'a> {
    /// The bytes being decoded.
    pub closed spec fn bytes(self) -> Seq<u8> {
        self.data@
    }

    /// The cursor position.
    pub closed spec fn spec_pos(self) -> int {
        self.pos as int
    }

    /// The cursor never passes the end of the buffer.
    pub closed spec fn wf(self) -> bool {
        self.pos <= self.data@.len()
    }

    pub fn new(data: &'a Vec<u8>) -> (r: Reader<'a>)
        ensures
            r.wf(),
            r.bytes() == data@,
            r.spec_pos() == 0,
    {
        Reader { data, pos: 0 }
    }

    /// How far the cursor has advanced.
    pub fn position(&self) -> (r: usize)
        ensures
            r == self.spec_pos(),
    {
        self.pos
    }

    pub fn read_u8(&mut self) -> (r: Result<u8, DecodeError>)
        requires
            old(self).wf(),
        ensures
            final(self).wf(),
            final(self).bytes() == old(self).bytes(),
            match r {
                Ok(v) => parse_u8(old(self).bytes(), old(self).spec_pos()) == Ok::<
                    _,
                    DecodeError,
                >((v, final(self).spec_pos())),
                Err(e) => parse_u8(old(self).bytes(), old(self).spec_pos()) == Err::<
                    (u8, int),
                    _,
                >(e) && final(self).spec_pos() == old(self).spec_pos(),
            },
    {
        if self.pos < self.data.len() {
            let v = self.data[self.pos];
            self.pos = self.pos + 1;
            Ok(v)
        } else {
            Err(DecodeError::ShortInput)
        }
    }

    pub fn read_u16(&mut self) -> (r: Result<u16, DecodeError>)
        requires
            old(self).wf(),
        ensures
            final(self).wf(),
            final(self).bytes() == old(self).bytes(),
            match r {
                Ok(v) => parse_u16(old(self).bytes(), old(self).spec_pos()) == Ok::<
                    _,
                    DecodeError,
                >((v, final(self).spec_pos())),
                Err(e) => parse_u16(old(self).bytes(), old(self).spec_pos()) == Err::<
                    (u16, int),
                    _,
                >(e) && final(self).spec_pos() == old(self).spec_pos(),
            },
    {
        if self.data.len() - self.pos >= 2 {
            let b0 = self.data[self.pos];
            let b1 = self.data[self.pos + 1];
            self.pos = self.pos + 2;
            Ok((b0 as u16) * 0x100 + (b1 as u16))
        } else {
            Err(DecodeError::ShortInput)
        }
    }

    pub fn read_u32(&mut self) -> (r: Result<u32, DecodeError>)
        requires
            old(self).wf(),
        ensures
            final(self).wf(),
            final(self).bytes() == old(self).bytes(),
            match r {
                Ok(v) => parse_u32(old(self).bytes(), old(self).spec_pos()) == Ok::<
                    _,
                    DecodeError,
                >((v, final(self).spec_pos())),
                Err(e) => parse_u32(old(self).bytes(), old(self).spec_pos()) == Err::<
                    (u32, int),
                    _,
                >(e) && final(self).spec_pos() == old(self).spec_pos(),
            },
    {
        if self.data.len() - self.pos >= 4 {
            let b0 = self.data[self.pos];
            let b1 = self.data[self.pos + 1];
            let b2 = self.data[self.pos + 2];
            let b3 = self.data[self.pos + 3];
            self.pos = self.pos + 4;
            Ok((b0 as u32) * 0x1000000 + (b1 as u32) * 0x10000 + (b2 as u32) * 0x100 + (b3 as u32))
        } else {
            Err(DecodeError::ShortInput)
        }
    }

    pub fn read_u64(&mut self) -> (r: Result<u64, DecodeError>)
        requires
            old(self).wf(),
        ensures
            final(self).wf(),
            final(self).bytes() == old(self).bytes(),
            match r {
                Ok(v) => parse_u64(old(self).bytes(), old(self).spec_pos()) == Ok::<
                    _,
                    DecodeError,
                >((v, final(self).spec_pos())),
                Err(e) => parse_u64(old(self).bytes(), old(self).spec_pos()) == Err::<
                    (u64, int),
                    _,
                >(e) && final(self).spec_pos() == old(self).spec_pos(),
            },
    {
        if self.data.len() - self.pos >= 8 {
            let b0 = self.data[self.pos];
            let b1 = self.data[self.pos + 1];
            let b2 = self.data[self.pos + 2];
            let b3 = self.data[self.pos + 3];
            let b4 = self.data[self.pos + 4];
            let b5 = self.data[self.pos + 5];
            let b6 = self.data[self.pos + 6];
            let b7 = self.data[self.pos + 7];
            self.pos = self.pos + 8;
            Ok(
                (b0 as u64) * 0x100000000000000 + (b1 as u64) * 0x1000000000000 + (b2 as u64)
                    * 0x10000000000 + (b3 as u64) * 0x100000000 + (b4 as u64) * 0x1000000 + (
                b5 as u64) * 0x10000 + (b6 as u64) * 0x100 + (b7 as u64),
            )
        } else {
            Err(DecodeError::ShortInput)
        }
    }

    pub fn read_i8(&mut self) -> (r: Result<i8, DecodeError>)
        requires
            old(self).wf(),
        ensures
            final(self).wf(),
            final(self).bytes() == old(self).bytes(),
            match r {
                Ok(v) => parse_i8(old(self).bytes(), old(self).spec_pos()) == Ok::<
                    _,
                    DecodeError,
                >((v, final(self).spec_pos())),
                Err(e) => parse_i8(old(self).bytes(), old(self).spec_pos()) == Err::<
                    (i8, int),
                    _,
                >(e) && final(self).spec_pos() == old(self).spec_pos(),
            },
    {
        match self.read_u8() {
            Ok(v) => Ok(v as i8),
            Err(e) => Err(e),
        }
    }

    pub fn read_i16(&mut self) -> (r: Result<i16, DecodeError>)
        requires
            old(self).wf(),
        ensures
            final(self).wf(),
            final(self).bytes() == old(self).bytes(),
            match r {
                Ok(v) => parse_i16(old(self).bytes(), old(self).spec_pos()) == Ok::<
                    _,
                    DecodeError,
                >((v, final(self).spec_pos())),
                Err(e) => parse_i16(old(self).bytes(), old(self).spec_pos()) == Err::<
                    (i16, int),
                    _,
                >(e) && final(self).spec_pos() == old(self).spec_pos(),
            },
    {
        match self.read_u16() {
            Ok(v) => Ok(v as i16),
            Err(e) => Err(e),
        }
    }

    pub fn read_i32(&mut self) -> (r: Result<i32, DecodeError>)
        requires
            old(self).wf(),
        ensures
            final(self).wf(),
            final(self).bytes() == old(self).bytes(),
            match r {
                Ok(v) => parse_i32(old(self).bytes(), old(self).spec_pos()) == Ok::<
                    _,
                    DecodeError,
                >((v, final(self).spec_pos())),
                Err(e) => parse_i32(old(self).bytes(), old(self).spec_pos()) == Err::<
                    (i32, int),
                    _,
                >(e) && final(self).spec_pos() == old(self).spec_pos(),
            },
    {
        match self.read_u32() {
            Ok(v) => Ok(v as i32),
            Err(e) => Err(e),
        }
    }

    pub fn read_i64(&mut self) -> (r: Result<i64, DecodeError>)
        requires
            old(self).wf(),
        ensures
            final(self).wf(),
            final(self).bytes() == old(self).bytes(),
            match r {
                Ok(v) => parse_i64(old(self).bytes(), old(self).spec_pos()) == Ok::<
                    _,
                    DecodeError,
                >((v, final(self).spec_pos())),
                Err(e) => parse_i64(old(self).bytes(), old(self).spec_pos()) == Err::<
                    (i64, int),
                    _,
                >(e) && final(self).spec_pos() == old(self).spec_pos(),
            },
    {
        match self.read_u64() {
            Ok(v) => Ok(v as i64),
            Err(e) => Err(e),
        }
    }

    pub fn read_bool(&mut self) -> (r: Result<bool, DecodeError>)
        requires
            old(self).wf(),
        ensures
            final(self).wf(),
            final(self).bytes() == old(self).bytes(),
            match r {
                Ok(v) => parse_bool(old(self).bytes(), old(self).spec_pos()) == Ok::<
                    _,
                    DecodeError,
                >((v, final(self).spec_pos())),
                Err(e) => parse_bool(old(self).bytes(), old(self).spec_pos()) == Err::<
                    (bool, int),
                    _,
                >(e) && final(self).spec_pos() == old(self).spec_pos(),
            },
    {
        match self.read_u8() {
            Ok(v) => Ok(v != 0),
            Err(e) => Err(e),
        }
    }

    /// Reads exactly `n` raw bytes.
    pub fn read_exact(&mut self, n: usize) -> (r: Result<Vec<u8>, DecodeError>)
        requires
            old(self).wf(),
        ensures
            final(self).wf(),
            final(self).bytes() == old(self).bytes(),
            match r {
                Ok(v) => parse_bytes(old(self).bytes(), old(self).spec_pos(), n as int) == Ok::<
                    _,
                    DecodeError,
                >((v@, final(self).spec_pos())),
                Err(e) => parse_bytes(old(self).bytes(), old(self).spec_pos(), n as int) == Err::<
                    (Seq<u8>, int),
                    _,
                >(e) && final(self).spec_pos() == old(self).spec_pos(),
            },
    {
        if n <= self.data.len() - self.pos {
            let start: usize = self.pos;
            let end: usize = self.pos + n;
            let mut out: Vec<u8> = Vec::new();
            let mut k: usize = start;
            while k < end
                invariant
                    start <= k <= end,
                    end <= self.data@.len(),
                    out@ == self.data@.subrange(start as int, k as int),
                decreases end - k,
            {
                out.push(self.data[k]);
                proof {
                    assert(out@ =~= self.data@.subrange(start as int, k + 1));
                }
                k = k + 1;
            }
            self.pos = end;
            Ok(out)
        } else {
            Err(DecodeError::ShortInput)
        }
    }
}

// ---------------------------------------------------------------------------
// Encoding. Each writer appends the bytes its spec function describes.
// ---------------------------------------------------------------------------

pub fn write_u8(out: &mut Vec<u8>, x: u8)
    ensures
        final(out)@ == old(out)@ + seq![x],
{
    out.push(x);
}

pub fn write_u16(out: &mut Vec<u8>, x: u16)
    ensures
        final(out)@ == old(out)@ + spec_be2(x),
{
    out.push((x / 0x100) as u8);
    out.push((x % 0x100) as u8);
    proof {
        assert(out@ =~= old(out)@ + spec_be2(x));
    }
}

pub fn write_u32(out: &mut Vec<u8>, x: u32)
    ensures
        final(out)@ == old(out)@ + spec_be4(x),
{
    out.push((x / 0x1000000) as u8);
    out.push(((x / 0x10000) % 0x100) as u8);
    out.push(((x / 0x100) % 0x100) as u8);
    out.push((x % 0x100) as u8);
    proof {
        assert(out@ =~= old(out)@ + spec_be4(x));
    }
}

pub fn write_u64(out: &mut Vec<u8>, x: u64)
    ensures
        final(out)@ == old(out)@ + spec_be8(x),
{
    out.push((x / 0x100000000000000) as u8);
    out.push(((x / 0x1000000000000) % 0x100) as u8);
    out.push(((x / 0x10000000000) % 0x100) as u8);
    out.push(((x / 0x100000000) % 0x100) as u8);
    out.push(((x / 0x1000000) % 0x100) as u8);
    out.push(((x / 0x10000) % 0x100) as u8);
    out.push(((x / 0x100) % 0x100) as u8);
    out.push((x % 0x100) as u8);
    proof {
        assert(out@ =~= old(out)@ + spec_be8(x));
    }
}

pub fn write_i32(out: &mut Vec<u8>, x: i32)
    ensures
        final(out)@ == old(out)@ + spec_be4(x as u32),
{
    write_u32(out, x as u32);
}

pub fn write_i64(out: &mut Vec<u8>, x: i64)
    ensures
        final(out)@ == old(out)@ + spec_be8(x as u64),
{
    write_u64(out, x as u64);
}

// ---------------------------------------------------------------------------
// Round trips: parsing the bytes a writer emitted gives the value back.
// ---------------------------------------------------------------------------

pub proof fn lemma_be2_round_trip(x: u16)
    ensures
        u16_of(spec_be2(x)[0], spec_be2(x)[1]) == x,
{
}

pub proof fn lemma_be4_round_trip(x: u32)
    ensures
        u32_of(spec_be4(x)[0], spec_be4(x)[1], spec_be4(x)[2], spec_be4(x)[3]) == x,
{
}

pub proof fn lemma_be8_round_trip(x: u64)
    ensures
        u64_of(
            spec_be8(x)[0],
            spec_be8(x)[1],
            spec_be8(x)[2],
            spec_be8(x)[3],
            spec_be8(x)[4],
            spec_be8(x)[5],
            spec_be8(x)[6],
            spec_be8(x)[7],
        ) == x,
{
    assert((((x / 0x100000000000000) as u8) as u64) * 0x100000000000000 + ((((x
        / 0x1000000000000) % 0x100) as u8) as u64) * 0x1000000000000 + ((((x / 0x10000000000)
        % 0x100) as u8) as u64) * 0x10000000000 + ((((x / 0x100000000) % 0x100) as u8) as u64)
        * 0x100000000 + ((((x / 0x1000000) % 0x100) as u8) as u64) * 0x1000000 + ((((x / 0x10000)
        % 0x100) as u8) as u64) * 0x10000 + ((((x / 0x100) % 0x100) as u8) as u64) * 0x100 + (((x
        % 0x100) as u8) as u64) == x) by (bit_vector);
}

// ---------------------------------------------------------------------------
// Parsing at a position inside a larger buffer. These turn "the bytes at `i`
// are the encoding of `x`" into "parsing at `i` yields `x`", which is the
// step every packet round-trip proof repeats.
// ---------------------------------------------------------------------------

pub proof fn lemma_parse_u16_at(s: Seq<u8>, i: int, x: u16)
    requires
        0 <= i,
        i + 2 <= s.len(),
        s.subrange(i, i + 2) == spec_be2(x),
    ensures
        parse_u16(s, i) == Ok::<_, DecodeError>((x, i + 2)),
{
    assert(s[i] == spec_be2(x)[0] && s[i + 1] == spec_be2(x)[1]);
    lemma_be2_round_trip(x);
}

pub proof fn lemma_parse_u32_at(s: Seq<u8>, i: int, x: u32)
    requires
        0 <= i,
        i + 4 <= s.len(),
        s.subrange(i, i + 4) == spec_be4(x),
    ensures
        parse_u32(s, i) == Ok::<_, DecodeError>((x, i + 4)),
{
    assert(s[i] == spec_be4(x)[0] && s[i + 1] == spec_be4(x)[1] && s[i + 2] == spec_be4(x)[2] && s[
        i + 3
    ] == spec_be4(x)[3]);
    lemma_be4_round_trip(x);
}

pub proof fn lemma_parse_u64_at(s: Seq<u8>, i: int, x: u64)
    requires
        0 <= i,
        i + 8 <= s.len(),
        s.subrange(i, i + 8) == spec_be8(x),
    ensures
        parse_u64(s, i) == Ok::<_, DecodeError>((x, i + 8)),
{
    assert forall|k: int| 0 <= k < 8 implies s[i + k] == spec_be8(x)[k] by {
        assert(s.subrange(i, i + 8)[k] == s[i + k]);
    }
    lemma_be8_round_trip(x);
}

pub proof fn lemma_parse_i8_at(s: Seq<u8>, i: int, x: i8)
    requires
        0 <= i,
        i + 1 <= s.len(),
        s[i] == x as u8,
    ensures
        parse_i8(s, i) == Ok::<_, DecodeError>((x, i + 1)),
{
    lemma_cast_i8_round_trip(x);
}

pub proof fn lemma_parse_i16_at(s: Seq<u8>, i: int, x: i16)
    requires
        0 <= i,
        i + 2 <= s.len(),
        s.subrange(i, i + 2) == spec_be2(x as u16),
    ensures
        parse_i16(s, i) == Ok::<_, DecodeError>((x, i + 2)),
{
    lemma_parse_u16_at(s, i, x as u16);
    lemma_cast_i16_round_trip(x);
}

pub proof fn lemma_parse_i32_at(s: Seq<u8>, i: int, x: i32)
    requires
        0 <= i,
        i + 4 <= s.len(),
        s.subrange(i, i + 4) == spec_be4(x as u32),
    ensures
        parse_i32(s, i) == Ok::<_, DecodeError>((x, i + 4)),
{
    lemma_parse_u32_at(s, i, x as u32);
    lemma_cast_i32_round_trip(x);
}

pub proof fn lemma_parse_i64_at(s: Seq<u8>, i: int, x: i64)
    requires
        0 <= i,
        i + 8 <= s.len(),
        s.subrange(i, i + 8) == spec_be8(x as u64),
    ensures
        parse_i64(s, i) == Ok::<_, DecodeError>((x, i + 8)),
{
    lemma_parse_u64_at(s, i, x as u64);
    lemma_cast_i64_round_trip(x);
}

/// Casting an unsigned value to signed and back is the identity, and so is
/// the signed-to-unsigned-to-signed direction used when a signed field is
/// written as its raw bytes.
pub proof fn lemma_cast_i16_round_trip(x: i16)
    ensures
        (x as u16) as i16 == x,
{
    assert((x as u16) as i16 == x) by (bit_vector);
}

pub proof fn lemma_cast_i32_round_trip(x: i32)
    ensures
        (x as u32) as i32 == x,
{
    assert((x as u32) as i32 == x) by (bit_vector);
}

pub proof fn lemma_cast_i64_round_trip(x: i64)
    ensures
        (x as u64) as i64 == x,
{
    assert((x as u64) as i64 == x) by (bit_vector);
}

pub proof fn lemma_cast_i8_round_trip(x: i8)
    ensures
        (x as u8) as i8 == x,
{
    assert((x as u8) as i8 == x) by (bit_vector);
}

} // verus!
