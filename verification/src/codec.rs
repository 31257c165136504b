//! Primitive codec: fixed-width scalar encoding, the `Codec` interface that
//! every record implements, and the arithmetic lemmas the encoders rest on.
//!
//! Scalars are laid out big-endian with no padding. A signed value travels
//! as its two's-complement unsigned representative.

use vstd::prelude::*;

verus! {

/// Why a decode failed: the buffer ended before the field did, or a
/// length-prefixed string claimed more bytes than the declared maximum.
#[derive(Clone, Copy, Debug, PartialEq, Eq, Structural)]
pub enum DecodeError {
    NotEnoughData,
    StringTooLong,
}

// ---------------------------------------------------------------------------
// Byte-level models of the fixed-width scalars.
// ---------------------------------------------------------------------------

pub open spec fn u16_hi(x: u16) -> u8 {
    (x / 256) as u8
}

pub open spec fn u16_lo(x: u16) -> u8 {
    (x % 256) as u8
}

/// The value written big-endian as the two bytes `b0 b1`.
pub open spec fn u16_val(b0: u8, b1: u8) -> u16 {
    (b0 * 256 + b1) as u16
}

pub open spec fn u16_enc(x: u16) -> Seq<u8> {
    seq![u16_hi(x), u16_lo(x)]
}

pub open spec fn u16_at(data: Seq<u8>, pos: int) -> u16 {
    u16_val(data[pos], data[pos + 1])
}

pub open spec fn u32_hi(x: u32) -> u16 {
    (x / 65536) as u16
}

pub open spec fn u32_lo(x: u32) -> u16 {
    (x % 65536) as u16
}

pub open spec fn u32_val(hi: u16, lo: u16) -> u32 {
    (hi * 65536 + lo) as u32
}

pub open spec fn u32_enc(x: u32) -> Seq<u8> {
    u16_enc(u32_hi(x)) + u16_enc(u32_lo(x))
}

pub open spec fn u32_at(data: Seq<u8>, pos: int) -> u32 {
    u32_val(u16_at(data, pos), u16_at(data, pos + 2))
}

/// Two's-complement representative of an `i16` in a `u16`.
pub open spec fn i16_rep(x: i16) -> u16 {
    if x >= 0 {
        x as u16
    } else {
        (x + 65536) as u16
    }
}

pub open spec fn i16_from_rep(x: u16) -> i16 {
    if x < 32768 {
        x as i16
    } else {
        (x - 65536) as i16
    }
}

pub open spec fn i16_enc(x: i16) -> Seq<u8> {
    u16_enc(i16_rep(x))
}

pub open spec fn i16_at(data: Seq<u8>, pos: int) -> i16 {
    i16_from_rep(u16_at(data, pos))
}

/// Two's-complement representative of an `i32` in a `u32`.
pub open spec fn i32_rep(x: i32) -> u32 {
    if x >= 0 {
        x as u32
    } else {
        (x + 4294967296) as u32
    }
}

pub open spec fn i32_from_rep(x: u32) -> i32 {
    if x < 2147483648 {
        x as i32
    } else {
        (x - 4294967296) as i32
    }
}

pub open spec fn i32_enc(x: i32) -> Seq<u8> {
    u32_enc(i32_rep(x))
}

pub open spec fn i32_at(data: Seq<u8>, pos: int) -> i32 {
    i32_from_rep(u32_at(data, pos))
}

// ---------------------------------------------------------------------------
// Division lemmas behind the byte splits.
// ---------------------------------------------------------------------------

proof fn lemma_div_lt(x: int, a: int, b: int)
    by (nonlinear_arith)
    requires
        0 <= x,
        x < a * b,
        0 < a,
        0 < b,
    ensures
        x / a < b,
{
}

proof fn lemma_div_mod(x: int, a: int)
    by (nonlinear_arith)
    requires
        0 <= x,
        0 < a,
    ensures
        x / a * a + x % a == x,
        0 <= x % a < a,
        0 <= x / a,
{
}

pub proof fn lemma_u16_round(x: u16)
    ensures
        u16_val(u16_hi(x), u16_lo(x)) == x,
{
    lemma_div_mod(x as int, 256);
    lemma_div_lt(x as int, 256, 256);
}

pub proof fn lemma_u32_round(x: u32)
    ensures
        u32_val(u32_hi(x), u32_lo(x)) == x,
{
    lemma_div_mod(x as int, 65536);
    lemma_div_lt(x as int, 65536, 65536);
}

pub proof fn lemma_i16_round(x: i16)
    ensures
        i16_from_rep(i16_rep(x)) == x,
{
}

pub proof fn lemma_i32_round(x: i32)
    ensures
        i32_from_rep(i32_rep(x)) == x,
{
}

// ---------------------------------------------------------------------------
// The codec interface.
// ---------------------------------------------------------------------------

/// The encode/decode contract every record of the protocol implements.
///
/// `encoding` is the record's exact byte image; `encode` appends it to a
/// buffer, `known_size` predicts its length without encoding, and `decode`
/// reads a value back starting at `pos`, agreeing with the mathematical
/// `spec_decode` in both its successes and its errors.
///
/// `Model` is the mathematical value of a record: the record itself for
/// plain aggregates of scalars, a byte sequence for the bounded string,
/// and a ghost mirror for records that embed one.
pub trait Codec: Sized {
    type Model;

    /// The mathematical value this record carries.
    spec fn model(&self) -> Self::Model;

    /// Well-formedness demanded before encoding (bounded strings fit the
    /// declared maximum).
    spec fn wf(&self) -> bool;

    /// The exact bytes an encode of this record produces.
    spec fn encoding(&self) -> Seq<u8>;

    /// What decoding from `data` at `pos` yields: the decoded model and the
    /// position one past the field, or the exact error.
    spec fn spec_decode(data: Seq<u8>, pos: int) -> Result<(Self::Model, int), DecodeError>;

    /// Appends this record's encoding to `buf`, changing nothing else.
    fn encode(&self, buf: &mut Vec<u8>)
        requires
            self.wf(),
        ensures
            final(buf)@ == old(buf)@ + self.encoding(),
    ;

    /// The exact number of bytes `encode` will append.
    fn known_size(&self) -> (n: usize)
        requires
            self.wf(),
        ensures
            n == self.encoding().len(),
    ;

    /// Reads one value of this type from `data` starting at `pos`,
    /// returning the value and the position one past it. All-or-nothing:
    /// agrees exactly with `spec_decode`, error for error.
    fn decode(data: &Vec<u8>, pos: usize) -> (r: Result<(Self, usize), DecodeError>)
        requires
            pos <= data@.len(),
        ensures
            (match Self::spec_decode(data@, pos as int) {
                Ok((m, end)) => r matches Ok(p) && p.0.model() == m && p.0.wf()
                    && p.1 == end && pos <= end <= data@.len(),
                Err(e) => r matches Err(e2) && e2 == e,
            }),
    ;

    /// Round trip: wherever a buffer holds this record's encoding, decoding
    /// there yields exactly this record's model and consumes exactly the
    /// encoding's bytes.
    proof fn lemma_decode_encoding(&self, data: Seq<u8>, pos: int)
        requires
            self.wf(),
            0 <= pos,
            pos + self.encoding().len() <= data.len(),
            data.subrange(pos, pos + self.encoding().len() as int) == self.encoding(),
        ensures
            Self::spec_decode(data, pos)
                == Ok::<(Self::Model, int), DecodeError>((self.model(), pos + self.encoding().len())),
    ;
}

/// Round trip: a buffer that is exactly the encoding of a well-formed
/// record decodes back to that record's mathematical value, consuming the
/// whole buffer. Holds for every record type of the protocol.
pub proof fn lemma_round_trip<T: Codec>(v: T, data: Seq<u8>)
    requires
        v.wf(),
        data == v.encoding(),
    ensures
        T::spec_decode(data, 0) == Ok::<(T::Model, int), DecodeError>(
            (v.model(), data.len() as int),
        ),
{
    assert(data.subrange(0, v.encoding().len() as int) =~= v.encoding());
    v.lemma_decode_encoding(data, 0);
}

/// A window into a buffer equal to a known byte image gives each of its
/// chunks: the bytes at offset `off` of the window equal the same chunk of
/// the image.
pub proof fn lemma_subrange_chunk(data: Seq<u8>, pos: int, e: Seq<u8>, off: int, m: int)
    requires
        0 <= pos,
        pos + e.len() <= data.len(),
        data.subrange(pos, pos + e.len() as int) == e,
        0 <= off,
        0 <= m,
        off + m <= e.len(),
    ensures
        data.subrange(pos + off, pos + off + m) == e.subrange(off, off + m),
{
    assert forall|j: int| 0 <= j < m implies #[trigger] (data.subrange(pos + off, pos + off + m)[j])
        == e.subrange(off, off + m)[j] by {
        assert(data.subrange(pos, pos + e.len() as int)[off + j] == e[off + j]);
    }
    assert(data.subrange(pos + off, pos + off + m) =~= e.subrange(off, off + m));
}

// ---------------------------------------------------------------------------
// Exec helpers shared by the scalar impls.
// ---------------------------------------------------------------------------

pub(crate) fn write_u16(x: u16, buf: &mut Vec<u8>)
    ensures
        final(buf)@ == old(buf)@ + u16_enc(x),
{
    proof {
        lemma_div_mod(x as int, 256);
        lemma_div_lt(x as int, 256, 256);
    }
    buf.push((x / 256) as u8);
    buf.push((x % 256) as u8);
    assert(buf@ =~= old(buf)@ + u16_enc(x));
}

pub(crate) fn read_u16(data: &Vec<u8>, pos: usize) -> (x: u16)
    requires
        pos + 2 <= data@.len(),
    ensures
        x == u16_at(data@, pos as int),
{
    // data@.len() fits a usize, so pos + 1 below cannot overflow
    let _n: usize = data.len();
    let b0 = data[pos];
    let b1 = data[pos + 1];
    (b0 as u16) * 256 + (b1 as u16)
}

pub(crate) fn write_u32(x: u32, buf: &mut Vec<u8>)
    ensures
        final(buf)@ == old(buf)@ + u32_enc(x),
{
    proof {
        lemma_div_mod(x as int, 65536);
        lemma_div_lt(x as int, 65536, 65536);
    }
    write_u16((x / 65536) as u16, buf);
    write_u16((x % 65536) as u16, buf);
    assert(buf@ =~= old(buf)@ + u32_enc(x));
}

pub(crate) fn read_u32(data: &Vec<u8>, pos: usize) -> (x: u32)
    requires
        pos + 4 <= data@.len(),
    ensures
        x == u32_at(data@, pos as int),
{
    // data@.len() fits a usize, so pos + 2 below cannot overflow
    let _n: usize = data.len();
    let hi = read_u16(data, pos);
    let lo = read_u16(data, pos + 2);
    (hi as u32) * 65536 + (lo as u32)
}

pub(crate) fn write_i16(x: i16, buf: &mut Vec<u8>)
    ensures
        final(buf)@ == old(buf)@ + i16_enc(x),
{
    let rep: u16 = if x >= 0 {
        x as u16
    } else {
        ((x as i32) + 65536) as u16
    };
    write_u16(rep, buf);
}

pub(crate) fn read_i16(data: &Vec<u8>, pos: usize) -> (x: i16)
    requires
        pos + 2 <= data@.len(),
    ensures
        x == i16_at(data@, pos as int),
{
    let rep = read_u16(data, pos);
    if rep < 32768 {
        rep as i16
    } else {
        ((rep as i32) - 65536) as i16
    }
}

pub(crate) fn write_i32(x: i32, buf: &mut Vec<u8>)
    ensures
        final(buf)@ == old(buf)@ + i32_enc(x),
{
    let rep: u32 = if x >= 0 {
        x as u32
    } else {
        ((x as i64) + 4294967296) as u32
    };
    write_u32(rep, buf);
}

pub(crate) fn read_i32(data: &Vec<u8>, pos: usize) -> (x: i32)
    requires
        pos + 4 <= data@.len(),
    ensures
        x == i32_at(data@, pos as int),
{
    let rep = read_u32(data, pos);
    if rep < 2147483648 {
        rep as i32
    } else {
        ((rep as i64) - 4294967296) as i32
    }
}

// ---------------------------------------------------------------------------
// Scalar impls of the codec.
// ---------------------------------------------------------------------------

impl Codec for u8 {
    type Model = u8;

    open spec fn model(&self) -> u8 {
        *self
    }

    open spec fn wf(&self) -> bool {
        true
    }

    open spec fn encoding(&self) -> Seq<u8> {
        seq![*self]
    }

    open spec fn spec_decode(data: Seq<u8>, pos: int) -> Result<(u8, int), DecodeError> {
        if pos + 1 <= data.len() {
            Ok((data[pos], pos + 1))
        } else {
            Err(DecodeError::NotEnoughData)
        }
    }

    fn encode(&self, buf: &mut Vec<u8>) {
        buf.push(*self);
        assert(buf@ =~= old(buf)@ + self.encoding());
    }

    fn known_size(&self) -> (n: usize) {
        1
    }

    fn decode(data: &Vec<u8>, pos: usize) -> (r: Result<(Self, usize), DecodeError>) {
        if data.len() - pos >= 1 {
            Ok((data[pos], pos + 1))
        } else {
            Err(DecodeError::NotEnoughData)
        }
    }

    proof fn lemma_decode_encoding(&self, data: Seq<u8>, pos: int) {
        assert(data[pos] == data.subrange(pos, pos + 1)[0]);
    }
}

impl Codec for u16 {
    type Model = u16;

    open spec fn model(&self) -> u16 {
        *self
    }

    open spec fn wf(&self) -> bool {
        true
    }

    open spec fn encoding(&self) -> Seq<u8> {
        u16_enc(*self)
    }

    open spec fn spec_decode(data: Seq<u8>, pos: int) -> Result<(u16, int), DecodeError> {
        if pos + 2 <= data.len() {
            Ok((u16_at(data, pos), pos + 2))
        } else {
            Err(DecodeError::NotEnoughData)
        }
    }

    fn encode(&self, buf: &mut Vec<u8>) {
        write_u16(*self, buf);
    }

    fn known_size(&self) -> (n: usize) {
        2
    }

    fn decode(data: &Vec<u8>, pos: usize) -> (r: Result<(Self, usize), DecodeError>) {
        if data.len() - pos >= 2 {
            Ok((read_u16(data, pos), pos + 2))
        } else {
            Err(DecodeError::NotEnoughData)
        }
    }

    proof fn lemma_decode_encoding(&self, data: Seq<u8>, pos: int) {
        assert(data[pos] == data.subrange(pos, pos + 2)[0]);
        assert(data[pos + 1] == data.subrange(pos, pos + 2)[1]);
        lemma_u16_round(*self);
    }
}

impl Codec for u32 {
    type Model = u32;

    open spec fn model(&self) -> u32 {
        *self
    }

    open spec fn wf(&self) -> bool {
        true
    }

    open spec fn encoding(&self) -> Seq<u8> {
        u32_enc(*self)
    }

    open spec fn spec_decode(data: Seq<u8>, pos: int) -> Result<(u32, int), DecodeError> {
        if pos + 4 <= data.len() {
            Ok((u32_at(data, pos), pos + 4))
        } else {
            Err(DecodeError::NotEnoughData)
        }
    }

    fn encode(&self, buf: &mut Vec<u8>) {
        write_u32(*self, buf);
    }

    fn known_size(&self) -> (n: usize) {
        4
    }

    fn decode(data: &Vec<u8>, pos: usize) -> (r: Result<(Self, usize), DecodeError>) {
        if data.len() - pos >= 4 {
            Ok((read_u32(data, pos), pos + 4))
        } else {
            Err(DecodeError::NotEnoughData)
        }
    }

    proof fn lemma_decode_encoding(&self, data: Seq<u8>, pos: int) {
        assert(data[pos] == data.subrange(pos, pos + 4)[0]);
        assert(data[pos + 1] == data.subrange(pos, pos + 4)[1]);
        assert(data[pos + 2] == data.subrange(pos, pos + 4)[2]);
        assert(data[pos + 3] == data.subrange(pos, pos + 4)[3]);
        lemma_u16_round(u32_hi(*self));
        lemma_u16_round(u32_lo(*self));
        lemma_u32_round(*self);
    }
}

impl Codec for i16 {
    type Model = i16;

    open spec fn model(&self) -> i16 {
        *self
    }

    open spec fn wf(&self) -> bool {
        true
    }

    open spec fn encoding(&self) -> Seq<u8> {
        i16_enc(*self)
    }

    open spec fn spec_decode(data: Seq<u8>, pos: int) -> Result<(i16, int), DecodeError> {
        if pos + 2 <= data.len() {
            Ok((i16_at(data, pos), pos + 2))
        } else {
            Err(DecodeError::NotEnoughData)
        }
    }

    fn encode(&self, buf: &mut Vec<u8>) {
        write_i16(*self, buf);
    }

    fn known_size(&self) -> (n: usize) {
        2
    }

    fn decode(data: &Vec<u8>, pos: usize) -> (r: Result<(Self, usize), DecodeError>) {
        if data.len() - pos >= 2 {
            Ok((read_i16(data, pos), pos + 2))
        } else {
            Err(DecodeError::NotEnoughData)
        }
    }

    proof fn lemma_decode_encoding(&self, data: Seq<u8>, pos: int) {
        assert(data[pos] == data.subrange(pos, pos + 2)[0]);
        assert(data[pos + 1] == data.subrange(pos, pos + 2)[1]);
        lemma_u16_round(i16_rep(*self));
        lemma_i16_round(*self);
    }
}

impl Codec for i32 {
    type Model = i32;

    open spec fn model(&self) -> i32 {
        *self
    }

    open spec fn wf(&self) -> bool {
        true
    }

    open spec fn encoding(&self) -> Seq<u8> {
        i32_enc(*self)
    }

    open spec fn spec_decode(data: Seq<u8>, pos: int) -> Result<(i32, int), DecodeError> {
        if pos + 4 <= data.len() {
            Ok((i32_at(data, pos), pos + 4))
        } else {
            Err(DecodeError::NotEnoughData)
        }
    }

    fn encode(&self, buf: &mut Vec<u8>) {
        write_i32(*self, buf);
    }

    fn known_size(&self) -> (n: usize) {
        4
    }

    fn decode(data: &Vec<u8>, pos: usize) -> (r: Result<(Self, usize), DecodeError>) {
        if data.len() - pos >= 4 {
            Ok((read_i32(data, pos), pos + 4))
        } else {
            Err(DecodeError::NotEnoughData)
        }
    }

    proof fn lemma_decode_encoding(&self, data: Seq<u8>, pos: int) {
        assert(data[pos] == data.subrange(pos, pos + 4)[0]);
        assert(data[pos + 1] == data.subrange(pos, pos + 4)[1]);
        assert(data[pos + 2] == data.subrange(pos, pos + 4)[2]);
        assert(data[pos + 3] == data.subrange(pos, pos + 4)[3]);
        lemma_u16_round(u32_hi(i32_rep(*self)));
        lemma_u16_round(u32_lo(i32_rep(*self)));
        lemma_u32_round(i32_rep(*self));
        lemma_i32_round(*self);
    }
}

} // verus!
