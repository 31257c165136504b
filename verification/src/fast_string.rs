//! The length-bounded string carried by every display-name field.
//!
//! On the wire a `FastString` is a 4-byte length prefix followed by that
//! many raw bytes. The length must not exceed [`MAX_NAME_SIZE`]: encoding
//! demands it up front (`wf`), and decoding rejects a longer prefix with
//! [`DecodeError::StringTooLong`] rather than truncating.

use vstd::prelude::*;

use crate::codec::{Codec, DecodeError};
use crate::codec::{read_u32, write_u32, u32_enc, u32_at};

verus! {

/// Greatest byte length a display name may have, shared by every name field.
pub const MAX_NAME_SIZE: usize = 32;

/// A byte string whose length is bounded by [`MAX_NAME_SIZE`] when it
/// travels on the wire. Its mathematical value is the byte sequence it
/// holds, reached through `@`.
#[derive(Debug, PartialEq, Eq)]
pub struct FastString {
    buf: Vec<u8>,
}

impl View for FastString {
    type V = Seq<u8>;

    closed spec fn view(&self) -> Seq<u8> {
        self.buf@
    }
}

impl Clone for FastString {
    /// Cloning keeps the contents exactly.
    fn clone(&self) -> (r: Self)
        ensures
            r@ == self@,
    {
        FastString { buf: self.buf.clone() }
    }
}

impl Default for FastString {
    /// The default string is empty.
    fn default() -> (r: Self)
        ensures
            r@ == Seq::<u8>::empty(),
    {
        let r = FastString { buf: Vec::new() };
        proof {
            assert(r@ =~= Seq::<u8>::empty());
        }
        r
    }
}

impl FastString {
    /// Wraps `bytes` if they fit the declared maximum; rejects them
    /// unchanged otherwise.
    pub fn try_new(bytes: Vec<u8>) -> (r: Option<FastString>)
        ensures
            bytes@.len() <= MAX_NAME_SIZE ==> (r matches Some(f) && f@ == bytes@),
            bytes@.len() > MAX_NAME_SIZE ==> r is None,
    {
        if bytes.len() <= MAX_NAME_SIZE {
            Some(FastString { buf: bytes })
        } else {
            None
        }
    }

    /// Byte length of the contents.
    pub fn len(&self) -> (n: usize)
        ensures
            n == self@.len(),
    {
        self.buf.len()
    }

    /// The bytes themselves.
    pub fn as_bytes(&self) -> (r: &Vec<u8>)
        ensures
            r@ == self@,
    {
        &self.buf
    }
}

impl Codec for FastString {
    type Model = Seq<u8>;

    open spec fn model(&self) -> Seq<u8> {
        self@
    }

    open spec fn wf(&self) -> bool {
        self@.len() <= MAX_NAME_SIZE
    }

    open spec fn encoding(&self) -> Seq<u8> {
        u32_enc(self@.len() as u32) + self@
    }

    open spec fn spec_decode(data: Seq<u8>, pos: int) -> Result<(Seq<u8>, int), DecodeError> {
        if pos + 4 <= data.len() {
            let n = u32_at(data, pos) as int;
            if n > MAX_NAME_SIZE {
                Err(DecodeError::StringTooLong)
            } else if pos + 4 + n <= data.len() {
                Ok((data.subrange(pos + 4, pos + 4 + n), pos + 4 + n))
            } else {
                Err(DecodeError::NotEnoughData)
            }
        } else {
            Err(DecodeError::NotEnoughData)
        }
    }

    fn encode(&self, buf: &mut Vec<u8>) {
        write_u32(self.buf.len() as u32, buf);
        let ghost mid = buf@;
        let n = self.buf.len();
        for i in 0..n
            invariant
                n == self@.len(),
                buf@ == mid + self@.subrange(0, i as int),
        {
            buf.push(self.buf[i]);
            assert(buf@ =~= mid + self@.subrange(0, i as int + 1));
        }
        assert(self@.subrange(0, n as int) =~= self@);
        assert(buf@ =~= old(buf)@ + self.encoding());
    }

    fn known_size(&self) -> (n: usize) {
        4 + self.buf.len()
    }

    fn decode(data: &Vec<u8>, pos: usize) -> (r: Result<(Self, usize), DecodeError>) {
        let total: usize = data.len();
        if total - pos < 4 {
            return Err(DecodeError::NotEnoughData);
        }
        let n32 = read_u32(data, pos);
        if n32 > MAX_NAME_SIZE as u32 {
            return Err(DecodeError::StringTooLong);
        }
        let n = n32 as usize;
        let start = pos + 4;
        if total - start < n {
            return Err(DecodeError::NotEnoughData);
        }
        let mut bytes: Vec<u8> = Vec::new();
        for i in 0..n
            invariant
                total == data@.len(),
                start + n <= total,
                bytes@ == data@.subrange(start as int, start + i as int),
        {
            bytes.push(data[start + i]);
            assert(bytes@ =~= data@.subrange(start as int, start as int + i + 1));
        }
        let r = FastString { buf: bytes };
        Ok((r, start + n))
    }

    proof fn lemma_decode_encoding(&self, data: Seq<u8>, pos: int) {
        let n = self@.len() as int;
        let e = self.encoding();
        let s = data.subrange(pos, pos + e.len() as int);
        assert forall|k: int| 0 <= k < 4 implies #[trigger] (data.subrange(pos, pos + 4)[k])
            == u32_enc(self@.len() as u32)[k] by {
            assert(s[k] == e[k]);
        }
        assert(data.subrange(pos, pos + 4) =~= u32_enc(self@.len() as u32));
        (self@.len() as u32).lemma_decode_encoding(data, pos);
        assert(u32_at(data, pos) == self@.len() as u32);
        assert forall|j: int| 0 <= j < n implies data.subrange(pos + 4, pos + 4 + n)[j]
            == self@[j] by {
            assert(s[4 + j] == e[4 + j]);
        }
        assert(data.subrange(pos + 4, pos + 4 + n) =~= self@);
    }
}

/// Oversize rejection: a length prefix above [`MAX_NAME_SIZE`] never
/// decodes into a string; it fails with `StringTooLong` whatever bytes
/// follow.
pub proof fn lemma_oversize_prefix_rejected(data: Seq<u8>, pos: int)
    requires
        0 <= pos,
        pos + 4 <= data.len(),
        u32_at(data, pos) > MAX_NAME_SIZE,
    ensures
        FastString::spec_decode(data, pos) == Err::<(Seq<u8>, int), DecodeError>(
            DecodeError::StringTooLong,
        ),
{
}

} // verus!
