//! The 3-byte RGB color value and its fallible textual parser.
//!
//! A color travels on the wire as exactly three bytes `r g b`, with no
//! length prefix. The textual form accepted by [`Color3B::parse`] is three
//! comma-separated decimal channels, each a nonempty run of digits whose
//! value fits a byte (`"255,0,128"`). Any other shape fails with a typed
//! error and never yields a partial or clamped value.

use vstd::prelude::*;
use vstd::string::StringSliceAdditionalSpecFns;

use crate::codec::{Codec, DecodeError};

verus! {

/// Why a textual color failed to parse: a channel that is not a nonempty
/// run of digits, a channel value above 255, or a channel count other
/// than three.
#[derive(Clone, Copy, Debug, PartialEq, Eq, Structural)]
pub enum ColorParseError {
    Malformed,
    OutOfRange,
    WrongComponentCount,
}

/// An RGB color of three raw byte channels.
#[derive(Clone, Copy, Debug, PartialEq, Eq, Structural)]
pub struct Color3B {
    pub r: u8,
    pub g: u8,
    pub b: u8,
}

impl Default for Color3B {
    /// The default color is opaque white.
    fn default() -> (c: Self)
        ensures
            c == (Color3B { r: 255, g: 255, b: 255 }),
    {
        Color3B { r: 255, g: 255, b: 255 }
    }
}

// ---------------------------------------------------------------------------
// The textual grammar, as mathematics.
// ---------------------------------------------------------------------------

/// ASCII decimal digit.
pub open spec fn is_digit(b: u8) -> bool {
    48 <= b && b <= 57
}

pub open spec fn all_digits(s: Seq<u8>) -> bool {
    forall|i: int| 0 <= i < s.len() ==> is_digit(#[trigger] s[i])
}

/// The decimal value of a digit run.
pub open spec fn digits_val(s: Seq<u8>) -> int
    decreases s.len(),
{
    if s.len() == 0 {
        0
    } else {
        digits_val(s.drop_last()) * 10 + (s.last() - 48)
    }
}

/// What one comma-separated channel yields: its byte value, or the error
/// that rejects it.
pub open spec fn channel_result(p: Seq<u8>) -> Result<u8, ColorParseError> {
    if p.len() == 0 || !all_digits(p) {
        Err(ColorParseError::Malformed)
    } else if digits_val(p) > 255 {
        Err(ColorParseError::OutOfRange)
    } else {
        Ok(digits_val(p) as u8)
    }
}

/// The input split at every comma; always at least one part, empty parts
/// kept, so `","` has two parts and `""` one.
pub open spec fn split_commas(s: Seq<u8>) -> Seq<Seq<u8>>
    decreases s.len(),
{
    if s.len() == 0 {
        seq![Seq::<u8>::empty()]
    } else {
        let rest = split_commas(s.drop_first());
        if s[0] == 44 {
            seq![Seq::<u8>::empty()] + rest
        } else {
            seq![seq![s[0]] + rest[0]] + rest.subrange(1, rest.len() as int)
        }
    }
}

/// What parsing a textual color yields: the three channel values in order,
/// or the first channel's error, after the component count is checked.
pub open spec fn spec_parse_color(s: Seq<u8>) -> Result<Color3B, ColorParseError> {
    let parts = split_commas(s);
    if parts.len() != 3 {
        Err(ColorParseError::WrongComponentCount)
    } else {
        match (channel_result(parts[0]), channel_result(parts[1]), channel_result(parts[2])) {
            (Ok(r), Ok(g), Ok(b)) => Ok(Color3B { r, g, b }),
            (Err(e), _, _) => Err(e),
            (_, Err(e), _) => Err(e),
            (_, _, Err(e)) => Err(e),
        }
    }
}

// ---------------------------------------------------------------------------
// Lemmas about the grammar.
// ---------------------------------------------------------------------------

pub proof fn lemma_split_len(s: Seq<u8>)
    ensures
        split_commas(s).len() >= 1,
    decreases s.len(),
{
    if s.len() != 0 {
        lemma_split_len(s.drop_first());
    }
}

proof fn lemma_all_digits_take(s: Seq<u8>, k: int)
    requires
        all_digits(s),
        0 <= k <= s.len(),
    ensures
        all_digits(s.take(k)),
{
    assert forall|i: int| 0 <= i < s.take(k).len() implies is_digit(#[trigger] s.take(k)[i]) by {
        assert(s.take(k)[i] == s[i]);
    }
}

proof fn lemma_digits_val_nonneg(s: Seq<u8>)
    requires
        all_digits(s),
    ensures
        digits_val(s) >= 0,
    decreases s.len(),
{
    if s.len() > 0 {
        assert forall|i: int| 0 <= i < s.drop_last().len() implies is_digit(
            #[trigger] s.drop_last()[i],
        ) by {
            assert(s.drop_last()[i] == s[i]);
        }
        lemma_digits_val_nonneg(s.drop_last());
        assert(is_digit(s.last()));
    }
}

/// The value of a digit run never shrinks as the run grows to the right.
proof fn lemma_digits_val_take_le(s: Seq<u8>, k: int)
    requires
        all_digits(s),
        0 <= k <= s.len(),
    ensures
        digits_val(s.take(k)) <= digits_val(s),
    decreases s.len() - k,
{
    if k == s.len() {
        assert(s.take(k) =~= s);
    } else {
        assert(s.take(k + 1).drop_last() =~= s.take(k));
        assert(s.take(k + 1).last() == s[k]);
        assert(is_digit(s[k]));
        lemma_all_digits_take(s, k);
        lemma_digits_val_nonneg(s.take(k));
        lemma_digits_val_take_le(s, k + 1);
    }
}

// ---------------------------------------------------------------------------
// The executable parser.
// ---------------------------------------------------------------------------

/// Parses one channel: a nonempty digit run whose value fits a byte.
fn parse_channel(p: &Vec<u8>) -> (r: Result<u8, ColorParseError>)
    ensures
        r == channel_result(p@),
{
    let n: usize = p.len();
    if n == 0 {
        return Err(ColorParseError::Malformed);
    }
    for i in 0..n
        invariant
            n == p@.len(),
            forall|j: int| 0 <= j < i ==> is_digit(#[trigger] p@[j]),
    {
        let b = p[i];
        if b < 48 || b > 57 {
            assert(!is_digit(p@[i as int]));
            return Err(ColorParseError::Malformed);
        }
    }
    assert(all_digits(p@));
    let mut acc: u32 = 0;
    for i in 0..n
        invariant
            n == p@.len(),
            all_digits(p@),
            acc == digits_val(p@.take(i as int)),
            acc <= 255,
    {
        assert(is_digit(p@[i as int]));
        let d = p[i] - 48;
        acc = acc * 10 + (d as u32);
        proof {
            assert(p@.take(i as int + 1).drop_last() =~= p@.take(i as int));
            assert(p@.take(i as int + 1).last() == p@[i as int]);
        }
        if acc > 255 {
            proof {
                lemma_digits_val_take_le(p@, i as int + 1);
            }
            return Err(ColorParseError::OutOfRange);
        }
    }
    assert(p@.take(n as int) =~= p@);
    Ok(acc as u8)
}

/// Splits the bytes of `b` from index `i` on at every comma, mirroring
/// `split_commas` of the remaining suffix.
fn split_from(b: &[u8], i: usize) -> (parts: Vec<Vec<u8>>)
    requires
        i <= b@.len(),
    ensures
        parts@.map_values(|p: Vec<u8>| p@) == split_commas(b@.skip(i as int)),
        parts@.len() >= 1,
    decreases b@.len() - i,
{
    let n: usize = b.len();
    if i == n {
        let mut parts: Vec<Vec<u8>> = Vec::new();
        parts.push(Vec::new());
        assert(b@.skip(i as int) =~= Seq::<u8>::empty());
        assert(parts@.map_values(|p: Vec<u8>| p@) =~= split_commas(b@.skip(i as int)));
        parts
    } else {
        let mut rest = split_from(b, i + 1);
        proof {
            assert(b@.skip(i as int).drop_first() =~= b@.skip(i as int + 1));
            lemma_split_len(b@.skip(i as int + 1));
            assert(b@.skip(i as int)[0] == b@[i as int]);
        }
        let ghost srest = split_commas(b@.skip(i as int + 1));
        if b[i] == 44 {
            rest.insert(0, Vec::new());
            assert(rest@.map_values(|p: Vec<u8>| p@) =~= seq![Seq::<u8>::empty()] + srest);
            rest
        } else {
            let mut first = rest.remove(0);
            first.insert(0, b[i]);
            assert(first@ =~= seq![b@[i as int]] + srest[0]);
            rest.insert(0, first);
            assert(rest@.map_values(|p: Vec<u8>| p@) =~= seq![seq![b@[i as int]] + srest[0]]
                + srest.subrange(1, srest.len() as int));
            rest
        }
    }
}

impl Color3B {
    /// Parses a textual color descriptor: exactly three comma-separated
    /// decimal byte channels. The result is pinned, success and error
    /// alike, by `spec_parse_color` over the text's bytes.
    pub fn parse(s: &str) -> (r: Result<Color3B, ColorParseError>)
        ensures
            r == spec_parse_color(s.spec_bytes()),
    {
        let b = s.as_bytes();
        let parts = split_from(b, 0);
        proof {
            assert(b@.skip(0) =~= b@);
        }
        if parts.len() != 3 {
            return Err(ColorParseError::WrongComponentCount);
        }
        assert(parts@.map_values(|p: Vec<u8>| p@)[0] == parts@[0]@);
        assert(parts@.map_values(|p: Vec<u8>| p@)[1] == parts@[1]@);
        assert(parts@.map_values(|p: Vec<u8>| p@)[2] == parts@[2]@);
        let r0 = parse_channel(&parts[0]);
        let r1 = parse_channel(&parts[1]);
        let r2 = parse_channel(&parts[2]);
        match (r0, r1, r2) {
            (Ok(r), Ok(g), Ok(b)) => Ok(Color3B { r, g, b }),
            (Err(e), _, _) => Err(e),
            (_, Err(e), _) => Err(e),
            (_, _, Err(e)) => Err(e),
        }
    }
}

// ---------------------------------------------------------------------------
// The wire form: three raw bytes.
// ---------------------------------------------------------------------------

impl Codec for Color3B {
    type Model = Color3B;

    open spec fn model(&self) -> Color3B {
        *self
    }

    open spec fn wf(&self) -> bool {
        true
    }

    open spec fn encoding(&self) -> Seq<u8> {
        seq![self.r, self.g, self.b]
    }

    open spec fn spec_decode(data: Seq<u8>, pos: int) -> Result<(Color3B, int), DecodeError> {
        if pos + 3 <= data.len() {
            Ok((Color3B { r: data[pos], g: data[pos + 1], b: data[pos + 2] }, pos + 3))
        } else {
            Err(DecodeError::NotEnoughData)
        }
    }

    fn encode(&self, buf: &mut Vec<u8>) {
        buf.push(self.r);
        buf.push(self.g);
        buf.push(self.b);
        assert(buf@ =~= old(buf)@ + self.encoding());
    }

    fn known_size(&self) -> (n: usize) {
        3
    }

    fn decode(data: &Vec<u8>, pos: usize) -> (r: Result<(Self, usize), DecodeError>) {
        let n: usize = data.len();
        if n - pos >= 3 {
            Ok((Color3B { r: data[pos], g: data[pos + 1], b: data[pos + 2] }, pos + 3))
        } else {
            Err(DecodeError::NotEnoughData)
        }
    }

    proof fn lemma_decode_encoding(&self, data: Seq<u8>, pos: int) {
        assert(data[pos] == data.subrange(pos, pos + 3)[0]);
        assert(data[pos + 1] == data.subrange(pos, pos + 3)[1]);
        assert(data[pos + 2] == data.subrange(pos, pos + 3)[2]);
    }
}

} // verus!
