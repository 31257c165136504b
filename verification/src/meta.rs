//! Per-level player data, per-player metadata, and the associated
//! wrappers that key either payload by its owner's account identifier so a
//! broadcast payload is self-keyed.
//!
//! The wrappers perform no ownership validation: that the identifier
//! matches the payload's true owner is the producing collaborator's
//! responsibility.

use vstd::prelude::*;

use crate::codec::{Codec, DecodeError};
use crate::codec::{
    u16_enc, u16_at, i32_enc, i32_at, read_u16, read_i32, write_u16, write_i32, i32_rep,
    lemma_u16_round, lemma_u32_round, lemma_i32_round, u32_hi, u32_lo, lemma_subrange_chunk,
};

verus! {

// ---------------------------------------------------------------------------
// Per-level player data.
// ---------------------------------------------------------------------------

/// Per-level mutable player data: a reserved placeholder with no fields
/// yet, which still encodes and decodes as exactly zero bytes.
#[derive(Clone, Copy, Debug, PartialEq, Eq, Structural)]
pub struct PlayerData {}

impl Default for PlayerData {
    fn default() -> (r: Self)
        ensures
            r == (PlayerData {}),
    {
        PlayerData {}
    }
}

impl Codec for PlayerData {
    type Model = PlayerData;

    open spec fn model(&self) -> PlayerData {
        *self
    }

    open spec fn wf(&self) -> bool {
        true
    }

    open spec fn encoding(&self) -> Seq<u8> {
        Seq::<u8>::empty()
    }

    open spec fn spec_decode(data: Seq<u8>, pos: int) -> Result<(PlayerData, int), DecodeError> {
        Ok((PlayerData {}, pos))
    }

    fn encode(&self, buf: &mut Vec<u8>) {
        assert(buf@ =~= old(buf)@ + self.encoding());
    }

    fn known_size(&self) -> (n: usize) {
        0
    }

    fn decode(data: &Vec<u8>, pos: usize) -> (r: Result<(Self, usize), DecodeError>) {
        Ok((PlayerData {}, pos))
    }

    proof fn lemma_decode_encoding(&self, data: Seq<u8>, pos: int) {
    }
}

// ---------------------------------------------------------------------------
// Per-player level progress metadata.
// ---------------------------------------------------------------------------

/// A player's progress in a level: the raw percentage counter (no 0-100
/// clamp is enforced here) and the attempt count.
#[derive(Clone, Copy, Debug, PartialEq, Eq, Structural)]
pub struct PlayerMetadata {
    pub percentage: u16,
    pub attempts: i32,
}

impl Default for PlayerMetadata {
    fn default() -> (r: Self)
        ensures
            r == (PlayerMetadata { percentage: 0, attempts: 0 }),
    {
        PlayerMetadata { percentage: 0, attempts: 0 }
    }
}

impl Codec for PlayerMetadata {
    type Model = PlayerMetadata;

    open spec fn model(&self) -> PlayerMetadata {
        *self
    }

    open spec fn wf(&self) -> bool {
        true
    }

    open spec fn encoding(&self) -> Seq<u8> {
        u16_enc(self.percentage) + i32_enc(self.attempts)
    }

    open spec fn spec_decode(data: Seq<u8>, pos: int) -> Result<(PlayerMetadata, int), DecodeError> {
        if pos + 6 <= data.len() {
            Ok((
                PlayerMetadata { percentage: u16_at(data, pos), attempts: i32_at(data, pos + 2) },
                pos + 6,
            ))
        } else {
            Err(DecodeError::NotEnoughData)
        }
    }

    fn encode(&self, buf: &mut Vec<u8>) {
        write_u16(self.percentage, buf);
        write_i32(self.attempts, buf);
        assert(buf@ =~= old(buf)@ + self.encoding());
    }

    fn known_size(&self) -> (n: usize) {
        6
    }

    fn decode(data: &Vec<u8>, pos: usize) -> (r: Result<(Self, usize), DecodeError>) {
        let n: usize = data.len();
        if n - pos < 6 {
            return Err(DecodeError::NotEnoughData);
        }
        Ok((
            PlayerMetadata { percentage: read_u16(data, pos), attempts: read_i32(data, pos + 2) },
            pos + 6,
        ))
    }

    proof fn lemma_decode_encoding(&self, data: Seq<u8>, pos: int) {
        let e = self.encoding();
        lemma_subrange_chunk(data, pos, e, 0, 2);
        assert(e.subrange(0, 2) =~= u16_enc(self.percentage));
        assert(data[pos] == data.subrange(pos, pos + 2)[0]);
        assert(data[pos + 1] == data.subrange(pos, pos + 2)[1]);
        lemma_u16_round(self.percentage);
        assert(u16_at(data, pos) == self.percentage);

        lemma_subrange_chunk(data, pos, e, 2, 4);
        assert(e.subrange(2, 6) =~= i32_enc(self.attempts));
        assert(data[pos + 2] == data.subrange(pos + 2, pos + 6)[0]);
        assert(data[pos + 3] == data.subrange(pos + 2, pos + 6)[1]);
        assert(data[pos + 4] == data.subrange(pos + 2, pos + 6)[2]);
        assert(data[pos + 5] == data.subrange(pos + 2, pos + 6)[3]);
        lemma_u16_round(u32_hi(i32_rep(self.attempts)));
        lemma_u16_round(u32_lo(i32_rep(self.attempts)));
        lemma_u32_round(i32_rep(self.attempts));
        lemma_i32_round(self.attempts);
        assert(i32_at(data, pos + 2) == self.attempts);
    }
}

// ---------------------------------------------------------------------------
// Associated wrappers: an account key in front of a payload.
// ---------------------------------------------------------------------------

/// The in-level payload keyed by the account that owns it.
#[derive(Clone, Copy, Debug, PartialEq, Eq, Structural)]
pub struct AssociatedPlayerData {
    pub account_id: i32,
    pub data: PlayerData,
}

impl Default for AssociatedPlayerData {
    fn default() -> (r: Self)
        ensures
            r == (AssociatedPlayerData { account_id: 0, data: PlayerData {} }),
    {
        AssociatedPlayerData { account_id: 0, data: PlayerData {} }
    }
}

impl Codec for AssociatedPlayerData {
    type Model = AssociatedPlayerData;

    open spec fn model(&self) -> AssociatedPlayerData {
        *self
    }

    open spec fn wf(&self) -> bool {
        true
    }

    open spec fn encoding(&self) -> Seq<u8> {
        i32_enc(self.account_id) + self.data.encoding()
    }

    open spec fn spec_decode(data: Seq<u8>, pos: int) -> Result<
        (AssociatedPlayerData, int),
        DecodeError,
    > {
        match <i32 as Codec>::spec_decode(data, pos) {
            Err(e) => Err(e),
            Ok((account_id, p1)) => match PlayerData::spec_decode(data, p1) {
                Err(e) => Err(e),
                Ok((d, p2)) => Ok((AssociatedPlayerData { account_id, data: d }, p2)),
            },
        }
    }

    fn encode(&self, buf: &mut Vec<u8>) {
        write_i32(self.account_id, buf);
        self.data.encode(buf);
        assert(buf@ =~= old(buf)@ + self.encoding());
    }

    fn known_size(&self) -> (n: usize) {
        4 + self.data.known_size()
    }

    fn decode(data: &Vec<u8>, pos: usize) -> (r: Result<(Self, usize), DecodeError>) {
        let (account_id, p1) = match <i32 as Codec>::decode(data, pos) {
            Ok(v) => v,
            Err(e) => {
                return Err(e);
            },
        };
        let (d, p2) = match PlayerData::decode(data, p1) {
            Ok(v) => v,
            Err(e) => {
                return Err(e);
            },
        };
        Ok((AssociatedPlayerData { account_id, data: d }, p2))
    }

    proof fn lemma_decode_encoding(&self, data: Seq<u8>, pos: int) {
        let e = self.encoding();
        lemma_subrange_chunk(data, pos, e, 0, 4);
        assert(e.subrange(0, 4) =~= i32_enc(self.account_id));
        assert(data.subrange(pos + 4, pos + 4) =~= self.data.encoding());
        self.account_id.lemma_decode_encoding(data, pos);
        self.data.lemma_decode_encoding(data, pos + 4);
    }
}

/// The progress metadata keyed by the account that owns it.
#[derive(Clone, Copy, Debug, PartialEq, Eq, Structural)]
pub struct AssociatedPlayerMetadata {
    pub account_id: i32,
    pub data: PlayerMetadata,
}

impl Default for AssociatedPlayerMetadata {
    fn default() -> (r: Self)
        ensures
            r == (AssociatedPlayerMetadata {
                account_id: 0,
                data: PlayerMetadata { percentage: 0, attempts: 0 },
            }),
    {
        AssociatedPlayerMetadata {
            account_id: 0,
            data: PlayerMetadata { percentage: 0, attempts: 0 },
        }
    }
}

impl Codec for AssociatedPlayerMetadata {
    type Model = AssociatedPlayerMetadata;

    open spec fn model(&self) -> AssociatedPlayerMetadata {
        *self
    }

    open spec fn wf(&self) -> bool {
        true
    }

    open spec fn encoding(&self) -> Seq<u8> {
        i32_enc(self.account_id) + self.data.encoding()
    }

    open spec fn spec_decode(data: Seq<u8>, pos: int) -> Result<
        (AssociatedPlayerMetadata, int),
        DecodeError,
    > {
        match <i32 as Codec>::spec_decode(data, pos) {
            Err(e) => Err(e),
            Ok((account_id, p1)) => match PlayerMetadata::spec_decode(data, p1) {
                Err(e) => Err(e),
                Ok((d, p2)) => Ok((AssociatedPlayerMetadata { account_id, data: d }, p2)),
            },
        }
    }

    fn encode(&self, buf: &mut Vec<u8>) {
        write_i32(self.account_id, buf);
        self.data.encode(buf);
        assert(buf@ =~= old(buf)@ + self.encoding());
    }

    fn known_size(&self) -> (n: usize) {
        4 + self.data.known_size()
    }

    fn decode(data: &Vec<u8>, pos: usize) -> (r: Result<(Self, usize), DecodeError>) {
        let (account_id, p1) = match <i32 as Codec>::decode(data, pos) {
            Ok(v) => v,
            Err(e) => {
                return Err(e);
            },
        };
        let (d, p2) = match PlayerMetadata::decode(data, p1) {
            Ok(v) => v,
            Err(e) => {
                return Err(e);
            },
        };
        Ok((AssociatedPlayerMetadata { account_id, data: d }, p2))
    }

    proof fn lemma_decode_encoding(&self, data: Seq<u8>, pos: int) {
        let e = self.encoding();
        let l2 = self.data.encoding().len() as int;
        lemma_subrange_chunk(data, pos, e, 0, 4);
        assert(e.subrange(0, 4) =~= i32_enc(self.account_id));
        lemma_subrange_chunk(data, pos, e, 4, l2);
        assert(e.subrange(4, 4 + l2) =~= self.data.encoding());
        self.account_id.lemma_decode_encoding(data, pos);
        self.data.lemma_decode_encoding(data, pos + 4);
    }
}

} // verus!
