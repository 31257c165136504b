//! Player-state records: cosmetic selections, the optional privileged-user
//! overlay, the full identity record, and its preview projection.
//!
//! Aggregates encode as the concatenation of their fields' encodings in
//! declared order; the optional overlay carries a one-byte presence flag
//! (0 absent, nonzero present) before its payload. Every decode is
//! all-or-nothing: the first failing field aborts the aggregate.

use vstd::prelude::*;

use crate::codec::{Codec, DecodeError};
use crate::codec::{
    i16_enc, i16_at, i32_enc, i32_at, read_i16, read_i32, write_i16, write_i32, i16_rep, i32_rep,
    lemma_u16_round, lemma_u32_round, lemma_i16_round, lemma_i32_round, u32_hi, u32_lo,
    lemma_subrange_chunk,
};
use crate::color::{Color3B, ColorParseError, spec_parse_color};
use crate::fast_string::FastString;

verus! {

// ---------------------------------------------------------------------------
// Cosmetic selections.
// ---------------------------------------------------------------------------

/// A player's cosmetic slot selections: one selector per game mode, the
/// death-effect selector, and two color slots. 24 bytes on the wire.
#[derive(Clone, Copy, Debug, PartialEq, Eq, Structural)]
pub struct PlayerIconData {
    pub cube: i16,
    pub ship: i16,
    pub ball: i16,
    pub ufo: i16,
    pub wave: i16,
    pub robot: i16,
    pub spider: i16,
    pub swing: i16,
    pub jetpack: i16,
    pub death_effect: i16,
    pub color1: i16,
    pub color2: i16,
}

impl Default for PlayerIconData {
    /// Every selector defaults to slot 1, except the second color slot
    /// which defaults to 3.
    fn default() -> (r: Self)
        ensures
            r == (PlayerIconData {
                cube: 1,
                ship: 1,
                ball: 1,
                ufo: 1,
                wave: 1,
                robot: 1,
                spider: 1,
                swing: 1,
                jetpack: 1,
                death_effect: 1,
                color1: 1,
                color2: 3,
            }),
    {
        PlayerIconData {
            cube: 1,
            ship: 1,
            ball: 1,
            ufo: 1,
            wave: 1,
            robot: 1,
            spider: 1,
            swing: 1,
            jetpack: 1,
            death_effect: 1,
            color1: 1,
            color2: 3,
        }
    }
}

impl PlayerIconData {
    /// Validation hook reserved for future slot-range checks; today every
    /// selection is reported valid, and callers must not expect rejection.
    pub fn is_valid(&self) -> (v: bool)
        ensures
            v,
    {
        true
    }
}

impl Codec for PlayerIconData {
    type Model = PlayerIconData;

    open spec fn model(&self) -> PlayerIconData {
        *self
    }

    open spec fn wf(&self) -> bool {
        true
    }

    open spec fn encoding(&self) -> Seq<u8> {
        i16_enc(self.cube) + i16_enc(self.ship) + i16_enc(self.ball) + i16_enc(self.ufo)
            + i16_enc(self.wave) + i16_enc(self.robot) + i16_enc(self.spider)
            + i16_enc(self.swing) + i16_enc(self.jetpack) + i16_enc(self.death_effect)
            + i16_enc(self.color1) + i16_enc(self.color2)
    }

    open spec fn spec_decode(data: Seq<u8>, pos: int) -> Result<(PlayerIconData, int), DecodeError> {
        if pos + 24 <= data.len() {
            Ok((
                PlayerIconData {
                    cube: i16_at(data, pos),
                    ship: i16_at(data, pos + 2),
                    ball: i16_at(data, pos + 4),
                    ufo: i16_at(data, pos + 6),
                    wave: i16_at(data, pos + 8),
                    robot: i16_at(data, pos + 10),
                    spider: i16_at(data, pos + 12),
                    swing: i16_at(data, pos + 14),
                    jetpack: i16_at(data, pos + 16),
                    death_effect: i16_at(data, pos + 18),
                    color1: i16_at(data, pos + 20),
                    color2: i16_at(data, pos + 22),
                },
                pos + 24,
            ))
        } else {
            Err(DecodeError::NotEnoughData)
        }
    }

    fn encode(&self, buf: &mut Vec<u8>) {
        write_i16(self.cube, buf);
        write_i16(self.ship, buf);
        write_i16(self.ball, buf);
        write_i16(self.ufo, buf);
        write_i16(self.wave, buf);
        write_i16(self.robot, buf);
        write_i16(self.spider, buf);
        write_i16(self.swing, buf);
        write_i16(self.jetpack, buf);
        write_i16(self.death_effect, buf);
        write_i16(self.color1, buf);
        write_i16(self.color2, buf);
        assert(buf@ =~= old(buf)@ + self.encoding());
    }

    fn known_size(&self) -> (n: usize) {
        24
    }

    fn decode(data: &Vec<u8>, pos: usize) -> (r: Result<(Self, usize), DecodeError>) {
        let n: usize = data.len();
        if n - pos < 24 {
            return Err(DecodeError::NotEnoughData);
        }
        Ok((
            PlayerIconData {
                cube: read_i16(data, pos),
                ship: read_i16(data, pos + 2),
                ball: read_i16(data, pos + 4),
                ufo: read_i16(data, pos + 6),
                wave: read_i16(data, pos + 8),
                robot: read_i16(data, pos + 10),
                spider: read_i16(data, pos + 12),
                swing: read_i16(data, pos + 14),
                jetpack: read_i16(data, pos + 16),
                death_effect: read_i16(data, pos + 18),
                color1: read_i16(data, pos + 20),
                color2: read_i16(data, pos + 22),
            },
            pos + 24,
        ))
    }

    proof fn lemma_decode_encoding(&self, data: Seq<u8>, pos: int) {
        let e = self.encoding();
        let fields: Seq<i16> = seq![
            self.cube,
            self.ship,
            self.ball,
            self.ufo,
            self.wave,
            self.robot,
            self.spider,
            self.swing,
            self.jetpack,
            self.death_effect,
            self.color1,
            self.color2,
        ];
        assert forall|k: int| 0 <= k < 12 implies i16_at(data, pos + 2 * k) == fields[k] by {
            lemma_subrange_chunk(data, pos, e, 2 * k, 2);
            assert(e.subrange(2 * k, 2 * k + 2) =~= i16_enc(fields[k]));
            assert(data[pos + 2 * k] == data.subrange(pos + 2 * k, pos + 2 * k + 2)[0]);
            assert(data[pos + 2 * k + 1] == data.subrange(pos + 2 * k, pos + 2 * k + 2)[1]);
            lemma_u16_round(i16_rep(fields[k]));
            lemma_i16_round(fields[k]);
        }
        assert(i16_at(data, pos) == self.cube);
        assert(i16_at(data, pos + 2) == self.ship);
        assert(i16_at(data, pos + 4) == self.ball);
        assert(i16_at(data, pos + 6) == self.ufo);
        assert(i16_at(data, pos + 8) == self.wave);
        assert(i16_at(data, pos + 10) == self.robot);
        assert(i16_at(data, pos + 12) == self.spider);
        assert(i16_at(data, pos + 14) == self.swing);
        assert(i16_at(data, pos + 16) == self.jetpack);
        assert(i16_at(data, pos + 18) == self.death_effect);
        assert(i16_at(data, pos + 20) == self.color1);
        assert(i16_at(data, pos + 22) == self.color2);
    }
}

// ---------------------------------------------------------------------------
// The privileged-user overlay.
// ---------------------------------------------------------------------------

/// The privileged-user descriptor handed in by the session collaborator:
/// the account it concerns and the textual color granted to its name.
#[derive(Clone, Debug, PartialEq, Eq)]
pub struct SpecialUser {
    pub account_id: i32,
    pub name: String,
    pub color: String,
}

/// The name-color override attached to privileged players.
#[derive(Clone, Copy, Debug, PartialEq, Eq, Structural)]
pub struct SpecialUserData {
    pub name_color: Color3B,
}

impl Default for SpecialUserData {
    /// The default overlay colors the name opaque white.
    fn default() -> (r: Self)
        ensures
            r == (SpecialUserData { name_color: Color3B { r: 255, g: 255, b: 255 } }),
    {
        SpecialUserData { name_color: Color3B { r: 255, g: 255, b: 255 } }
    }
}

impl SpecialUserData {
    /// Builds the overlay from a privileged-user descriptor by parsing its
    /// textual color; a parse failure is surfaced unchanged, and no record
    /// is produced.
    pub fn try_from_user(user: &SpecialUser) -> (r: Result<SpecialUserData, ColorParseError>)
        ensures
            r == (match spec_parse_color(vstd::utf8::encode_utf8(user.color@)) {
                Ok(c) => Ok(SpecialUserData { name_color: c }),
                Err(e) => Err::<SpecialUserData, ColorParseError>(e),
            }),
    {
        match Color3B::parse(user.color.as_str()) {
            Ok(c) => Ok(SpecialUserData { name_color: c }),
            Err(e) => Err(e),
        }
    }
}

impl Codec for SpecialUserData {
    type Model = SpecialUserData;

    open spec fn model(&self) -> SpecialUserData {
        *self
    }

    open spec fn wf(&self) -> bool {
        true
    }

    open spec fn encoding(&self) -> Seq<u8> {
        self.name_color.encoding()
    }

    open spec fn spec_decode(data: Seq<u8>, pos: int) -> Result<(SpecialUserData, int), DecodeError> {
        match <Color3B as Codec>::spec_decode(data, pos) {
            Ok((c, end)) => Ok((SpecialUserData { name_color: c }, end)),
            Err(e) => Err(e),
        }
    }

    fn encode(&self, buf: &mut Vec<u8>) {
        self.name_color.encode(buf);
    }

    fn known_size(&self) -> (n: usize) {
        self.name_color.known_size()
    }

    fn decode(data: &Vec<u8>, pos: usize) -> (r: Result<(Self, usize), DecodeError>) {
        match <Color3B as Codec>::decode(data, pos) {
            Ok((c, end)) => Ok((SpecialUserData { name_color: c }, end)),
            Err(e) => Err(e),
        }
    }

    proof fn lemma_decode_encoding(&self, data: Seq<u8>, pos: int) {
        self.name_color.lemma_decode_encoding(data, pos);
    }
}

// ---------------------------------------------------------------------------
// The optional overlay on the wire: a presence flag, then the payload.
// ---------------------------------------------------------------------------

impl Codec for Option<SpecialUserData> {
    type Model = Option<SpecialUserData>;

    open spec fn model(&self) -> Option<SpecialUserData> {
        *self
    }

    open spec fn wf(&self) -> bool {
        true
    }

    open spec fn encoding(&self) -> Seq<u8> {
        match self {
            None => seq![0u8],
            Some(s) => seq![1u8] + s.encoding(),
        }
    }

    open spec fn spec_decode(data: Seq<u8>, pos: int) -> Result<
        (Option<SpecialUserData>, int),
        DecodeError,
    > {
        if pos + 1 <= data.len() {
            if data[pos] == 0 {
                Ok((None, pos + 1))
            } else {
                match SpecialUserData::spec_decode(data, pos + 1) {
                    Ok((s, end)) => Ok((Some(s), end)),
                    Err(e) => Err(e),
                }
            }
        } else {
            Err(DecodeError::NotEnoughData)
        }
    }

    fn encode(&self, buf: &mut Vec<u8>) {
        match self {
            None => {
                buf.push(0u8);
                assert(buf@ =~= old(buf)@ + self.encoding());
            },
            Some(s) => {
                buf.push(1u8);
                s.encode(buf);
                assert(buf@ =~= old(buf)@ + self.encoding());
            },
        }
    }

    fn known_size(&self) -> (n: usize) {
        match self {
            None => 1,
            Some(s) => 1 + s.known_size(),
        }
    }

    fn decode(data: &Vec<u8>, pos: usize) -> (r: Result<(Self, usize), DecodeError>) {
        let n: usize = data.len();
        if n - pos < 1 {
            return Err(DecodeError::NotEnoughData);
        }
        let flag = data[pos];
        if flag == 0 {
            Ok((None, pos + 1))
        } else {
            match SpecialUserData::decode(data, pos + 1) {
                Ok((s, end)) => Ok((Some(s), end)),
                Err(e) => Err(e),
            }
        }
    }

    proof fn lemma_decode_encoding(&self, data: Seq<u8>, pos: int) {
        let e = self.encoding();
        assert(data[pos] == data.subrange(pos, pos + e.len() as int)[0]);
        match self {
            None => {},
            Some(s) => {
                let m = s.encoding().len() as int;
                lemma_subrange_chunk(data, pos, e, 1, m);
                assert(e.subrange(1, 1 + m) =~= s.encoding());
                s.lemma_decode_encoding(data, pos + 1);
            },
        }
    }
}

// ---------------------------------------------------------------------------
// The full identity record.
// ---------------------------------------------------------------------------

/// A player's identity as broadcast to other clients: the account key, the
/// bounded display name, the cosmetic selections, and the optional
/// privileged-user overlay.
#[derive(Clone, Debug, PartialEq, Eq)]
pub struct PlayerAccountData {
    pub account_id: i32,
    pub name: FastString,
    pub icons: PlayerIconData,
    pub special_user_data: Option<SpecialUserData>,
}

/// The mathematical value of a [`PlayerAccountData`]: the same fields with
/// the name as the byte sequence it holds.
#[verifier::ext_equal]
pub ghost struct PlayerAccountModel {
    pub account_id: i32,
    pub name: Seq<u8>,
    pub icons: PlayerIconData,
    pub special_user_data: Option<SpecialUserData>,
}

impl Default for PlayerAccountData {
    /// The default identity: account 0, empty name, default cosmetics, no
    /// overlay.
    fn default() -> (r: Self)
        ensures
            r.account_id == 0,
            r.name@ == Seq::<u8>::empty(),
            r.icons == (PlayerIconData {
                cube: 1,
                ship: 1,
                ball: 1,
                ufo: 1,
                wave: 1,
                robot: 1,
                spider: 1,
                swing: 1,
                jetpack: 1,
                death_effect: 1,
                color1: 1,
                color2: 3,
            }),
            r.special_user_data is None,
    {
        PlayerAccountData {
            account_id: 0,
            name: <FastString as Default>::default(),
            icons: <PlayerIconData as Default>::default(),
            special_user_data: None,
        }
    }
}

impl PlayerAccountData {
    /// Projects the reduced record used when listing many players: the
    /// account key and name are copied, the primary-shape selector and the
    /// two color slots are read through from the cosmetics, and the given
    /// level identifier is attached. The source is not touched.
    pub fn make_preview(&self, level_id: i32) -> (r: PlayerPreviewAccountData)
        ensures
            r.account_id == self.account_id,
            r.name@ == self.name@,
            r.cube == self.icons.cube,
            r.color1 == self.icons.color1,
            r.color2 == self.icons.color2,
            r.level_id == level_id,
    {
        PlayerPreviewAccountData {
            account_id: self.account_id,
            name: self.name.clone(),
            cube: self.icons.cube,
            color1: self.icons.color1,
            color2: self.icons.color2,
            level_id,
        }
    }
}

impl Codec for PlayerAccountData {
    type Model = PlayerAccountModel;

    open spec fn model(&self) -> PlayerAccountModel {
        PlayerAccountModel {
            account_id: self.account_id,
            name: self.name@,
            icons: self.icons,
            special_user_data: self.special_user_data,
        }
    }

    open spec fn wf(&self) -> bool {
        self.name.wf()
    }

    open spec fn encoding(&self) -> Seq<u8> {
        i32_enc(self.account_id) + self.name.encoding() + self.icons.encoding()
            + self.special_user_data.encoding()
    }

    open spec fn spec_decode(data: Seq<u8>, pos: int) -> Result<
        (PlayerAccountModel, int),
        DecodeError,
    > {
        match <i32 as Codec>::spec_decode(data, pos) {
            Err(e) => Err(e),
            Ok((account_id, p1)) => match FastString::spec_decode(data, p1) {
                Err(e) => Err(e),
                Ok((name, p2)) => match PlayerIconData::spec_decode(data, p2) {
                    Err(e) => Err(e),
                    Ok((icons, p3)) => match Option::<SpecialUserData>::spec_decode(data, p3) {
                        Err(e) => Err(e),
                        Ok((special, p4)) => Ok((
                            PlayerAccountModel {
                                account_id,
                                name,
                                icons,
                                special_user_data: special,
                            },
                            p4,
                        )),
                    },
                },
            },
        }
    }

    fn encode(&self, buf: &mut Vec<u8>) {
        write_i32(self.account_id, buf);
        self.name.encode(buf);
        self.icons.encode(buf);
        self.special_user_data.encode(buf);
        assert(buf@ =~= old(buf)@ + self.encoding());
    }

    fn known_size(&self) -> (n: usize) {
        assert(self.name.encoding().len() == 4 + self.name@.len());
        4 + self.name.known_size() + self.icons.known_size()
            + self.special_user_data.known_size()
    }

    fn decode(data: &Vec<u8>, pos: usize) -> (r: Result<(Self, usize), DecodeError>) {
        let (account_id, p1) = match <i32 as Codec>::decode(data, pos) {
            Ok(v) => v,
            Err(e) => {
                return Err(e);
            },
        };
        let (name, p2) = match FastString::decode(data, p1) {
            Ok(v) => v,
            Err(e) => {
                return Err(e);
            },
        };
        let (icons, p3) = match PlayerIconData::decode(data, p2) {
            Ok(v) => v,
            Err(e) => {
                return Err(e);
            },
        };
        let (special_user_data, p4) = match Option::<SpecialUserData>::decode(data, p3) {
            Ok(v) => v,
            Err(e) => {
                return Err(e);
            },
        };
        Ok((PlayerAccountData { account_id, name, icons, special_user_data }, p4))
    }

    proof fn lemma_decode_encoding(&self, data: Seq<u8>, pos: int) {
        let e = self.encoding();
        let e1 = i32_enc(self.account_id);
        let e2 = self.name.encoding();
        let e3 = self.icons.encoding();
        let e4 = self.special_user_data.encoding();
        let l1 = e1.len() as int;
        let l2 = e2.len() as int;
        let l3 = e3.len() as int;
        let l4 = e4.len() as int;

        lemma_subrange_chunk(data, pos, e, 0, l1);
        assert(e.subrange(0, l1) =~= e1);
        lemma_subrange_chunk(data, pos, e, l1, l2);
        assert(e.subrange(l1, l1 + l2) =~= e2);
        lemma_subrange_chunk(data, pos, e, l1 + l2, l3);
        assert(e.subrange(l1 + l2, l1 + l2 + l3) =~= e3);
        lemma_subrange_chunk(data, pos, e, l1 + l2 + l3, l4);
        assert(e.subrange(l1 + l2 + l3, l1 + l2 + l3 + l4) =~= e4);

        self.account_id.lemma_decode_encoding(data, pos);
        self.name.lemma_decode_encoding(data, pos + l1);
        self.icons.lemma_decode_encoding(data, pos + l1 + l2);
        self.special_user_data.lemma_decode_encoding(data, pos + l1 + l2 + l3);
        assert(Self::spec_decode(data, pos) matches Ok(p) && p.0 =~= self.model()
            && p.1 == pos + e.len());
    }
}

// ---------------------------------------------------------------------------
// The preview projection.
// ---------------------------------------------------------------------------

/// The reduced identity used for cheap bulk listings: account key, name,
/// primary-shape selector, the two color slots, and the level the player
/// is listed in.
#[derive(Clone, Debug, PartialEq, Eq)]
pub struct PlayerPreviewAccountData {
    pub account_id: i32,
    pub name: FastString,
    pub cube: i16,
    pub color1: i16,
    pub color2: i16,
    pub level_id: i32,
}

/// The mathematical value of a [`PlayerPreviewAccountData`].
#[verifier::ext_equal]
pub ghost struct PlayerPreviewModel {
    pub account_id: i32,
    pub name: Seq<u8>,
    pub cube: i16,
    pub color1: i16,
    pub color2: i16,
    pub level_id: i32,
}

impl Default for PlayerPreviewAccountData {
    /// The default preview: zeroed selectors and an empty name.
    fn default() -> (r: Self)
        ensures
            r.account_id == 0,
            r.name@ == Seq::<u8>::empty(),
            r.cube == 0,
            r.color1 == 0,
            r.color2 == 0,
            r.level_id == 0,
    {
        PlayerPreviewAccountData {
            account_id: 0,
            name: <FastString as Default>::default(),
            cube: 0,
            color1: 0,
            color2: 0,
            level_id: 0,
        }
    }
}

impl Codec for PlayerPreviewAccountData {
    type Model = PlayerPreviewModel;

    open spec fn model(&self) -> PlayerPreviewModel {
        PlayerPreviewModel {
            account_id: self.account_id,
            name: self.name@,
            cube: self.cube,
            color1: self.color1,
            color2: self.color2,
            level_id: self.level_id,
        }
    }

    open spec fn wf(&self) -> bool {
        self.name.wf()
    }

    open spec fn encoding(&self) -> Seq<u8> {
        i32_enc(self.account_id) + self.name.encoding() + i16_enc(self.cube)
            + i16_enc(self.color1) + i16_enc(self.color2) + i32_enc(self.level_id)
    }

    open spec fn spec_decode(data: Seq<u8>, pos: int) -> Result<
        (PlayerPreviewModel, int),
        DecodeError,
    > {
        match <i32 as Codec>::spec_decode(data, pos) {
            Err(e) => Err(e),
            Ok((account_id, p1)) => match FastString::spec_decode(data, p1) {
                Err(e) => Err(e),
                Ok((name, p2)) => if p2 + 10 <= data.len() {
                    Ok((
                        PlayerPreviewModel {
                            account_id,
                            name,
                            cube: i16_at(data, p2),
                            color1: i16_at(data, p2 + 2),
                            color2: i16_at(data, p2 + 4),
                            level_id: i32_at(data, p2 + 6),
                        },
                        p2 + 10,
                    ))
                } else {
                    Err(DecodeError::NotEnoughData)
                },
            },
        }
    }

    fn encode(&self, buf: &mut Vec<u8>) {
        write_i32(self.account_id, buf);
        self.name.encode(buf);
        write_i16(self.cube, buf);
        write_i16(self.color1, buf);
        write_i16(self.color2, buf);
        write_i32(self.level_id, buf);
        assert(buf@ =~= old(buf)@ + self.encoding());
    }

    fn known_size(&self) -> (n: usize) {
        assert(self.name.encoding().len() == 4 + self.name@.len());
        4 + self.name.known_size() + 10
    }

    fn decode(data: &Vec<u8>, pos: usize) -> (r: Result<(Self, usize), DecodeError>) {
        let (account_id, p1) = match <i32 as Codec>::decode(data, pos) {
            Ok(v) => v,
            Err(e) => {
                return Err(e);
            },
        };
        let (name, p2) = match FastString::decode(data, p1) {
            Ok(v) => v,
            Err(e) => {
                return Err(e);
            },
        };
        let n: usize = data.len();
        if n - p2 < 10 {
            return Err(DecodeError::NotEnoughData);
        }
        Ok((
            PlayerPreviewAccountData {
                account_id,
                name,
                cube: read_i16(data, p2),
                color1: read_i16(data, p2 + 2),
                color2: read_i16(data, p2 + 4),
                level_id: read_i32(data, p2 + 6),
            },
            p2 + 10,
        ))
    }

    proof fn lemma_decode_encoding(&self, data: Seq<u8>, pos: int) {
        let e = self.encoding();
        let e1 = i32_enc(self.account_id);
        let e2 = self.name.encoding();
        let l1 = e1.len() as int;
        let l2 = e2.len() as int;

        lemma_subrange_chunk(data, pos, e, 0, l1);
        assert(e.subrange(0, l1) =~= e1);
        lemma_subrange_chunk(data, pos, e, l1, l2);
        assert(e.subrange(l1, l1 + l2) =~= e2);
        self.account_id.lemma_decode_encoding(data, pos);
        self.name.lemma_decode_encoding(data, pos + l1);

        let p2 = pos + l1 + l2;
        lemma_subrange_chunk(data, pos, e, l1 + l2, 2);
        assert(e.subrange(l1 + l2, l1 + l2 + 2) =~= i16_enc(self.cube));
        assert(data[p2] == data.subrange(p2, p2 + 2)[0]);
        assert(data[p2 + 1] == data.subrange(p2, p2 + 2)[1]);
        lemma_u16_round(i16_rep(self.cube));
        lemma_i16_round(self.cube);
        assert(i16_at(data, p2) == self.cube);

        lemma_subrange_chunk(data, pos, e, l1 + l2 + 2, 2);
        assert(e.subrange(l1 + l2 + 2, l1 + l2 + 4) =~= i16_enc(self.color1));
        assert(data[p2 + 2] == data.subrange(p2 + 2, p2 + 4)[0]);
        assert(data[p2 + 3] == data.subrange(p2 + 2, p2 + 4)[1]);
        lemma_u16_round(i16_rep(self.color1));
        lemma_i16_round(self.color1);
        assert(i16_at(data, p2 + 2) == self.color1);

        lemma_subrange_chunk(data, pos, e, l1 + l2 + 4, 2);
        assert(e.subrange(l1 + l2 + 4, l1 + l2 + 6) =~= i16_enc(self.color2));
        assert(data[p2 + 4] == data.subrange(p2 + 4, p2 + 6)[0]);
        assert(data[p2 + 5] == data.subrange(p2 + 4, p2 + 6)[1]);
        lemma_u16_round(i16_rep(self.color2));
        lemma_i16_round(self.color2);
        assert(i16_at(data, p2 + 4) == self.color2);

        lemma_subrange_chunk(data, pos, e, l1 + l2 + 6, 4);
        assert(e.subrange(l1 + l2 + 6, l1 + l2 + 10) =~= i32_enc(self.level_id));
        assert(data[p2 + 6] == data.subrange(p2 + 6, p2 + 10)[0]);
        assert(data[p2 + 7] == data.subrange(p2 + 6, p2 + 10)[1]);
        assert(data[p2 + 8] == data.subrange(p2 + 6, p2 + 10)[2]);
        assert(data[p2 + 9] == data.subrange(p2 + 6, p2 + 10)[3]);
        lemma_u16_round(u32_hi(i32_rep(self.level_id)));
        lemma_u16_round(u32_lo(i32_rep(self.level_id)));
        lemma_u32_round(i32_rep(self.level_id));
        lemma_i32_round(self.level_id);
        assert(i32_at(data, p2 + 6) == self.level_id);

        assert(Self::spec_decode(data, pos) matches Ok(p) && p.0 =~= self.model()
            && p.1 == pos + e.len());
    }
}

/// Absent-overlay encoding: an identity record with no privileged-user
/// overlay spends exactly one byte on that field, the flag 0, and its
/// whole encoding is the other fields' encodings followed by that byte.
pub proof fn lemma_absent_overlay_one_byte(v: PlayerAccountData)
    requires
        v.special_user_data is None,
    ensures
        v.special_user_data.encoding() == seq![0u8],
        v.encoding() == i32_enc(v.account_id) + v.name.encoding() + v.icons.encoding()
            + seq![0u8],
{
}

} // verus!
