use player_records::codec::{Codec, DecodeError};
use player_records::color::Color3B;
use player_records::fast_string::{FastString, MAX_NAME_SIZE};
use player_records::meta::{
    AssociatedPlayerData, AssociatedPlayerMetadata, PlayerData, PlayerMetadata,
};
use player_records::player::{
    PlayerAccountData, PlayerIconData, PlayerPreviewAccountData, SpecialUserData,
};

fn sample_icons() -> PlayerIconData {
    PlayerIconData {
        cube: 7,
        ship: -2,
        ball: 300,
        ufo: 4,
        wave: 5,
        robot: 6,
        spider: 7,
        swing: 8,
        jetpack: 9,
        death_effect: 10,
        color1: 2,
        color2: 9,
    }
}

fn name(bytes: &[u8]) -> FastString {
    FastString::try_new(bytes.to_vec()).unwrap()
}

fn sample_account(special: Option<SpecialUserData>) -> PlayerAccountData {
    PlayerAccountData {
        account_id: -12345,
        name: name(b"Bob"),
        icons: sample_icons(),
        special_user_data: special,
    }
}

#[test]
fn default_icons_are_slot_defaults() {
    let d = PlayerIconData::default();
    assert_eq!(d.cube, 1);
    assert_eq!(d.ship, 1);
    assert_eq!(d.ball, 1);
    assert_eq!(d.ufo, 1);
    assert_eq!(d.wave, 1);
    assert_eq!(d.robot, 1);
    assert_eq!(d.spider, 1);
    assert_eq!(d.swing, 1);
    assert_eq!(d.jetpack, 1);
    assert_eq!(d.death_effect, 1);
    assert_eq!(d.color1, 1);
    assert_eq!(d.color2, 3);
}

#[test]
fn default_color_is_opaque_white() {
    let c = Color3B::default();
    assert_eq!(c, Color3B { r: 255, g: 255, b: 255 });
}

#[test]
fn default_special_user_data_is_white() {
    let s = SpecialUserData::default();
    assert_eq!(s.name_color, Color3B { r: 255, g: 255, b: 255 });
}

#[test]
fn default_records_are_zeroed() {
    let acc = PlayerAccountData::default();
    assert_eq!(acc.account_id, 0);
    assert_eq!(acc.name.len(), 0);
    assert_eq!(acc.icons, PlayerIconData::default());
    assert_eq!(acc.special_user_data, None);

    let p = PlayerPreviewAccountData::default();
    assert_eq!(
        (p.account_id, p.cube, p.color1, p.color2, p.level_id),
        (0, 0, 0, 0, 0)
    );
    assert_eq!(p.name.len(), 0);

    let m = PlayerMetadata::default();
    assert_eq!(m, PlayerMetadata { percentage: 0, attempts: 0 });
    let am = AssociatedPlayerMetadata::default();
    assert_eq!(am.account_id, 0);
    assert_eq!(am.data, m);
    let ad = AssociatedPlayerData::default();
    assert_eq!(ad.account_id, 0);
    assert_eq!(ad.data, PlayerData::default());
}

#[test]
fn icons_are_always_valid() {
    assert!(sample_icons().is_valid());
    assert!(PlayerIconData::default().is_valid());
}

#[test]
fn make_preview_projects_the_right_fields() {
    let acc = PlayerAccountData {
        account_id: 42,
        name: name(b"Bob"),
        icons: sample_icons(),
        special_user_data: None,
    };
    let p = acc.make_preview(5);
    assert_eq!(p.account_id, 42);
    assert_eq!(p.name.as_bytes().as_slice(), b"Bob");
    assert_eq!(p.cube, 7);
    assert_eq!(p.color1, 2);
    assert_eq!(p.color2, 9);
    assert_eq!(p.level_id, 5);
}

#[test]
fn make_preview_does_not_depend_on_level() {
    let acc = sample_account(None);
    let a = acc.make_preview(1);
    let b = acc.make_preview(99);
    assert_eq!(a.account_id, b.account_id);
    assert_eq!(a.name, b.name);
    assert_eq!(a.cube, b.cube);
    assert_eq!(a.level_id, 1);
    assert_eq!(b.level_id, 99);
}

#[test]
fn scalar_round_trips() {
    let mut buf: Vec<u8> = Vec::new();
    (-1234i16).encode(&mut buf);
    0xBEEFu16.encode(&mut buf);
    (-100000i32).encode(&mut buf);
    assert_eq!(buf.len(), 8);
    let (a, p) = <i16 as Codec>::decode(&buf, 0).unwrap();
    let (b, p) = <u16 as Codec>::decode(&buf, p).unwrap();
    let (c, p) = <i32 as Codec>::decode(&buf, p).unwrap();
    assert_eq!((a, b, c, p), (-1234, 0xBEEF, -100000, 8));
}

#[test]
fn scalars_are_big_endian() {
    let mut buf: Vec<u8> = Vec::new();
    0x0102u16.encode(&mut buf);
    assert_eq!(buf, vec![1, 2]);
    let mut buf: Vec<u8> = Vec::new();
    0x01020304u32.encode(&mut buf);
    assert_eq!(buf, vec![1, 2, 3, 4]);
    let mut buf: Vec<u8> = Vec::new();
    (-1i32).encode(&mut buf);
    assert_eq!(buf, vec![255, 255, 255, 255]);
}

#[test]
fn icons_round_trip() {
    let v = sample_icons();
    let mut buf: Vec<u8> = Vec::new();
    v.encode(&mut buf);
    assert_eq!(buf.len(), v.known_size());
    assert_eq!(buf.len(), 24);
    let (w, end) = PlayerIconData::decode(&buf, 0).unwrap();
    assert_eq!(w, v);
    assert_eq!(end, 24);
}

#[test]
fn fast_string_round_trip() {
    let v = name(b"hello world");
    let mut buf: Vec<u8> = Vec::new();
    v.encode(&mut buf);
    assert_eq!(buf.len(), v.known_size());
    assert_eq!(buf.len(), 4 + 11);
    let (w, end) = FastString::decode(&buf, 0).unwrap();
    assert_eq!(w, v);
    assert_eq!(end, buf.len());
}

#[test]
fn fast_string_rejects_oversize_at_construction() {
    let long = vec![b'a'; MAX_NAME_SIZE + 1];
    assert!(FastString::try_new(long).is_none());
    let edge = vec![b'a'; MAX_NAME_SIZE];
    assert!(FastString::try_new(edge).is_some());
}

#[test]
fn fast_string_rejects_oversize_at_decode() {
    // Length prefix claims MAX_NAME_SIZE + 1 bytes, and they are even present:
    // the decode must still reject rather than truncate.
    let n = (MAX_NAME_SIZE + 1) as u32;
    let mut buf: Vec<u8> = Vec::new();
    n.encode(&mut buf);
    buf.extend(std::iter::repeat(b'x').take(MAX_NAME_SIZE + 1));
    assert_eq!(FastString::decode(&buf, 0), Err(DecodeError::StringTooLong));
}

#[test]
fn fast_string_truncated_payload_fails() {
    let mut buf: Vec<u8> = Vec::new();
    5u32.encode(&mut buf);
    buf.extend_from_slice(b"abc");
    assert_eq!(FastString::decode(&buf, 0), Err(DecodeError::NotEnoughData));
}

#[test]
fn color_round_trip() {
    let c = Color3B { r: 1, g: 128, b: 255 };
    let mut buf: Vec<u8> = Vec::new();
    c.encode(&mut buf);
    assert_eq!(buf, vec![1, 128, 255]);
    assert_eq!(c.known_size(), 3);
    let (d, end) = Color3B::decode(&buf, 0).unwrap();
    assert_eq!(d, c);
    assert_eq!(end, 3);
}

#[test]
fn account_round_trip_with_overlay() {
    let v = sample_account(Some(SpecialUserData {
        name_color: Color3B { r: 10, g: 20, b: 30 },
    }));
    let mut buf: Vec<u8> = Vec::new();
    v.encode(&mut buf);
    assert_eq!(buf.len(), v.known_size());
    let (w, end) = PlayerAccountData::decode(&buf, 0).unwrap();
    assert_eq!(w, v);
    assert_eq!(end, buf.len());
}

#[test]
fn account_round_trip_without_overlay() {
    let v = sample_account(None);
    let mut buf: Vec<u8> = Vec::new();
    v.encode(&mut buf);
    assert_eq!(buf.len(), v.known_size());
    let (w, end) = PlayerAccountData::decode(&buf, 0).unwrap();
    assert_eq!(w, v);
    assert_eq!(end, buf.len());
}

#[test]
fn absent_overlay_is_exactly_one_zero_byte() {
    let v = sample_account(None);
    let mut buf: Vec<u8> = Vec::new();
    v.encode(&mut buf);
    // account id (4) + name prefix (4) + "Bob" (3) + icons (24) + flag (1)
    assert_eq!(buf.len(), 4 + 4 + 3 + 24 + 1);
    assert_eq!(*buf.last().unwrap(), 0);
}

#[test]
fn present_overlay_adds_flag_and_payload() {
    let v = sample_account(Some(SpecialUserData {
        name_color: Color3B { r: 10, g: 20, b: 30 },
    }));
    let mut buf: Vec<u8> = Vec::new();
    v.encode(&mut buf);
    assert_eq!(buf.len(), 4 + 4 + 3 + 24 + 1 + 3);
    assert_eq!(&buf[buf.len() - 4..], &[1, 10, 20, 30]);
}

#[test]
fn nonzero_flag_means_present() {
    let v = sample_account(Some(SpecialUserData {
        name_color: Color3B { r: 10, g: 20, b: 30 },
    }));
    let mut buf: Vec<u8> = Vec::new();
    v.encode(&mut buf);
    let flag_at = buf.len() - 4;
    buf[flag_at] = 2;
    let (w, _) = PlayerAccountData::decode(&buf, 0).unwrap();
    assert_eq!(w.special_user_data, v.special_user_data);
}

#[test]
fn preview_round_trip() {
    let v = PlayerPreviewAccountData {
        account_id: 42,
        name: name(b"Bob"),
        cube: 7,
        color1: 2,
        color2: 9,
        level_id: 5,
    };
    let mut buf: Vec<u8> = Vec::new();
    v.encode(&mut buf);
    assert_eq!(buf.len(), v.known_size());
    assert_eq!(buf.len(), 4 + 4 + 3 + 2 + 2 + 2 + 4);
    let (w, end) = PlayerPreviewAccountData::decode(&buf, 0).unwrap();
    assert_eq!(w, v);
    assert_eq!(end, buf.len());
}

#[test]
fn player_data_encodes_as_zero_bytes() {
    let v = PlayerData::default();
    let mut buf: Vec<u8> = Vec::new();
    v.encode(&mut buf);
    assert_eq!(buf.len(), 0);
    assert_eq!(v.known_size(), 0);
    let (w, end) = PlayerData::decode(&buf, 0).unwrap();
    assert_eq!(w, v);
    assert_eq!(end, 0);
}

#[test]
fn metadata_round_trip() {
    let v = PlayerMetadata { percentage: 93, attempts: -4 };
    let mut buf: Vec<u8> = Vec::new();
    v.encode(&mut buf);
    assert_eq!(buf.len(), v.known_size());
    assert_eq!(buf.len(), 6);
    let (w, end) = PlayerMetadata::decode(&buf, 0).unwrap();
    assert_eq!(w, v);
    assert_eq!(end, 6);
}

#[test]
fn associated_wrappers_round_trip() {
    let a = AssociatedPlayerData { account_id: 77, data: PlayerData {} };
    let mut buf: Vec<u8> = Vec::new();
    a.encode(&mut buf);
    assert_eq!(buf.len(), a.known_size());
    assert_eq!(buf.len(), 4);
    let (w, end) = AssociatedPlayerData::decode(&buf, 0).unwrap();
    assert_eq!(w, a);
    assert_eq!(end, 4);

    let m = AssociatedPlayerMetadata {
        account_id: 77,
        data: PlayerMetadata { percentage: 50, attempts: 3 },
    };
    let mut buf: Vec<u8> = Vec::new();
    m.encode(&mut buf);
    assert_eq!(buf.len(), m.known_size());
    assert_eq!(buf.len(), 10);
    let (w, end) = AssociatedPlayerMetadata::decode(&buf, 0).unwrap();
    assert_eq!(w, m);
    assert_eq!(end, 10);
}

#[test]
fn truncated_buffers_fail_with_not_enough_data() {
    let v = sample_account(None);
    let mut buf: Vec<u8> = Vec::new();
    v.encode(&mut buf);
    for cut in 0..buf.len() {
        let short = buf[..cut].to_vec();
        assert_eq!(
            PlayerAccountData::decode(&short, 0),
            Err(DecodeError::NotEnoughData),
            "cut at {cut}"
        );
    }
}

#[test]
fn decode_at_offset_reads_mid_buffer() {
    let v = PlayerMetadata { percentage: 7, attempts: 9 };
    let mut buf: Vec<u8> = vec![0xAA, 0xBB];
    v.encode(&mut buf);
    let (w, end) = PlayerMetadata::decode(&buf, 2).unwrap();
    assert_eq!(w, v);
    assert_eq!(end, 8);
}
