use player_records::color::{Color3B, ColorParseError};
use player_records::player::{SpecialUser, SpecialUserData};

#[test]
fn well_formed_input_parses_exactly() {
    assert_eq!(Color3B::parse("255,0,128"), Ok(Color3B { r: 255, g: 0, b: 128 }));
    assert_eq!(Color3B::parse("0,0,0"), Ok(Color3B { r: 0, g: 0, b: 0 }));
    assert_eq!(Color3B::parse("1,2,3"), Ok(Color3B { r: 1, g: 2, b: 3 }));
}

#[test]
fn leading_zeros_are_digits_too() {
    assert_eq!(Color3B::parse("007,08,9"), Ok(Color3B { r: 7, g: 8, b: 9 }));
}

#[test]
fn wrong_component_count_is_rejected() {
    assert_eq!(Color3B::parse(""), Err(ColorParseError::WrongComponentCount));
    assert_eq!(Color3B::parse("1"), Err(ColorParseError::WrongComponentCount));
    assert_eq!(Color3B::parse("1,2"), Err(ColorParseError::WrongComponentCount));
    assert_eq!(Color3B::parse("1,2,3,4"), Err(ColorParseError::WrongComponentCount));
    assert_eq!(Color3B::parse("1,2,3,"), Err(ColorParseError::WrongComponentCount));
}

#[test]
fn out_of_range_channel_is_rejected_not_clamped() {
    assert_eq!(Color3B::parse("256,0,0"), Err(ColorParseError::OutOfRange));
    assert_eq!(Color3B::parse("0,999,0"), Err(ColorParseError::OutOfRange));
    assert_eq!(Color3B::parse("0,0,10000000000000000000000"), Err(ColorParseError::OutOfRange));
}

#[test]
fn malformed_channels_are_rejected() {
    assert_eq!(Color3B::parse("a,0,0"), Err(ColorParseError::Malformed));
    assert_eq!(Color3B::parse("1, 2,3"), Err(ColorParseError::Malformed));
    assert_eq!(Color3B::parse(",,"), Err(ColorParseError::Malformed));
    assert_eq!(Color3B::parse("1,,3"), Err(ColorParseError::Malformed));
    assert_eq!(Color3B::parse("-1,0,0"), Err(ColorParseError::Malformed));
    assert_eq!(Color3B::parse("1,2,3x"), Err(ColorParseError::Malformed));
}

#[test]
fn non_ascii_input_is_malformed() {
    assert_eq!(Color3B::parse("ü,0,0"), Err(ColorParseError::Malformed));
    assert_eq!(Color3B::parse("２,0,0"), Err(ColorParseError::Malformed));
}

#[test]
fn first_failing_channel_decides_the_error() {
    // The malformed first channel is reported even though the second is
    // out of range.
    assert_eq!(Color3B::parse("x,300,0"), Err(ColorParseError::Malformed));
    // The out-of-range second channel is reported before the malformed third.
    assert_eq!(Color3B::parse("1,300,x"), Err(ColorParseError::OutOfRange));
}

#[test]
fn special_user_data_from_descriptor() {
    let user = SpecialUser {
        account_id: 42,
        name: String::from("Bob"),
        color: String::from("12,34,56"),
    };
    let s = SpecialUserData::try_from_user(&user).unwrap();
    assert_eq!(s.name_color, Color3B { r: 12, g: 34, b: 56 });
}

#[test]
fn special_user_data_surfaces_the_parse_error_unchanged() {
    let user = SpecialUser {
        account_id: 42,
        name: String::from("Bob"),
        color: String::from("12,34"),
    };
    assert_eq!(
        SpecialUserData::try_from_user(&user),
        Err(ColorParseError::WrongComponentCount)
    );
}
