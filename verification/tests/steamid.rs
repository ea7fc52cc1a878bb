use tf2_lobby::models::steamid::{SteamID, STEAM_ID64_BASE};

#[test]
fn steam_id32_is_an_offset_from_the_base() {
    assert_eq!(STEAM_ID64_BASE, 76561197960265728);
    assert_eq!(SteamID::from_steam_id32("[U:1:111]"), Some(SteamID(76561197960265839)));
    assert_eq!(SteamID::from_steam_id32("[U:1:0]"), Some(SteamID(76561197960265728)));
    assert_eq!(SteamID::from_steam_id32("[U:1:22202]"), Some(SteamID(76561197960287930)));
}

#[test]
fn steam_id32_takes_the_greatest_account_id() {
    assert_eq!(
        SteamID::from_steam_id32("[U:1:4294967295]"),
        Some(SteamID(76561197960265728 + 4294967295))
    );
    assert_eq!(SteamID::from_steam_id32("[U:1:4294967296]"), None);
    assert_eq!(SteamID::from_steam_id32("[U:1:99999999999999999999999999]"), None);
}

#[test]
fn steam_id32_takes_leading_zeros() {
    assert_eq!(SteamID::from_steam_id32("[U:1:000111]"), Some(SteamID(76561197960265839)));
}

#[test]
fn steam_id32_refuses_what_is_not_in_the_form() {
    assert_eq!(SteamID::from_steam_id32(""), None);
    assert_eq!(SteamID::from_steam_id32("[U:1:]"), None);
    assert_eq!(SteamID::from_steam_id32("[U:1:111"), None);
    assert_eq!(SteamID::from_steam_id32("U:1:111]"), None);
    assert_eq!(SteamID::from_steam_id32("[U:2:111]"), None);
    assert_eq!(SteamID::from_steam_id32("[G:1:111]"), None);
    assert_eq!(SteamID::from_steam_id32("[U:1:11a]"), None);
    assert_eq!(SteamID::from_steam_id32("[U:1:-11]"), None);
    assert_eq!(SteamID::from_steam_id32("[U:1:+11]"), None);
    assert_eq!(SteamID::from_steam_id32("[U:1:111] "), None);
    assert_eq!(SteamID::from_steam_id32(" [U:1:111]"), None);
    assert_eq!(SteamID::from_steam_id32("[U:1:1١1]"), None);
    assert_eq!(SteamID::from_steam_id32("[U:1:111é"), None);
    assert_eq!(SteamID::from_steam_id32("76561197960265839"), None);
}

#[test]
fn u64_string_is_a_decimal_number() {
    assert_eq!(SteamID::from_u64_string("76561197960265839"), Some(SteamID(76561197960265839)));
    assert_eq!(SteamID::from_u64_string("0"), Some(SteamID(0)));
    assert_eq!(SteamID::from_u64_string("007"), Some(SteamID(7)));
    assert_eq!(SteamID::from_u64_string("18446744073709551615"), Some(SteamID(u64::MAX)));
}

#[test]
fn u64_string_refuses_what_is_not_a_number_of_64_bits() {
    assert_eq!(SteamID::from_u64_string(""), None);
    assert_eq!(SteamID::from_u64_string("18446744073709551616"), None);
    assert_eq!(SteamID::from_u64_string("184467440737095516150"), None);
    assert_eq!(SteamID::from_u64_string("+5"), None);
    assert_eq!(SteamID::from_u64_string("-5"), None);
    assert_eq!(SteamID::from_u64_string("5 "), None);
    assert_eq!(SteamID::from_u64_string("12x"), None);
    assert_eq!(SteamID::from_u64_string("[U:1:111]"), None);
    assert_eq!(SteamID::from_u64_string("１２"), None);
}

#[test]
fn both_forms_give_one_identity() {
    let legacy = SteamID::from_steam_id32("[U:1:111]").unwrap();
    let modern = SteamID::from_u64_string("76561197960265839").unwrap();
    assert_eq!(legacy, modern);
    assert_eq!(legacy.to_u64(), modern.to_u64());
    assert_ne!(legacy, SteamID::from_steam_id32("[U:1:112]").unwrap());
}

#[test]
fn identity_round_trips_through_its_number() {
    assert_eq!(SteamID::from_u64(42).to_u64(), 42);
    assert_eq!(SteamID::from_u64(42), SteamID(42));
    assert_eq!(SteamID::default(), SteamID(0));
}
