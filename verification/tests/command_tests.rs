use drive_core::command::parse;
use drive_core::motor::Direction;

#[test]
fn parse_direction_and_enable() {
    let r = parse(b"fwd-down").unwrap();
    assert_eq!(r.intent.direction, Some(Direction::Forward));
    assert_eq!(r.intent.enable, Some(true));
    assert!(!r.unknown_direction);
    assert!(!r.unknown_state);
}

#[test]
fn parse_direction_only() {
    let r = parse(b"left").unwrap();
    assert_eq!(r.intent.direction, Some(Direction::Left));
    assert_eq!(r.intent.enable, None);
    assert!(!r.unknown_direction);
    assert!(!r.unknown_state);
}

#[test]
fn parse_back_up() {
    let r = parse(b"back-up").unwrap();
    assert_eq!(r.intent.direction, Some(Direction::Back));
    assert_eq!(r.intent.enable, Some(false));
    assert!(!r.unknown_direction);
    assert!(!r.unknown_state);
}

#[test]
fn parse_right_down() {
    let r = parse(b"right-down").unwrap();
    assert_eq!(r.intent.direction, Some(Direction::Right));
    assert_eq!(r.intent.enable, Some(true));
}

#[test]
fn parse_unknown_direction_keeps_state() {
    let r = parse(b"xyz-down").unwrap();
    assert_eq!(r.intent.direction, None);
    assert_eq!(r.intent.enable, Some(true));
    assert!(r.unknown_direction);
    assert!(!r.unknown_state);
}

#[test]
fn parse_empty_input() {
    let r = parse(b"").unwrap();
    assert_eq!(r.intent.direction, None);
    assert_eq!(r.intent.enable, None);
    assert!(r.unknown_direction);
    assert!(!r.unknown_state);
}

#[test]
fn parse_unknown_state_keeps_direction() {
    let r = parse(b"fwd-sideways").unwrap();
    assert_eq!(r.intent.direction, Some(Direction::Forward));
    assert_eq!(r.intent.enable, None);
    assert!(!r.unknown_direction);
    assert!(r.unknown_state);
}

#[test]
fn parse_empty_state_token_is_unknown() {
    let r = parse(b"fwd-").unwrap();
    assert_eq!(r.intent.direction, Some(Direction::Forward));
    assert_eq!(r.intent.enable, None);
    assert!(r.unknown_state);
}

#[test]
fn parse_missing_state_token_is_not_diagnosed() {
    let r = parse(b"fwd").unwrap();
    assert_eq!(r.intent.direction, Some(Direction::Forward));
    assert_eq!(r.intent.enable, None);
    assert!(!r.unknown_state);
}

#[test]
fn parse_ignores_third_token() {
    let r = parse(b"right-down-extra").unwrap();
    assert_eq!(r.intent.direction, Some(Direction::Right));
    assert_eq!(r.intent.enable, Some(true));
}

#[test]
fn parse_is_case_sensitive() {
    let r = parse(b"FWD-DOWN").unwrap();
    assert_eq!(r.intent.direction, None);
    assert_eq!(r.intent.enable, None);
    assert!(r.unknown_direction);
    assert!(r.unknown_state);
}

#[test]
fn parse_strips_trailing_null_padding() {
    let r = parse(b"fwd-down\0\0\0").unwrap();
    assert_eq!(r.intent.direction, Some(Direction::Forward));
    assert_eq!(r.intent.enable, Some(true));
}

#[test]
fn parse_rejects_invalid_utf8() {
    assert!(parse(&[0xff]).is_none());
    assert!(parse(&[0x66, 0x77, 0x64, 0x80]).is_none());
}

#[test]
fn parse_rejects_truncated_sequence() {
    assert!(parse(&[0xc3]).is_none());
    assert!(parse(&[0xe2, 0x82]).is_none());
    assert!(parse(&[0xf0, 0x9f, 0x98]).is_none());
}

#[test]
fn parse_rejects_overlong_encoding() {
    assert!(parse(&[0xc0, 0xaf]).is_none());
    assert!(parse(&[0xe0, 0x80, 0x80]).is_none());
    assert!(parse(&[0xf0, 0x80, 0x80, 0x80]).is_none());
}

#[test]
fn parse_rejects_surrogates_and_out_of_range() {
    assert!(parse(&[0xed, 0xa0, 0x80]).is_none());
    assert!(parse(&[0xf4, 0x90, 0x80, 0x80]).is_none());
    assert!(parse(&[0xf5, 0x80, 0x80, 0x80]).is_none());
}

#[test]
fn parse_accepts_multibyte_text() {
    // "é-down": a valid two-byte character is decodable but is not a
    // known direction word.
    let r = parse(&[0xc3, 0xa9, 0x2d, 0x64, 0x6f, 0x77, 0x6e]).unwrap();
    assert_eq!(r.intent.direction, None);
    assert_eq!(r.intent.enable, Some(true));
    assert!(r.unknown_direction);

    // A valid three-byte and four-byte character decode too.
    assert!(parse(&[0xe2, 0x82, 0xac]).is_some());
    assert!(parse(&[0xf0, 0x9f, 0x98, 0x80]).is_some());
}
