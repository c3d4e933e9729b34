use winfocus::window::{focus_token, Direction};

#[test]
fn the_four_direction_tokens_parse() {
    assert_eq!(Direction::parse("left"), Some(Direction::Left));
    assert_eq!(Direction::parse("right"), Some(Direction::Right));
    assert_eq!(Direction::parse("up"), Some(Direction::Up));
    assert_eq!(Direction::parse("down"), Some(Direction::Down));
}

#[test]
fn unknown_direction_tokens_are_rejected() {
    assert_eq!(Direction::parse(""), None);
    assert_eq!(Direction::parse("north"), None);
    assert_eq!(Direction::parse("lefty"), None);
    assert_eq!(Direction::parse("lef"), None);
}

#[test]
fn direction_tokens_are_case_sensitive() {
    assert_eq!(Direction::parse("Left"), None);
    assert_eq!(Direction::parse("UP"), None);
}

#[test]
fn focus_token_is_the_id_in_hexadecimal() {
    assert_eq!(focus_token(0), b"0x0".to_vec());
    assert_eq!(focus_token(10), b"0xa".to_vec());
    assert_eq!(focus_token(255), b"0xff".to_vec());
    assert_eq!(focus_token(0x04a0_0007), b"0x4a00007".to_vec());
    assert_eq!(focus_token(u32::MAX), b"0xffffffff".to_vec());
}
