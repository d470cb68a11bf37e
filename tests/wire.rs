use user_service::wire::{classify, get_body, get_id, parse_i32, starts_with, Selector};

#[test]
fn classify_each_prefix() {
    assert_eq!(classify(b"POST /users HTTP/1.1\r\n\r\n{}"), Selector::Create);
    assert_eq!(classify(b"GET /users/7 HTTP/1.1\r\n\r\n"), Selector::ReadOne);
    assert_eq!(classify(b"GET /users HTTP/1.1\r\n\r\n"), Selector::ReadAll);
    assert_eq!(classify(b"PUT /users/7 HTTP/1.1\r\n\r\n{}"), Selector::Update);
    assert_eq!(classify(b"DELETE /users/7 HTTP/1.1\r\n\r\n"), Selector::Delete);
}

#[test]
fn classify_unrecognized() {
    assert_eq!(classify(b"GET /items HTTP/1.1\r\n\r\n"), Selector::Unrecognized);
    assert_eq!(classify(b"DELETE /users HTTP/1.1\r\n\r\n"), Selector::Unrecognized);
    assert_eq!(classify(b""), Selector::Unrecognized);
}

#[test]
fn trailing_slash_selects_read_one() {
    assert_eq!(classify(b"GET /users/ HTTP/1.1\r\n\r\n"), Selector::ReadOne);
    assert_eq!(get_id(b"GET /users/ HTTP/1.1\r\n\r\n"), None);
}

#[test]
fn id_from_third_segment() {
    assert_eq!(get_id(b"GET /users/42 HTTP/1.1\r\nHost: x\r\n\r\n"), Some(42));
    assert_eq!(get_id(b"DELETE /users/-3 HTTP/1.1\r\n\r\n"), Some(-3));
    assert_eq!(get_id(b"GET /users/+8"), Some(8));
    assert_eq!(get_id(b"GET /users/12x HTTP/1.1"), None);
    assert_eq!(get_id(b"PUT /users HTTP/1.1\r\n\r\n{}"), None);
    assert_eq!(get_id(b"GET users"), None);
}

#[test]
fn parse_i32_limits() {
    assert_eq!(parse_i32(b"2147483647"), Some(2147483647));
    assert_eq!(parse_i32(b"2147483648"), None);
    assert_eq!(parse_i32(b"-2147483648"), Some(-2147483648));
    assert_eq!(parse_i32(b"-2147483649"), None);
    assert_eq!(parse_i32(b"99999999999999999999999"), None);
    assert_eq!(parse_i32(b"007"), Some(7));
    assert_eq!(parse_i32(b""), None);
    assert_eq!(parse_i32(b"-"), None);
    assert_eq!(parse_i32(b"+"), None);
    assert_eq!(parse_i32(b"1 2"), None);
}

#[test]
fn body_after_first_blank_line() {
    assert_eq!(
        get_body(b"POST /users HTTP/1.1\r\nHost: x\r\n\r\n{\"name\":\"A\"}"),
        b"{\"name\":\"A\"}".to_vec()
    );
    assert_eq!(get_body(b"POST /users HTTP/1.1\r\n\r\na\r\n\r\nb"), b"a\r\n\r\nb".to_vec());
    assert_eq!(get_body(b"POST /users HTTP/1.1\r\n"), Vec::<u8>::new());
    assert_eq!(get_body(b"POST /users\r\n\r\n"), Vec::<u8>::new());
}

#[test]
fn prefix_test() {
    assert!(starts_with(b"abc", b"ab"));
    assert!(starts_with(b"abc", b""));
    assert!(!starts_with(b"ab", b"abc"));
    assert!(!starts_with(b"abc", b"b"));
}
