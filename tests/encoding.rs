use user_service::json::{push_int, to_json, to_json_array};
use user_service::models::User;

fn user(id: Option<i32>, name: &str, email: &str) -> User {
    User::new(id, name.to_string(), email.to_string())
}

#[test]
fn integer_text() {
    let mut s = String::new();
    push_int(&mut s, 0);
    push_int(&mut s, -2147483648);
    s.push(' ');
    push_int(&mut s, 2147483647);
    s.push(' ');
    push_int(&mut s, 105);
    assert_eq!(s, "0-2147483648 2147483647 105");
}

#[test]
fn record_json() {
    assert_eq!(
        to_json(&user(Some(1), "A", "a@x.com")),
        "{\"id\":1,\"name\":\"A\",\"email\":\"a@x.com\"}"
    );
    assert_eq!(to_json(&user(None, "", "e")), "{\"id\":null,\"name\":\"\",\"email\":\"e\"}");
}

#[test]
fn record_json_escapes_strings() {
    assert_eq!(
        to_json(&user(Some(-5), "a\"b\\c", "l\ne")),
        "{\"id\":-5,\"name\":\"a\\\"b\\\\c\",\"email\":\"l\\ne\"}"
    );
}

#[test]
fn array_json() {
    assert_eq!(to_json_array(&Vec::new()), "[]");
    assert_eq!(
        to_json_array(&vec![user(Some(1), "A", "a"), user(Some(2), "B", "b")]),
        "[{\"id\":1,\"name\":\"A\",\"email\":\"a\"},{\"id\":2,\"name\":\"B\",\"email\":\"b\"}]"
    );
}
