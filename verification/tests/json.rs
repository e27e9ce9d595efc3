use user_service::json::{
    get_user_request_body, user_from_members, user_json, user_object, users_json, BodyError,
};
use user_service::user::User;

fn user(id: Option<i32>, name: &str, email: &str) -> User {
    User { id, name: name.to_string(), email: email.to_string() }
}

#[test]
fn body_with_name_and_email_gives_a_user() {
    assert_eq!(
        get_user_request_body("{\"name\":\"Bob\",\"email\":\"b@y.com\"}"),
        Ok(user(None, "Bob", "b@y.com"))
    );
}

#[test]
fn body_may_be_spaced_and_ordered_freely() {
    assert_eq!(
        get_user_request_body(" {\n \"email\" : \"a@x.com\" ,\n \"name\" : \"Alice\"\n}\n"),
        Ok(user(None, "Alice", "a@x.com"))
    );
}

#[test]
fn body_id_is_ignored() {
    assert_eq!(
        get_user_request_body("{\"id\":7,\"name\":\"Bob\",\"email\":\"b@y.com\"}"),
        Ok(user(None, "Bob", "b@y.com"))
    );
    assert_eq!(
        get_user_request_body("{\"id\":\"seven\",\"name\":\"Bob\",\"email\":\"b@y.com\"}"),
        Ok(user(None, "Bob", "b@y.com"))
    );
    assert_eq!(
        get_user_request_body("{\"id\":null,\"name\":\"Bob\",\"email\":\"b@y.com\",\"age\":3}"),
        Ok(user(None, "Bob", "b@y.com"))
    );
}

#[test]
fn body_texts_are_unescaped() {
    assert_eq!(
        get_user_request_body("{\"name\":\"B\\\"o\\\\b\\n\\u00e9\",\"email\":\"\\u0040\"}"),
        Ok(user(None, "B\"o\\b\n\u{e9}", "@"))
    );
}

#[test]
fn body_that_is_no_json_is_refused() {
    assert_eq!(get_user_request_body(""), Err(BodyError::NotJson));
    assert_eq!(get_user_request_body("name=Bob"), Err(BodyError::NotJson));
    assert_eq!(get_user_request_body("{\"name\":\"Bob\""), Err(BodyError::NotJson));
    assert_eq!(
        get_user_request_body("{\"name\":\"Bob\",\"email\":\"b@y.com\"} x"),
        Err(BodyError::NotJson)
    );
    assert_eq!(
        get_user_request_body("{'name':'Bob','email':'b@y.com'}"),
        Err(BodyError::NotJson)
    );
}

#[test]
fn body_without_text_name_is_refused() {
    assert_eq!(get_user_request_body("{}"), Err(BodyError::NoName));
    assert_eq!(get_user_request_body("{\"email\":\"b@y.com\"}"), Err(BodyError::NoName));
    assert_eq!(
        get_user_request_body("{\"name\":5,\"email\":\"b@y.com\"}"),
        Err(BodyError::NoName)
    );
    assert_eq!(
        get_user_request_body("{\"name\":null,\"email\":\"b@y.com\"}"),
        Err(BodyError::NoName)
    );
    assert_eq!(
        get_user_request_body("{\"Name\":\"Bob\",\"email\":\"b@y.com\"}"),
        Err(BodyError::NoName)
    );
}

#[test]
fn body_without_text_email_is_refused() {
    assert_eq!(get_user_request_body("{\"name\":\"Bob\"}"), Err(BodyError::NoEmail));
    assert_eq!(
        get_user_request_body("{\"name\":\"Bob\",\"email\":[\"b@y.com\"]}"),
        Err(BodyError::NoEmail)
    );
}

#[test]
fn body_with_empty_name_is_refused() {
    assert_eq!(
        get_user_request_body("{\"name\":\"\",\"email\":\"b@y.com\"}"),
        Err(BodyError::EmptyName)
    );
    assert_eq!(
        get_user_request_body("{\"name\":\"\",\"email\":\"\"}"),
        Err(BodyError::EmptyName)
    );
}

#[test]
fn body_with_empty_email_is_refused() {
    assert_eq!(
        get_user_request_body("{\"name\":\"Bob\",\"email\":\"\"}"),
        Err(BodyError::EmptyEmail)
    );
}

#[test]
fn body_tells_what_is_missing_before_what_is_empty() {
    assert_eq!(get_user_request_body("{\"email\":\"\"}"), Err(BodyError::NoName));
    assert_eq!(get_user_request_body("{\"name\":\"\"}"), Err(BodyError::NoEmail));
    assert_eq!(
        get_user_request_body("{\"name\":\"\",\"email\":7}"),
        Err(BodyError::NoEmail)
    );
}

#[test]
fn body_with_one_space_as_name_is_a_user() {
    assert_eq!(
        get_user_request_body("{\"name\":\" \",\"email\":\"\\u0000\"}"),
        Ok(user(None, " ", "\u{0}"))
    );
}

#[test]
fn body_that_is_no_object_has_no_name() {
    assert_eq!(get_user_request_body("[\"Bob\",\"b@y.com\"]"), Err(BodyError::NoName));
    assert_eq!(get_user_request_body("\"name\""), Err(BodyError::NoName));
    assert_eq!(get_user_request_body("42"), Err(BodyError::NoName));
    assert_eq!(get_user_request_body("null"), Err(BodyError::NoName));
}

#[test]
fn members_give_a_user_or_the_first_that_is_missing() {
    assert_eq!(
        user_from_members(Some("Bob".to_string()), Some("b@y.com".to_string())),
        Ok(user(None, "Bob", "b@y.com"))
    );
    assert_eq!(user_from_members(None, Some("b@y.com".to_string())), Err(BodyError::NoName));
    assert_eq!(user_from_members(Some("Bob".to_string()), None), Err(BodyError::NoEmail));
    assert_eq!(user_from_members(None, None), Err(BodyError::NoName));
}

#[test]
fn members_that_are_empty_give_no_user() {
    assert_eq!(
        user_from_members(Some(String::new()), Some("b@y.com".to_string())),
        Err(BodyError::EmptyName)
    );
    assert_eq!(
        user_from_members(Some("Bob".to_string()), Some(String::new())),
        Err(BodyError::EmptyEmail)
    );
    assert_eq!(
        user_from_members(Some(String::new()), Some(String::new())),
        Err(BodyError::EmptyName)
    );
    assert_eq!(user_from_members(Some(String::new()), None), Err(BodyError::NoEmail));
    assert_eq!(user_from_members(None, Some(String::new())), Err(BodyError::NoName));
}

#[test]
fn user_object_lays_out_three_members() {
    assert_eq!(
        user_object(Some(1), "\"Bob\"", "\"b@y.com\""),
        "{\"id\":1,\"name\":\"Bob\",\"email\":\"b@y.com\"}"
    );
    assert_eq!(user_object(None, "\"\"", "\"\""), "{\"id\":null,\"name\":\"\",\"email\":\"\"}");
    assert_eq!(
        user_object(Some(-2147483648), "n", "e"),
        "{\"id\":-2147483648,\"name\":n,\"email\":e}"
    );
}

#[test]
fn user_json_quotes_name_and_email() {
    assert_eq!(
        user_json(&user(Some(1), "Alice", "a@x.com")),
        "{\"id\":1,\"name\":\"Alice\",\"email\":\"a@x.com\"}"
    );
}

#[test]
fn user_json_writes_null_for_missing_id() {
    assert_eq!(
        user_json(&user(None, "Alice", "a@x.com")),
        "{\"id\":null,\"name\":\"Alice\",\"email\":\"a@x.com\"}"
    );
}

#[test]
fn user_json_escapes_what_json_needs() {
    assert_eq!(
        user_json(&user(Some(2), "B\"o\\b", "line\nbreak\t\u{1}\u{e9}")),
        "{\"id\":2,\"name\":\"B\\\"o\\\\b\",\"email\":\"line\\nbreak\\t\\u0001\u{e9}\"}"
    );
}

#[test]
fn user_json_uses_short_escapes_where_json_has_them() {
    assert_eq!(
        user_json(&user(Some(1), "\u{8}\t\n\u{c}\r", "\"\\")),
        "{\"id\":1,\"name\":\"\\b\\t\\n\\f\\r\",\"email\":\"\\\"\\\\\"}"
    );
}

#[test]
fn user_json_writes_other_controls_as_four_hex_digits() {
    assert_eq!(
        user_json(&user(Some(1), "\u{0}\u{1}\u{b}\u{e}", "\u{f}\u{10}\u{1a}\u{1f}")),
        "{\"id\":1,\"name\":\"\\u0000\\u0001\\u000b\\u000e\",\"email\":\"\\u000f\\u0010\\u001a\\u001f\"}"
    );
}

#[test]
fn user_json_leaves_every_other_character_as_it_is() {
    assert_eq!(
        user_json(&user(Some(1), " /'<&\u{7f}", "\u{80}\u{e9}\u{2028}\u{1f600}")),
        "{\"id\":1,\"name\":\" /'<&\u{7f}\",\"email\":\"\u{80}\u{e9}\u{2028}\u{1f600}\"}"
    );
}

fn quoted(c: char) -> String {
    let inside = match c {
        '"' => "\\\"".to_string(),
        '\\' => "\\\\".to_string(),
        '\u{8}' => "\\b".to_string(),
        '\t' => "\\t".to_string(),
        '\n' => "\\n".to_string(),
        '\u{c}' => "\\f".to_string(),
        '\r' => "\\r".to_string(),
        c if (c as u32) < 0x20 => format!("\\u00{:02x}", c as u32),
        c => c.to_string(),
    };
    format!("\"{}\"", inside)
}

#[test]
fn user_json_quotes_every_character_by_the_same_rule() {
    let mut code = 0u32;
    while code <= 0x10ffff {
        if let Some(c) = char::from_u32(code) {
            let text = format!("a{}z", c);
            let expected = format!(
                "{{\"id\":1,\"name\":\"a{}z\",\"email\":{}}}",
                &quoted(c)[1..quoted(c).len() - 1],
                quoted(c)
            );
            assert_eq!(user_json(&user(Some(1), &text, &c.to_string())), expected);
        }
        code += if code < 0x3000 { 1 } else { 257 };
    }
}

#[test]
fn user_json_of_empty_texts_has_empty_literals() {
    assert_eq!(user_json(&user(None, "", "")), "{\"id\":null,\"name\":\"\",\"email\":\"\"}");
}

#[test]
fn users_json_of_nothing_is_empty_array() {
    assert_eq!(users_json(&[]), "[]");
}

#[test]
fn users_json_puts_commas_between_users() {
    assert_eq!(users_json(&[user(Some(1), "A", "a")]), "[{\"id\":1,\"name\":\"A\",\"email\":\"a\"}]");
    assert_eq!(
        users_json(&[user(Some(1), "A", "a"), user(Some(2), "B", "b"), user(Some(5), "C", "c")]),
        "[{\"id\":1,\"name\":\"A\",\"email\":\"a\"},{\"id\":2,\"name\":\"B\",\"email\":\"b\"},{\"id\":5,\"name\":\"C\",\"email\":\"c\"}]"
    );
}

#[test]
fn user_json_is_read_back_as_the_same_user() {
    let written = user_json(&user(Some(9), "Zoë \"Z\"", "z\\@x.com"));
    assert_eq!(get_user_request_body(&written), Ok(user(None, "Zoë \"Z\"", "z\\@x.com")));
}

#[test]
fn user_json_agrees_with_serde_json() {
    let value = serde_json::from_str::<serde_json::Value>(&user_json(&user(Some(3), "a\u{8}b", "\u{c}\r/")))
        .unwrap();
    assert_eq!(value.get("id").and_then(|id| id.as_i64()), Some(3));
    assert_eq!(value.get("name").and_then(|name| name.as_str()), Some("a\u{8}b"));
    assert_eq!(value.get("email").and_then(|email| email.as_str()), Some("\u{c}\r/"));
}
