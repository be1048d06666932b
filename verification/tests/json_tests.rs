use user_service::json::{user_to_json, users_to_json};
use user_service::user::User;

fn user(id: Option<i32>, name: &str, email: &str) -> User {
    User {
        id,
        name: String::from(name),
        email: String::from(email),
    }
}

#[test]
fn user_with_id_serializes_to_full_object() {
    let u = user(Some(1), "Ada", "ada@example.com");
    assert_eq!(
        user_to_json(&u),
        "{\"id\":1,\"name\":\"Ada\",\"email\":\"ada@example.com\"}"
    );
}

#[test]
fn user_without_id_omits_the_id_field() {
    let u = user(None, "Ada", "ada@example.com");
    assert_eq!(
        user_to_json(&u),
        "{\"name\":\"Ada\",\"email\":\"ada@example.com\"}"
    );
}

#[test]
fn negative_and_extreme_ids_render_in_decimal() {
    let u = user(Some(-12), "a", "b");
    assert_eq!(user_to_json(&u), "{\"id\":-12,\"name\":\"a\",\"email\":\"b\"}");
    let u = user(Some(i32::MAX), "a", "b");
    assert_eq!(
        user_to_json(&u),
        "{\"id\":2147483647,\"name\":\"a\",\"email\":\"b\"}"
    );
    let u = user(Some(i32::MIN), "a", "b");
    assert_eq!(
        user_to_json(&u),
        "{\"id\":-2147483648,\"name\":\"a\",\"email\":\"b\"}"
    );
}

#[test]
fn text_fields_are_escaped() {
    let u = user(Some(1), "a\"b\\c", "x\ny\tz\r");
    assert_eq!(
        user_to_json(&u),
        "{\"id\":1,\"name\":\"a\\\"b\\\\c\",\"email\":\"x\\ny\\tz\\r\"}"
    );
    let u = user(None, "\u{1}", "\u{1f}");
    assert_eq!(
        user_to_json(&u),
        "{\"name\":\"\\u0001\",\"email\":\"\\u001f\"}"
    );
}

#[test]
fn empty_listing_is_the_empty_array() {
    let users: Vec<User> = Vec::new();
    assert_eq!(users_to_json(&users), "[]");
}

#[test]
fn listing_separates_users_with_commas() {
    let users = vec![
        user(Some(1), "Ada", "ada@example.com"),
        user(Some(2), "Grace", "grace@example.com"),
    ];
    assert_eq!(
        users_to_json(&users),
        "[{\"id\":1,\"name\":\"Ada\",\"email\":\"ada@example.com\"},{\"id\":2,\"name\":\"Grace\",\"email\":\"grace@example.com\"}]"
    );
}
