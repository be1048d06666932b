use user_service::service::{cors_allows_method, debug_handler, handler, serve};
use user_service::table::UserTable;
use user_service::user::User;

#[test]
fn hello_world() {
    let mut table = UserTable::new();
    let response = serve(&mut table, "GET", "/", None);
    assert_eq!(response.status, 200);
    assert_eq!(response.body.as_bytes(), b"Let's Get Rusty!");
}

#[test]
fn handler_returns_liveness_text() {
    assert_eq!(handler(), "Let's Get Rusty!");
}

#[test]
fn debug_route_answers_diagnostic_text() {
    let mut table = UserTable::new();
    let response = serve(&mut table, "GET", "/debug", None);
    assert_eq!(response.status, 200);
    assert_eq!(response.body, debug_handler());
    assert_eq!(response.body, "API está funcionando corretamente!");
}

#[test]
fn list_on_empty_table_is_empty_json_array() {
    let mut table = UserTable::new();
    let response = serve(&mut table, "GET", "/users", None);
    assert_eq!(response.status, 200);
    assert_eq!(response.body, "[]");
}

#[test]
fn create_user_returns_json_with_fresh_id() {
    let mut table = UserTable::new();
    let body = User {
        id: None,
        name: String::from("Ada"),
        email: String::from("ada@example.com"),
    };
    let response = serve(&mut table, "POST", "/user", Some(body));
    assert_eq!(response.status, 200);
    assert_eq!(
        response.body,
        "{\"id\":1,\"name\":\"Ada\",\"email\":\"ada@example.com\"}"
    );
    assert!(response.body.contains("\"name\":\"Ada\""));
    assert!(response.body.contains("\"email\":\"ada@example.com\""));
}

#[test]
fn create_ignores_id_handed_in() {
    let mut table = UserTable::new();
    let body = User {
        id: Some(99),
        name: String::from("Grace"),
        email: String::from("grace@example.com"),
    };
    let response = serve(&mut table, "POST", "/user", Some(body));
    assert_eq!(response.status, 200);
    assert!(response.body.starts_with("{\"id\":1,"));
}

#[test]
fn create_without_body_is_rejected() {
    let mut table = UserTable::new();
    let response = serve(&mut table, "POST", "/user", None);
    assert_eq!(response.status, 400);
}

#[test]
fn delete_of_unknown_id_still_answers_no_content() {
    let mut table = UserTable::new();
    let absent = serve(&mut table, "DELETE", "/user/5", None);
    assert_eq!(absent.status, 204);
    assert_eq!(absent.body, "");
    let body = User {
        id: None,
        name: String::from("Ada"),
        email: String::from("ada@example.com"),
    };
    serve(&mut table, "POST", "/user", Some(body));
    let present = serve(&mut table, "DELETE", "/user/1", None);
    assert_eq!(present.status, 204);
    assert_eq!(present.body, "");
    assert_eq!(absent.status, present.status);
}

#[test]
fn unknown_route_answers_not_found() {
    let mut table = UserTable::new();
    let response = serve(&mut table, "GET", "/nope", None);
    assert_eq!(response.status, 404);
    let response = serve(&mut table, "PUT", "/users", None);
    assert_eq!(response.status, 404);
}

#[test]
fn cors_policy_allows_exactly_three_methods() {
    assert!(cors_allows_method("GET"));
    assert!(cors_allows_method("POST"));
    assert!(cors_allows_method("DELETE"));
    assert!(!cors_allows_method("PUT"));
    assert!(!cors_allows_method("PATCH"));
    assert!(!cors_allows_method("OPTIONS"));
}
