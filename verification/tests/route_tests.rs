use user_service::numtext::parse_i32;
use user_service::routes::{match_route, Route};

#[test]
fn routing_table_matches_the_five_routes() {
    assert_eq!(match_route("GET", "/"), Some(Route::Home));
    assert_eq!(match_route("GET", "/debug"), Some(Route::Debug));
    assert_eq!(match_route("POST", "/user"), Some(Route::CreateUser));
    assert_eq!(match_route("GET", "/users"), Some(Route::ListUsers));
    assert_eq!(match_route("DELETE", "/user/42"), Some(Route::DeleteUser(42)));
}

#[test]
fn routing_rejects_wrong_method_or_path() {
    assert_eq!(match_route("POST", "/"), None);
    assert_eq!(match_route("GET", "/user"), None);
    assert_eq!(match_route("DELETE", "/users"), None);
    assert_eq!(match_route("PUT", "/user"), None);
    assert_eq!(match_route("GET", "/userz"), None);
    assert_eq!(match_route("DELETE", "/user/"), None);
    assert_eq!(match_route("DELETE", "/user/abc"), None);
    assert_eq!(match_route("DELETE", "/user/12x"), None);
    assert_eq!(match_route("DELETE", "/user/99999999999"), None);
}

#[test]
fn delete_route_accepts_any_i32_id() {
    assert_eq!(match_route("DELETE", "/user/0"), Some(Route::DeleteUser(0)));
    assert_eq!(match_route("DELETE", "/user/-7"), Some(Route::DeleteUser(-7)));
    assert_eq!(
        match_route("DELETE", "/user/2147483647"),
        Some(Route::DeleteUser(i32::MAX))
    );
    assert_eq!(
        match_route("DELETE", "/user/-2147483648"),
        Some(Route::DeleteUser(i32::MIN))
    );
    assert_eq!(match_route("DELETE", "/user/2147483648"), None);
    assert_eq!(match_route("DELETE", "/user/-2147483649"), None);
}

#[test]
fn decimal_parser_reads_exactly_the_i32_range() {
    assert_eq!(parse_i32("0"), Some(0));
    assert_eq!(parse_i32("007"), Some(7));
    assert_eq!(parse_i32("2147483647"), Some(i32::MAX));
    assert_eq!(parse_i32("2147483648"), None);
    assert_eq!(parse_i32("-2147483648"), Some(i32::MIN));
    assert_eq!(parse_i32("-2147483649"), None);
    assert_eq!(parse_i32(""), None);
    assert_eq!(parse_i32("-"), None);
    assert_eq!(parse_i32("+7"), None);
    assert_eq!(parse_i32("1 2"), None);
    assert_eq!(parse_i32("98765432109876543210"), None);
}
