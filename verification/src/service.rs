use vstd::prelude::*;
use vstd::string::StringExecFns;
use crate::json::{json_of_user, json_of_users, user_to_json, users_to_json};
use crate::routes::{match_route, spec_route, Route};
use crate::strutil::str_eq;
use crate::table::{remove_id, user_of_row, UserRowV, UserTable};
use crate::user::User;

verus! {

/// One HTTP answer of the service: the status code and the body text.
pub struct Response {
    pub status: u16,
    pub body: String,
}

/// The liveness text: what `GET /` answers, with status 200.
pub fn handler() -> (r: &'static str)
    ensures
        r@ == "Let's Get Rusty!"@,
{
    "Let's Get Rusty!"
}

/// The diagnostic text: what `GET /debug` answers, with status 200. The
/// response also carries the blanket allow-any-origin header; see
/// `cors_allows_method` for the policy.
pub fn debug_handler() -> (r: &'static str)
    ensures
        r@ == "API está funcionando corretamente!"@,
{
    "API está funcionando corretamente!"
}

/// The cross-origin policy: every origin and every request header is
/// accepted, and exactly these three methods are allowed.
pub fn cors_allows_method(method: &str) -> (r: bool)
    ensures
        r == (method@ == "GET"@ || method@ == "POST"@ || method@ == "DELETE"@),
{
    str_eq(method, "GET") || str_eq(method, "POST") || str_eq(method, "DELETE")
}

/// Lists every user as a JSON array, with status 200. The table is only
/// read: an empty table answers the empty array.
pub fn get_users(table: &UserTable) -> (r: Response)
    ensures
        r.status == 200,
        r.body@ == json_of_users(table@.map_values(|row: UserRowV| user_of_row(row))),
{
    let users = table.list();
    let body = users_to_json(&users);
    proof {
        assert(users@.map_values(|u: User| u@) =~= table@.map_values(
            |row: UserRowV| user_of_row(row),
        ));
    }
    Response { status: 200, body }
}

/// Creates a user from the request body, with status 200. The id handed in
/// with the request is ignored: the store assigns a fresh one, which the
/// answered JSON object carries.
pub fn create_user(table: &mut UserTable, user: User) -> (r: Response)
    requires
        old(table).wf(),
        old(table).can_insert(),
    ensures
        final(table).wf(),
        r.status == 200,
        final(table)@ == old(table)@.push(
            UserRowV { id: old(table).spec_next_id(), name: user@.name, email: user@.email },
        ),
        r.body@ == json_of_user(
            user_of_row(
                UserRowV { id: old(table).spec_next_id(), name: user@.name, email: user@.email },
            ),
        ),
        final(table).spec_next_id() == old(table).spec_next_id() + 1,
{
    let created = table.insert(user.name, user.email);
    let body = user_to_json(&created);
    Response { status: 200, body }
}

/// Deletes the user with the given id, with status 204 and an empty body.
/// An id no row carries gets the same status: the operation is an
/// idempotent no-op there.
pub fn delete_user(table: &mut UserTable, id: i32) -> (r: Response)
    requires
        old(table).wf(),
    ensures
        final(table).wf(),
        r.status == 204,
        r.body@ == Seq::<char>::empty(),
        final(table)@ == remove_id(old(table)@, id as int),
        forall|i: int|
            0 <= i < final(table)@.len() ==> #[trigger] final(table)@[i].id != id as int,
{
    table.delete(id);
    Response { status: 204, body: String::new() }
}

/// One request against the service: the routing table applied to the method
/// and path, and the matched handler run against the table. A method and
/// path that name no route answer 404; a create request without a body
/// answers 400; every other failure mode is the store's, which this model
/// does not exhibit.
pub fn serve(table: &mut UserTable, method: &str, path: &str, body: Option<User>) -> (r: Response)
    requires
        old(table).wf(),
        spec_route(method@, path@) == Some(Route::CreateUser) ==> old(table).can_insert(),
    ensures
        final(table).wf(),
        match spec_route(method@, path@) {
            None => r.status == 404 && final(table)@ == old(table)@,
            Some(rt) => match rt {
                Route::Home => r.status == 200 && r.body@ == "Let's Get Rusty!"@
                    && final(table)@ == old(table)@,
                Route::Debug => r.status == 200 && r.body@
                    == "API está funcionando corretamente!"@ && final(table)@ == old(table)@,
                Route::ListUsers => r.status == 200 && r.body@ == json_of_users(
                    old(table)@.map_values(|row: UserRowV| user_of_row(row)),
                ) && final(table)@ == old(table)@,
                Route::CreateUser => match body {
                    Some(u) => r.status == 200 && final(table)@ == old(table)@.push(
                        UserRowV {
                            id: old(table).spec_next_id(),
                            name: u@.name,
                            email: u@.email,
                        },
                    ) && r.body@ == json_of_user(
                        user_of_row(
                            UserRowV {
                                id: old(table).spec_next_id(),
                                name: u@.name,
                                email: u@.email,
                            },
                        ),
                    ),
                    None => r.status == 400 && final(table)@ == old(table)@,
                },
                Route::DeleteUser(id) => r.status == 204 && r.body@ == Seq::<char>::empty()
                    && final(table)@ == remove_id(old(table)@, id as int),
            },
        },
{
    match match_route(method, path) {
        Some(Route::Home) => Response { status: 200, body: String::from_str(handler()) },
        Some(Route::Debug) => Response { status: 200, body: String::from_str(debug_handler()) },
        Some(Route::ListUsers) => get_users(table),
        Some(Route::CreateUser) => match body {
            Some(u) => create_user(table, u),
            None => Response { status: 400, body: String::new() },
        },
        Some(Route::DeleteUser(id)) => delete_user(table, id),
        None => Response { status: 404, body: String::new() },
    }
}

} // verus!
