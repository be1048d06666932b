use vstd::prelude::*;
use vstd::string::StrSliceExecFns;
use crate::numtext::{dec_i32, parse_i32};
use crate::strutil::str_eq;

verus! {

/// The service's routes: the method-and-path combinations it answers.
#[derive(PartialEq, Eq, Structural, Clone, Copy, Debug)]
pub enum Route {
    /// `GET /`: the liveness text.
    Home,
    /// `GET /debug`: the diagnostic text.
    Debug,
    /// `POST /user`: create a user from the request body.
    CreateUser,
    /// `GET /users`: list every user.
    ListUsers,
    /// `DELETE /user/{id}`: delete the user with the given id.
    DeleteUser(i32),
}

/// The routing table: which route a method and path name, if any. A delete
/// path carries a decimal id after `/user/`; a path whose id does not read
/// as an `i32` names no route.
pub open spec fn spec_route(m: Seq<char>, p: Seq<char>) -> Option<Route> {
    if m == "GET"@ {
        if p == "/"@ {
            Some(Route::Home)
        } else if p == "/debug"@ {
            Some(Route::Debug)
        } else if p == "/users"@ {
            Some(Route::ListUsers)
        } else {
            None
        }
    } else if m == "POST"@ {
        if p == "/user"@ {
            Some(Route::CreateUser)
        } else {
            None
        }
    } else if m == "DELETE"@ {
        if p.len() > 6 && p.subrange(0, 6) == "/user/"@ {
            match dec_i32(p.subrange(6, p.len() as int)) {
                Some(v) => Some(Route::DeleteUser(v as i32)),
                None => None,
            }
        } else {
            None
        }
    } else {
        None
    }
}

/// Matches a method and path against the routing table.
pub fn match_route(method: &str, path: &str) -> (r: Option<Route>)
    ensures
        r == spec_route(method@, path@),
{
    if str_eq(method, "GET") {
        if str_eq(path, "/") {
            Some(Route::Home)
        } else if str_eq(path, "/debug") {
            Some(Route::Debug)
        } else if str_eq(path, "/users") {
            Some(Route::ListUsers)
        } else {
            None
        }
    } else if str_eq(method, "POST") {
        if str_eq(path, "/user") {
            Some(Route::CreateUser)
        } else {
            None
        }
    } else if str_eq(method, "DELETE") {
        let n: usize = path.unicode_len();
        if n > 6 {
            let head = path.substring_char(0, 6);
            if str_eq(head, "/user/") {
                let tail = path.substring_char(6, n);
                match parse_i32(tail) {
                    Some(v) => Some(Route::DeleteUser(v)),
                    None => None,
                }
            } else {
                None
            }
        } else {
            None
        }
    } else {
        None
    }
}

} // verus!
