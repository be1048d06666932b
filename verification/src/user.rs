use vstd::prelude::*;

verus! {

/// A user record as it crosses the service boundary.
///
/// `id` is assigned by the store and is therefore absent (`None`) on
/// creation requests and present on every record read back. `name` and
/// `email` carry arbitrary text: the service enforces no format on them.
pub struct User {
    pub id: Option<i32>,
    pub name: String,
    pub email: String,
}

/// The mathematical value of a `User`: its id as an unbounded integer and
/// its two text fields as character sequences.
pub ghost struct UserV {
    pub id: Option<int>,
    pub name: Seq<char>,
    pub email: Seq<char>,
}

impl View for User {
    type V = UserV;

    open spec fn view(&self) -> UserV {
        UserV {
            id: match self.id {
                Some(i) => Some(i as int),
                None => None,
            },
            name: self.name@,
            email: self.email@,
        }
    }
}

} // verus!
