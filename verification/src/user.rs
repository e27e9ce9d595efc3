//! The one entity of the service.

use vstd::prelude::*;

verus! {

/// A user: what a request body carries before the table has given it an
/// identifier, and a row of the table afterwards.
#[derive(Debug, PartialEq, Eq)]
pub struct User {
    /// The identifier that the table assigned; `None` before that.
    pub id: Option<i32>,
    pub name: String,
    pub email: String,
}

/// A user as contracts see it: the texts by their characters.
pub ghost struct UserView {
    pub id: Option<i32>,
    pub name: Seq<char>,
    pub email: Seq<char>,
}

impl View for User {
    type V = UserView;

    open spec fn view(&self) -> UserView {
        UserView { id: self.id, name: self.name@, email: self.email@ }
    }
}

impl Clone for User {
    fn clone(&self) -> (copy: User)
        ensures
            copy@ == self@,
    {
        User { id: self.id, name: self.name.clone(), email: self.email.clone() }
    }
}

/// The views of a run of users, in the same order.
pub open spec fn views(users: Seq<User>) -> Seq<UserView> {
    users.map_values(|user: User| user@)
}

} // verus!
