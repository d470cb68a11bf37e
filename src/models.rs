use vstd::prelude::*;

verus! {

/// A user record as stored and as sent over the wire.
pub struct User {
    pub id: Option<i32>,
    pub name: String,
    pub email: String,
}

/// The mathematical value of a user record.
pub struct UserModel {
    pub id: Option<i32>,
    pub name: Seq<char>,
    pub email: Seq<char>,
}

impl View for User {
    type V = UserModel;

    open spec fn view(&self) -> UserModel {
        UserModel { id: self.id, name: self.name@, email: self.email@ }
    }
}

impl User {
    /// A record with the given fields.
    pub fn new(id: Option<i32>, name: String, email: String) -> (r: User)
        ensures
            r.id == id,
            r.name@ == name@,
            r.email@ == email@,
    {
        User { id, name, email }
    }
}

} // verus!
