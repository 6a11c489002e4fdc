//! What the user has configured.

use vstd::prelude::*;

verus! {

pub struct UserSettings {
    user: String,
}

impl View for UserSettings {
    type V = Seq<char>;

    closed spec fn view(&self) -> Seq<char> {
        self.user@
    }
}

impl UserSettings {
    pub fn new(user: String) -> (out: UserSettings)
        ensures
            out@ == user@,
    {
        UserSettings { user }
    }

    /// The name under which the user's commits are written.
    pub fn user(&self) -> (name: &String)
        ensures
            name@ == self@,
    {
        &self.user
    }
}

} // verus!
