//! Enumerations, from a plain choice to one that carries another.

use vstd::prelude::*;

verus! {

/// A plain choice. It cannot be compared: it derives nothing.
pub enum E1 {
    LoggedIn,
    NotLoggedIn,
}

/// The same choice, with equality.
#[derive(PartialEq, Eq, Debug, Structural)]
pub enum E2 {
    LoggedIn,
    NotLoggedIn,
}

/// The rank of someone who was let in.
#[derive(PartialEq, Debug, Structural)]
pub enum E3 {
    Admin,
    User,
}

/// Whether access was granted, and at which rank.
#[derive(PartialEq, Debug, Structural)]
pub enum E4 {
    Granted(E3),
    Denied,
}

impl E4 {
    /// The label of the decision.
    pub open spec fn label_of(self) -> Seq<char> {
        match self {
            E4::Granted(E3::Admin) => "Admin"@,
            E4::Granted(E3::User) => "User"@,
            E4::Denied => "Denied"@,
        }
    }

    /// The label of the decision: the rank where access was granted,
    /// `Denied` where it was not.
    pub fn label(&self) -> (text: &'static str)
        ensures
            text@ == self.label_of(),
    {
        match self {
            E4::Granted(rank) => match rank {
                E3::Admin => "Admin",
                E3::User => "User",
            },
            E4::Denied => "Denied",
        }
    }
}

} // verus!
