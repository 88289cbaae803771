//! Users with a role, and the fixed lists of them.

use crate::registry::names_of;
use vstd::prelude::*;
use vstd::string::*;

verus! {

/// What a user may do.
#[derive(Clone, Copy, Debug, PartialEq, Eq, Structural)]
pub enum Role {
    Admin,
    User,
}

/// A user. The name and the address are kept in lower case; the password
/// is kept as given, and only `check_password` looks at it.
#[derive(Debug)]
pub struct User {
    pub username: String,
    pub email: String,
    password: String,
    pub role: Role,
}

/// The lower-case form of `text` as `str::to_lowercase` gives it.
pub uninterp spec fn lowercase(text: Seq<char>) -> Seq<char>;

/// `str::to_lowercase`: the lower-case equivalent of `text` as a new
/// string. The result depends on `text` alone.
#[verifier::external_body]
fn to_lowercase(text: &str) -> (lowered: String)
    ensures
        lowered@ == lowercase(text@),
{
    text.to_lowercase()
}

/// What a user holds, as plain values.
pub struct UserView {
    pub username: Seq<char>,
    pub email: Seq<char>,
    pub password: Seq<char>,
    pub role: Role,
}

impl View for User {
    type V = UserView;

    closed spec fn view(&self) -> UserView {
        UserView {
            username: self.username@,
            email: self.email@,
            password: self.password@,
            role: self.role,
        }
    }
}

/// What `User::new` makes of these parts.
pub open spec fn new_user(
    username: Seq<char>,
    email: Seq<char>,
    password: Seq<char>,
    role: Role,
) -> UserView {
    UserView { username: lowercase(username), email: lowercase(email), password, role }
}

impl User {
    /// A user made of parts that are stored as they are.
    pub fn from_parts(username: String, email: String, password: String, role: Role) -> (user:
        User)
        ensures
            user@ == (UserView { username: username@, email: email@, password: password@, role }),
    {
        User { username, email, password, role }
    }

    /// A user with the name and the address in lower case, and the
    /// password as given.
    pub fn new(username: &str, email: &str, password: &str, role: Role) -> (user: User)
        ensures
            user@ == new_user(username@, email@, password@, role),
    {
        User::from_parts(
            to_lowercase(username),
            to_lowercase(email),
            String::from_str(password),
            role,
        )
    }

    /// The name of the user.
    pub fn username(&self) -> (name: &str)
        ensures
            name@ == self@.username,
    {
        self.username.as_str()
    }

    /// The address of the user.
    pub fn email(&self) -> (address: &str)
        ensures
            address@ == self@.email,
    {
        self.email.as_str()
    }

    /// The role of the user.
    pub fn role(&self) -> (role: Role)
        ensures
            role == self@.role,
    {
        self.role
    }

    /// Whether `password` is this user's password, letter for letter.
    pub fn check_password(&self, password: &str) -> (matches: bool)
        ensures
            matches == (self@.password == password@),
    {
        self.password == String::from_str(password)
    }
}

/// The two users that exist from the start: an administrator and an
/// ordinary user.
pub fn get_users() -> (users: [User; 2])
    ensures
        users@[0]@ == new_user("admin"@, "admin@localhost"@, "password"@, Role::Admin),
        users@[1]@ == new_user("user"@, "user@localhost"@, "password"@, Role::User),
{
    [
        User::new("admin", "admin@localhost", "password", Role::Admin),
        User::new("user", "user@localhost", "password", Role::User),
    ]
}

/// Where the first user called `username` stands in `users`: `position` is
/// its index, or the length of `users` where nobody is called so.
pub open spec fn first_named(users: Seq<User>, username: Seq<char>, position: int) -> bool {
    &&& 0 <= position <= users.len()
    &&& forall|i: int| 0 <= i < position ==> (#[trigger] users[i])@.username != username
    &&& position < users.len() ==> users[position]@.username == username
}

/// The index of the first user whose name is `username`, letter for
/// letter, if there is one.
pub fn find_user(users: &[User], username: &str) -> (found: Option<usize>)
    ensures
        match found {
            Some(position) => position < users@.len() && first_named(
                users@,
                username@,
                position as int,
            ),
            None => first_named(users@, username@, users@.len() as int),
        },
{
    let wanted = String::from_str(username);
    let mut position: usize = 0;
    while position < users.len()
        invariant
            position <= users@.len(),
            wanted@ == username@,
            forall|i: int| 0 <= i < position ==> (#[trigger] users@[i])@.username != username@,
        decreases users@.len() - position,
    {
        if users[position].username == wanted {
            return Some(position);
        }
        position = position + 1;
    }
    None
}

/// Logs in: the role of the first user called `username`, if there is one
/// and `password` is that user's password.
pub fn login(users: &[User], username: &str, password: &str) -> (role: Option<Role>)
    ensures
        match role {
            Some(role) => exists|position: int|
                {
                    &&& position < users@.len()
                    &&& #[trigger] first_named(users@, username@, position)
                    &&& users@[position]@.password == password@
                    &&& users@[position]@.role == role
                },
            None => forall|position: int|
                position < users@.len() && #[trigger] first_named(users@, username@, position)
                    ==> users@[position]@.password != password@,
        },
{
    match find_user(users, username) {
        Some(position) => {
            proof {
                lemma_first_named_unique(users@, username@, position as int);
            }
            if users[position].check_password(password) {
                Some(users[position].role)
            } else {
                None
            }
        },
        None => {
            proof {
                lemma_first_named_unique(users@, username@, users@.len() as int);
            }
            None
        },
    }
}

/// Only one position is that of the first user with a given name.
pub proof fn lemma_first_named_unique(users: Seq<User>, username: Seq<char>, position: int)
    requires
        first_named(users, username, position),
    ensures
        forall|other: int| #[trigger] first_named(users, username, other) ==> other == position,
{
    assert forall|other: int| #[trigger] first_named(users, username, other) implies other
        == position by {
        if other < position {
            assert(users[other]@.username != username);
        } else if position < other {
            assert(users[position]@.username != username);
        }
    }
}

/// The names of the administrators among `users`, in the order of `users`.
pub open spec fn admin_names(users: Seq<UserView>) -> Seq<Seq<char>>
    decreases users.len(),
{
    if users.len() == 0 {
        Seq::empty()
    } else if users.last().role == Role::Admin {
        admin_names(users.drop_last()).push(users.last().username)
    } else {
        admin_names(users.drop_last())
    }
}

/// What the users of a list hold, in order.
pub open spec fn views_of(users: Seq<User>) -> Seq<UserView> {
    users.map_values(|user: User| user@)
}

/// The names of the administrators among `users`, in the order of `users`.
pub fn admin_usernames(users: Vec<User>) -> (names: Vec<String>)
    ensures
        names_of(names@) == admin_names(views_of(users@)),
{
    let ghost views = views_of(users@);
    let mut names: Vec<String> = Vec::new();
    let mut position: usize = 0;
    assert(views.take(0) =~= Seq::<UserView>::empty());
    while position < users.len()
        invariant
            position <= users@.len(),
            views == views_of(users@),
            names_of(names@) == admin_names(views.take(position as int)),
        decreases users@.len() - position,
    {
        proof {
            assert(views.take(position + 1).drop_last() =~= views.take(position as int));
            assert(views.take(position + 1).last() == users@[position as int]@);
        }
        if users[position].role == Role::Admin {
            let ghost before = names@;
            let name = users[position].username.clone();
            names.push(name);
            assert(names_of(names@) =~= names_of(before).push(
                name@,
            ));
            assert(name@ == users@[position as int]@.username);
        }
        position = position + 1;
    }
    assert(views.take(position as int) =~= views);
    names
}

} // verus!
