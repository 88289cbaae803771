//! Accounts by name: a map from user names to what is known of each user.

use vstd::hash_map::StringHashMap;
use vstd::prelude::*;
use vstd::string::*;

verus! {

/// What is known of one user. The role is free text here.
#[derive(Debug)]
pub struct Account {
    username: String,
    email: String,
    password: String,
    role: String,
}

/// What an account holds, as plain values.
pub struct AccountView {
    pub username: Seq<char>,
    pub email: Seq<char>,
    pub password: Seq<char>,
    pub role: Seq<char>,
}

impl View for Account {
    type V = AccountView;

    closed spec fn view(&self) -> AccountView {
        AccountView {
            username: self.username@,
            email: self.email@,
            password: self.password@,
            role: self.role@,
        }
    }
}

impl Account {
    /// An account that holds the four parts as they are given.
    pub fn new(username: String, email: String, password: String, role: String) -> (account:
        Account)
        ensures
            account@ == (AccountView {
                username: username@,
                email: email@,
                password: password@,
                role: role@,
            }),
    {
        Account { username, email, password, role }
    }

    /// The name of the account.
    pub fn username(&self) -> (name: &str)
        ensures
            name@ == self@.username,
    {
        self.username.as_str()
    }

    /// The address of the account.
    pub fn email(&self) -> (address: &str)
        ensures
            address@ == self@.email,
    {
        self.email.as_str()
    }

    /// The password of the account.
    pub fn password(&self) -> (password: &str)
        ensures
            password@ == self@.password,
    {
        self.password.as_str()
    }

    /// The role of the account.
    pub fn role(&self) -> (role: &str)
        ensures
            role@ == self@.role,
    {
        self.role.as_str()
    }
}

/// The administrator's account: name, password and role are all `admin`.
pub open spec fn admin_account() -> AccountView {
    AccountView {
        username: "admin"@,
        email: "admin@localhost"@,
        password: "admin"@,
        role: "admin"@,
    }
}

/// The ordinary user's account: name, password and role are all `user`.
pub open spec fn user_account() -> AccountView {
    AccountView {
        username: "user"@,
        email: "user@localhost"@,
        password: "user"@,
        role: "user"@,
    }
}

/// The map that holds each of `accounts` under its name. Where several
/// have one name, the first of them is the one that the map holds.
pub open spec fn indexed(accounts: Seq<Account>) -> Map<Seq<char>, Account>
    decreases accounts.len(),
{
    if accounts.len() == 0 {
        Map::empty()
    } else {
        indexed(accounts.drop_first()).insert(accounts[0]@.username, accounts[0])
    }
}

/// Files each of `accounts` under its name. Where several have one name,
/// the first of them stays.
pub fn index_by_name(accounts: Vec<Account>) -> (users: StringHashMap<Account>)
    ensures
        users@ == indexed(accounts@),
{
    let ghost all = accounts@;
    let mut accounts = accounts;
    let mut users: StringHashMap<Account> = StringHashMap::new();
    assert(all.subrange(all.len() as int, all.len() as int) =~= Seq::<Account>::empty());
    loop
        invariant
            accounts@ == all.subrange(0, accounts@.len() as int),
            accounts@.len() <= all.len(),
            users@ == indexed(all.subrange(accounts@.len() as int, all.len() as int)),
        ensures
            accounts@.len() == 0,
            users@ == indexed(all.subrange(accounts@.len() as int, all.len() as int)),
        decreases accounts@.len(),
    {
        let ghost left = accounts@.len() as int;
        match accounts.pop() {
            None => {
                break ;
            },
            Some(account) => {
                proof {
                    assert(account == all[left - 1]);
                    assert(all.subrange(left - 1, all.len() as int).drop_first() =~= all.subrange(
                        left,
                        all.len() as int,
                    ));
                    assert(accounts@ =~= all.subrange(0, left - 1));
                }
                let name = account.username.clone();
                users.insert(name, account);
            },
        }
    }
    assert(all.subrange(0, all.len() as int) =~= all);
    users
}

/// The administrator's account and the ordinary user's, in this order.
pub fn default_accounts() -> (accounts: Vec<Account>)
    ensures
        accounts@.len() == 2,
        accounts@[0]@ == admin_account(),
        accounts@[1]@ == user_account(),
{
    let mut accounts: Vec<Account> = Vec::new();
    accounts.push(
        Account::new(
            String::from_str("admin"),
            String::from_str("admin@localhost"),
            String::from_str("admin"),
            String::from_str("admin"),
        ),
    );
    accounts.push(
        Account::new(
            String::from_str("user"),
            String::from_str("user@localhost"),
            String::from_str("user"),
            String::from_str("user"),
        ),
    );
    accounts
}

/// The administrator's account alone.
pub fn initial_accounts() -> (accounts: Vec<Account>)
    ensures
        accounts@.len() == 1,
        accounts@[0]@ == admin_account(),
{
    let mut accounts = default_accounts();
    accounts.truncate(1);
    accounts
}

/// Where the first account called `username` stands in `accounts`:
/// `position` is its index, or the length of `accounts` where none is
/// called so.
pub open spec fn first_account_named(
    accounts: Seq<Account>,
    username: Seq<char>,
    position: int,
) -> bool {
    &&& 0 <= position <= accounts.len()
    &&& forall|i: int| 0 <= i < position ==> (#[trigger] accounts[i])@.username != username
    &&& position < accounts.len() ==> accounts[position]@.username == username
}

/// The index of the first account whose name is `username`, found by
/// looking at one account after the other: the slow way, where a map by
/// name is at hand.
pub fn find_account(accounts: &[Account], username: &str) -> (found: Option<usize>)
    ensures
        match found {
            Some(position) => position < accounts@.len() && first_account_named(
                accounts@,
                username@,
                position as int,
            ),
            None => first_account_named(accounts@, username@, accounts@.len() as int),
        },
{
    let wanted = String::from_str(username);
    let mut position: usize = 0;
    while position < accounts.len()
        invariant
            position <= accounts@.len(),
            wanted@ == username@,
            forall|i: int|
                0 <= i < position ==> (#[trigger] accounts@[i])@.username != username@,
        decreases accounts@.len() - position,
    {
        if accounts[position].username == wanted {
            return Some(position);
        }
        position = position + 1;
    }
    None
}

/// The accounts that exist from the start: the administrator's, under its
/// name.
pub fn get_users() -> (users: StringHashMap<Account>)
    ensures
        users@.dom() =~= set!["admin"@],
        users@["admin"@]@ == admin_account(),
{
    let accounts = initial_accounts();
    let ghost only = accounts@;
    proof {
        assert(only.drop_first() =~= Seq::<Account>::empty());
        assert(indexed(only) == indexed(only.drop_first()).insert(only[0]@.username, only[0]));
    }
    index_by_name(accounts)
}

/// The accounts to fall back on when none have been stored: the
/// administrator's and the ordinary user's, each under its name.
pub fn get_default_users() -> (users: StringHashMap<Account>)
    ensures
        users@.dom() =~= set!["admin"@, "user"@],
        users@["admin"@]@ == admin_account(),
        users@["user"@]@ == user_account(),
{
    let accounts = default_accounts();
    let ghost both = accounts@;
    proof {
        reveal_strlit("admin");
        reveal_strlit("user");
        assert("admin"@.len() != "user"@.len());
        let rest = both.drop_first();
        assert(rest.drop_first() =~= Seq::<Account>::empty());
        assert(indexed(rest) == indexed(rest.drop_first()).insert(rest[0]@.username, rest[0]));
        assert(indexed(both) == indexed(rest).insert(both[0]@.username, both[0]));
    }
    index_by_name(accounts)
}

} // verus!
