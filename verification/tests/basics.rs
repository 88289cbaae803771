use sync_harness::arithmetic::{add, do_math, double};
use sync_harness::directory::{
    default_accounts, find_account, get_default_users, index_by_name, initial_accounts, Account,
};
use sync_harness::enumerations::{E2, E3, E4};
use sync_harness::fork_join::{chunk_bounds, chunked_sum, reduce, sum_range};
use sync_harness::roster;
use sync_harness::users::{admin_usernames, find_user, get_users, login, Role, User};

#[test]
fn add_at_the_edges() {
    assert_eq!(add(0, 0), 0);
    assert_eq!(add(usize::MAX, 0), usize::MAX);
    assert_eq!(add(usize::MAX - 1, 1), usize::MAX);
}

#[test]
fn double_doubles() {
    assert_eq!(double(2), 4);
    assert_eq!(double(-21), -42);
    assert_eq!(double(0), 0);
    assert_eq!(double(i32::MIN / 2), i32::MIN);
}

#[test]
fn do_math_multiplies_ten_times() {
    assert_eq!(do_math(0), 0);
    assert_eq!(do_math(1), 2);
    assert_eq!(do_math(2), 3072);
    assert_eq!(do_math(3), 236_196);
    assert_eq!(do_math(4), 5_242_880);
}

#[test]
fn enumerations_compare_and_label() {
    assert_eq!(E2::LoggedIn, E2::LoggedIn);
    assert_ne!(E2::LoggedIn, E2::NotLoggedIn);
    assert_eq!(E4::Granted(E3::Admin).label(), "Admin");
    assert_eq!(E4::Granted(E3::User).label(), "User");
    assert_eq!(E4::Denied.label(), "Denied");
    assert_ne!(E4::Granted(E3::Admin), E4::Denied);
}

#[test]
fn new_user_is_kept_in_lower_case() {
    let user = User::new("ADMIN", "Admin@LocalHost", "PassWord", Role::Admin);
    assert_eq!(user.username, "admin");
    assert_eq!(user.email, "admin@localhost");
    assert_eq!(user.role, Role::Admin);
    assert!(user.check_password("PassWord"));
    assert!(!user.check_password("password"));
    assert!(!user.check_password(""));
}

#[test]
fn user_from_parts_keeps_the_parts() {
    let user = User::from_parts(
        "ADMIN".to_string(),
        "Admin@LocalHost".to_string(),
        "pw".to_string(),
        Role::User,
    );
    assert_eq!(user.username, "ADMIN");
    assert_eq!(user.email, "Admin@LocalHost");
    assert!(user.check_password("pw"));
    assert_eq!(user.role, Role::User);
}

#[test]
fn the_two_users() {
    let users = get_users();
    assert_eq!(users[0].username, "admin");
    assert_eq!(users[0].email, "admin@localhost");
    assert_eq!(users[0].role, Role::Admin);
    assert!(users[0].check_password("password"));
    assert_eq!(users[1].username, "user");
    assert_eq!(users[1].email, "user@localhost");
    assert_eq!(users[1].role, Role::User);
    assert!(users[1].check_password("password"));
}

#[test]
fn finding_and_logging_in() {
    let users = get_users();
    assert_eq!(find_user(&users, "admin"), Some(0));
    assert_eq!(find_user(&users, "user"), Some(1));
    assert_eq!(find_user(&users, "Admin"), None);
    assert_eq!(find_user(&[], "admin"), None);
    assert_eq!(login(&users, "admin", "password"), Some(Role::Admin));
    assert_eq!(login(&users, "user", "password"), Some(Role::User));
    assert_eq!(login(&users, "admin", "wrong"), None);
    assert_eq!(login(&users, "nobody", "password"), None);
}

#[test]
fn login_goes_by_the_first_user_of_a_name() {
    let users = vec![
        User::new("twin", "a", "one", Role::User),
        User::new("twin", "b", "two", Role::Admin),
    ];
    assert_eq!(find_user(&users, "twin"), Some(0));
    assert_eq!(login(&users, "twin", "one"), Some(Role::User));
    assert_eq!(login(&users, "twin", "two"), None);
}

#[test]
fn roster_and_its_administrators() {
    let mut users = roster::get_users();
    assert_eq!(users.len(), 1);
    assert_eq!(users[0].username, "user");
    assert_eq!(users[0].email, "user");
    assert_eq!(users[0].role, Role::User);
    assert!(users[0].check_password("password"));
    users.push(User::new("admin", "admin", "password", Role::Admin));
    users.push(User::new("Root", "root", "password", Role::Admin));
    assert_eq!(admin_usernames(users), vec!["admin", "root"]);
    assert!(admin_usernames(roster::get_users()).is_empty());
    assert!(admin_usernames(Vec::new()).is_empty());
}

fn assert_account(account: &Account, name: &str, email: &str) {
    assert_eq!(account.username(), name);
    assert_eq!(account.email(), email);
    assert_eq!(account.password(), name);
    assert_eq!(account.role(), name);
}

#[test]
fn the_first_account() {
    let users = sync_harness::directory::get_users();
    assert_eq!(users.len(), 1);
    assert_account(users.get("admin").unwrap(), "admin", "admin@localhost");
    assert!(users.get("user").is_none());
}

#[test]
fn the_default_accounts() {
    let users = get_default_users();
    assert_eq!(users.len(), 2);
    assert_account(users.get("admin").unwrap(), "admin", "admin@localhost");
    assert_account(users.get("user").unwrap(), "user", "user@localhost");
    assert!(users.get("root").is_none());
}

#[test]
fn the_default_accounts_in_order() {
    let accounts = default_accounts();
    assert_eq!(accounts.len(), 2);
    assert_account(&accounts[0], "admin", "admin@localhost");
    assert_account(&accounts[1], "user", "user@localhost");
}

#[test]
fn the_first_account_of_a_name_stays() {
    let part = |text: &str| text.to_string();
    let accounts = vec![
        Account::new(part("twin"), part("first"), part("p"), part("r")),
        Account::new(part("other"), part("o"), part("p"), part("r")),
        Account::new(part("twin"), part("second"), part("p"), part("r")),
    ];
    let users = index_by_name(accounts);
    assert_eq!(users.len(), 2);
    assert_eq!(users.get("twin").unwrap().email(), "first");
    assert_eq!(users.get("other").unwrap().email(), "o");
    assert!(index_by_name(Vec::new()).is_empty());
}

#[test]
fn finding_an_account_by_looking_at_each() {
    let accounts = default_accounts();
    assert_eq!(find_account(&accounts, "admin"), Some(0));
    assert_eq!(find_account(&accounts, "user"), Some(1));
    assert_eq!(find_account(&accounts, "User"), None);
    assert_eq!(find_account(&[], "admin"), None);
    let only = initial_accounts();
    assert_eq!(only.len(), 1);
    assert_account(&only[0], "admin", "admin@localhost");
    assert_eq!(find_account(&only, "admin"), Some(0));
    assert_eq!(find_account(&only, "user"), None);
}

#[test]
fn user_getters_give_the_parts() {
    let user = User::new("ADMIN", "Admin@LocalHost", "pw", Role::Admin);
    assert_eq!(user.username(), "admin");
    assert_eq!(user.email(), "admin@localhost");
    assert_eq!(user.role(), Role::Admin);
    let user = User::from_parts("N".to_string(), "E".to_string(), "pw".to_string(), Role::User);
    assert_eq!(user.username(), "N");
    assert_eq!(user.email(), "E");
    assert_eq!(user.role(), Role::User);
}

#[test]
fn account_keeps_its_parts() {
    let account =
        Account::new("N".to_string(), "E".to_string(), "P".to_string(), "R".to_string());
    assert_eq!(account.username(), "N");
    assert_eq!(account.email(), "E");
    assert_eq!(account.password(), "P");
    assert_eq!(account.role(), "R");
}

#[test]
fn chunks_cover_the_list() {
    assert_eq!(chunk_bounds(10, 4), vec![(0, 4), (4, 8), (8, 10)]);
    assert_eq!(chunk_bounds(8, 4), vec![(0, 4), (4, 8)]);
    assert_eq!(chunk_bounds(3, 8), vec![(0, 3)]);
    assert_eq!(chunk_bounds(0, 8), Vec::new());
    assert_eq!(chunk_bounds(5000, 8).len(), 625);
    assert_eq!(chunk_bounds(usize::MAX, usize::MAX - 1).len(), 2);
}

#[test]
fn sum_of_five_thousand_in_chunks_of_eight() {
    let to_add: Vec<u32> = (0..5000).collect();
    assert_eq!(chunked_sum(&to_add, 8), 12_497_500);
    assert_eq!(chunked_sum(&to_add, 1), 12_497_500);
    assert_eq!(chunked_sum(&to_add, 5000), 12_497_500);
    assert_eq!(chunked_sum(&to_add, 7777), 12_497_500);
    assert_eq!(chunked_sum(&Vec::new(), 8), 0);
}

#[test]
fn partial_sums_add_up() {
    let to_add: Vec<u32> = (0..5000).collect();
    let partials: Vec<u32> =
        chunk_bounds(to_add.len(), 8).iter().map(|(a, b)| sum_range(&to_add, *a, *b)).collect();
    assert_eq!(partials.len(), 625);
    assert_eq!(partials[0], 28);
    assert_eq!(partials[624], 4992 + 4993 + 4994 + 4995 + 4996 + 4997 + 4998 + 4999);
    assert_eq!(reduce(&partials), 12_497_500);
    assert_eq!(sum_range(&to_add, 10, 10), 0);
    assert_eq!(sum_range(&vec![u32::MAX], 0, 1), u32::MAX);
}
