use sync_harness::arithmetic::add;
use sync_harness::greeting::greet_user;

#[test]
fn it_works() {
    let result = add(2, 2);
    assert_eq!(result, 4);
}

#[test]
fn greeting_contains_name() {
    let result = greet_user("Carol");
    assert_eq!("Hello, Carol!", result);
}

#[test]
fn greeting_keeps_the_name_as_given() {
    assert_eq!(greet_user(""), "Hello, !");
    assert_eq!(greet_user("carol "), "Hello, carol !");
    assert_eq!(greet_user("Zoë"), "Hello, Zoë!");
}
