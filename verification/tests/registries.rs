use sync_harness::registry::{build_users, is_quit, LazyRwRegistry};

fn strings(names: &[&str]) -> Vec<String> {
    names.iter().map(|name| name.to_string()).collect()
}

#[test]
fn seed_is_there_before_any_write() {
    let registry = LazyRwRegistry::new();
    assert_eq!(registry.read(), strings(&["MS", "MJ"]));
    assert_eq!(registry.read(), strings(&["MS", "MJ"]));
}

#[test]
fn build_users_gives_the_seed() {
    assert_eq!(build_users(), strings(&["MS", "MJ"]));
}

#[test]
fn writes_follow_the_seed_in_order() {
    let mut registry = LazyRwRegistry::new();
    registry.write("alice".to_string());
    registry.write("bob".to_string());
    let names = registry.read();
    assert_eq!(names, strings(&["MS", "MJ", "alice", "bob"]));
    assert_eq!(names.len(), 4);
}

#[test]
fn first_access_may_be_a_write() {
    let mut registry = LazyRwRegistry::new();
    registry.write("alice".to_string());
    assert_eq!(registry.read(), strings(&["MS", "MJ", "alice"]));
}

#[test]
fn read_is_a_copy() {
    let mut registry = LazyRwRegistry::new();
    let mut names = registry.read();
    names.push("mallory".to_string());
    registry.write("alice".to_string());
    assert_eq!(registry.read(), strings(&["MS", "MJ", "alice"]));
}

#[test]
fn q_is_the_only_quit_word() {
    assert!(is_quit("q"));
    assert!(!is_quit(""));
    assert!(!is_quit("Q"));
    assert!(!is_quit("qq"));
    assert!(!is_quit(" q"));
    assert!(!is_quit("quit"));
    assert!(!is_quit("é"));
}

#[test]
fn accept_appends_until_q() {
    let mut registry = LazyRwRegistry::new();
    assert!(registry.accept(Some("alice".to_string())));
    assert!(registry.accept(Some("".to_string())));
    assert!(!registry.accept(Some("q".to_string())));
    assert_eq!(registry.read(), strings(&["MS", "MJ", "alice", ""]));
    assert!(registry.accept(Some("Q".to_string())));
    assert_eq!(registry.read(), strings(&["MS", "MJ", "alice", "", "Q"]));
}

#[test]
fn end_of_input_stops_without_a_write() {
    let mut registry = LazyRwRegistry::new();
    assert!(!registry.accept(None));
    assert_eq!(registry.read(), strings(&["MS", "MJ"]));
}

#[test]
fn accept_all_stops_at_the_first_q() {
    let mut registry = LazyRwRegistry::new();
    let written = registry.accept_all(&strings(&["alice", "bob", "q", "carol", "q"]));
    assert_eq!(written, 2);
    assert_eq!(registry.read(), strings(&["MS", "MJ", "alice", "bob"]));
}

#[test]
fn accept_all_without_q_takes_everything() {
    let mut registry = LazyRwRegistry::new();
    assert_eq!(registry.accept_all(&strings(&["alice", "bob"])), 2);
    assert_eq!(registry.accept_all(&Vec::new()), 0);
    assert_eq!(registry.accept_all(&strings(&["q"])), 0);
    assert_eq!(registry.read(), strings(&["MS", "MJ", "alice", "bob"]));
}
