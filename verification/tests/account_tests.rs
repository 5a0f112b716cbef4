use user_seeder::account::clone_accounts;
use user_seeder::{AccountGroups, TextMap, UserAccount};

fn account(email: &str, password: &str) -> UserAccount {
    let mut a = UserAccount::new();
    a.insert("email".to_string(), email.to_string());
    a.insert("password".to_string(), password.to_string());
    a
}

#[test]
fn text_map_starts_empty() {
    let m = TextMap::new();
    assert_eq!(m.get("email"), None);
    assert_eq!(m.get(""), None);
}

#[test]
fn text_map_insert_then_get() {
    let mut m = TextMap::new();
    m.insert("host".to_string(), "localhost".to_string());
    m.insert("port".to_string(), "5432".to_string());
    assert_eq!(m.get("host"), Some("localhost"));
    assert_eq!(m.get("port"), Some("5432"));
    assert_eq!(m.get("Host"), None);
}

#[test]
fn text_map_later_value_replaces_earlier() {
    let mut m = TextMap::new();
    m.insert("k".to_string(), "first".to_string());
    m.insert("other".to_string(), "x".to_string());
    m.insert("k".to_string(), "second".to_string());
    assert_eq!(m.get("k"), Some("second"));
    assert_eq!(m.get("other"), Some("x"));
}

#[test]
fn text_map_clone_is_independent() {
    let mut m = TextMap::new();
    m.insert("a".to_string(), "1".to_string());
    let copy = m.clone();
    m.insert("a".to_string(), "2".to_string());
    m.insert("b".to_string(), "3".to_string());
    assert_eq!(copy.get("a"), Some("1"));
    assert_eq!(copy.get("b"), None);
    assert_eq!(m.get("a"), Some("2"));
}

#[test]
fn account_holds_its_fields() {
    let a = account("root@example.com", "toor");
    assert_eq!(a.get("email"), Some("root@example.com"));
    assert_eq!(a.get("password"), Some("toor"));
    assert_eq!(a.get("name"), None);
}

#[test]
fn account_from_fields_keeps_them() {
    let mut m = TextMap::new();
    m.insert("email".to_string(), "a@b.c".to_string());
    let a = UserAccount::from_fields(m);
    assert_eq!(a.get("email"), Some("a@b.c"));
    assert_eq!(a.get("password"), None);
}

#[test]
fn account_clone_has_the_same_fields() {
    let a = account("a@b.c", "pw");
    let b = a.clone();
    assert_eq!(b.get("email"), Some("a@b.c"));
    assert_eq!(b.get("password"), Some("pw"));
}

#[test]
fn clone_accounts_copies_in_order() {
    let list = vec![account("a@b.c", "1"), account("d@e.f", "2")];
    let copy = clone_accounts(&list);
    assert_eq!(copy.len(), 2);
    assert_eq!(copy[0].get("email"), Some("a@b.c"));
    assert_eq!(copy[1].get("email"), Some("d@e.f"));
}

#[test]
fn groups_start_empty() {
    let g = AccountGroups::new();
    assert_eq!(g.len(), 0);
    assert!(g.get("admins").is_none());
}

#[test]
fn groups_keep_the_order_of_filing() {
    let mut g = AccountGroups::new();
    g.insert("admins".to_string(), vec![account("a@b.c", "1")]);
    g.insert("guests".to_string(), vec![]);
    g.insert("staff".to_string(), vec![account("d@e.f", "2"), account("g@h.i", "3")]);
    assert_eq!(g.len(), 3);
    assert_eq!(g.name(0), "admins");
    assert_eq!(g.name(1), "guests");
    assert_eq!(g.name(2), "staff");
    assert_eq!(g.accounts(0).len(), 1);
    assert_eq!(g.accounts(1).len(), 0);
    assert_eq!(g.accounts(2).len(), 2);
    assert_eq!(g.accounts(2)[1].get("email"), Some("g@h.i"));
}

#[test]
fn groups_refile_replaces_in_place() {
    let mut g = AccountGroups::new();
    g.insert("admins".to_string(), vec![account("a@b.c", "1")]);
    g.insert("guests".to_string(), vec![account("d@e.f", "2")]);
    g.insert("admins".to_string(), vec![account("x@y.z", "9"), account("u@v.w", "8")]);
    assert_eq!(g.len(), 2);
    assert_eq!(g.name(0), "admins");
    assert_eq!(g.name(1), "guests");
    assert_eq!(g.accounts(0).len(), 2);
    assert_eq!(g.accounts(0)[0].get("email"), Some("x@y.z"));
    assert_eq!(g.get("admins").unwrap().len(), 2);
    assert_eq!(g.get("guests").unwrap()[0].get("email"), Some("d@e.f"));
    assert!(g.get("staff").is_none());
}

#[test]
fn groups_clone_has_the_same_groups() {
    let mut g = AccountGroups::new();
    g.insert("admins".to_string(), vec![account("a@b.c", "1")]);
    let copy = g.clone();
    g.insert("guests".to_string(), vec![]);
    assert_eq!(copy.len(), 1);
    assert_eq!(copy.name(0), "admins");
    assert_eq!(copy.accounts(0)[0].get("password"), Some("1"));
}
