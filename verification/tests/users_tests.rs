use user_seeder::users::{rows_from_hashes, user_emails, user_row};
use user_seeder::{create_user, get_inserted_user_ids, AccountGroups, UserAccount, UserRow};

fn account(fields: &[(&str, &str)]) -> UserAccount {
    let mut a = UserAccount::new();
    for (k, v) in fields {
        a.insert(k.to_string(), v.to_string());
    }
    a
}

fn full(email: &str, password: &str) -> UserAccount {
    account(&[("email", email), ("password", password)])
}

fn groups(list: Vec<(&str, Vec<UserAccount>)>) -> AccountGroups {
    let mut g = AccountGroups::new();
    for (name, accounts) in list {
        g.insert(name.to_string(), accounts);
    }
    g
}

#[test]
fn one_row_per_account_in_order() {
    let g = groups(vec![
        ("admins", vec![full("root@example.com", "toor")]),
        ("empty", vec![]),
        ("guests", vec![full("guest@example.com", "guest")]),
    ]);
    let made = create_user(&g);
    assert_eq!(made.sql, "INSERT INTO users (email, password) VALUES ($1, $2)");
    assert!(made.failure.is_none());
    assert_eq!(made.rows.len(), 2);
    assert_eq!(made.rows[0].email, "root@example.com");
    assert_eq!(made.rows[1].email, "guest@example.com");
}

#[test]
fn password_is_stored_as_a_bcrypt_hash() {
    let row = user_row(&full("a@b.c", "correct horse")).unwrap();
    assert_eq!(row.email, "a@b.c");
    assert_ne!(row.password, "correct horse");
    assert_eq!(row.password.len(), 60);
    assert!(row.password.starts_with("$2b$12$"));
    assert_eq!(bcrypt::verify("correct horse", &row.password).unwrap(), true);
}

#[test]
fn stored_hash_rejects_another_password() {
    let row = user_row(&full("a@b.c", "correct horse")).unwrap();
    assert!(!row.accepts("wrong horse"));
}

#[test]
fn accepts_follows_bcrypt() {
    let row = UserRow {
        email: "a@b.c".to_string(),
        password: "$2b$04$EGdrhbKUv8Oc9vGiXX0HQOxSg445d458Muh7DAHskb6QbtCvdxcie".to_string(),
    };
    assert!(row.accepts("correctbatteryhorsestapler"));
    assert!(!row.accepts("wrong"));
    assert!(!row.accepts(""));
    let row = UserRow { email: "a@b.c".to_string(), password: "not a hash".to_string() };
    assert!(!row.accepts("not a hash"));
}

#[test]
fn no_accounts_no_rows() {
    let made = create_user(&AccountGroups::new());
    assert!(made.rows.is_empty());
    assert!(made.failure.is_none());
    let made = create_user(&groups(vec![("a", vec![]), ("b", vec![])]));
    assert!(made.rows.is_empty());
    assert!(made.failure.is_none());
}

#[test]
fn account_without_email_stops_the_rows() {
    let g = groups(vec![(
        "admins",
        vec![full("first@example.com", "pw"), account(&[("password", "pw")]), full("c@d.e", "pw")],
    )]);
    let made = create_user(&g);
    assert_eq!(made.rows.len(), 1);
    assert_eq!(made.rows[0].email, "first@example.com");
    assert_eq!(made.failure.unwrap().details(), "Cannot find email");
}

#[test]
fn account_without_password_stops_the_rows() {
    let g = groups(vec![("admins", vec![account(&[("email", "a@b.c")])])]);
    let made = create_user(&g);
    assert!(made.rows.is_empty());
    assert_eq!(made.failure.unwrap().details(), "Cannot find password");
}

#[test]
fn email_is_looked_for_before_password() {
    let e = user_row(&account(&[("name", "nobody")])).unwrap_err();
    assert_eq!(e.details(), "Cannot find email");
}

#[test]
fn from_hash_takes_the_hash_or_the_error() {
    let row = UserRow::from_hash("a@b.c", Ok("hashed".to_string())).unwrap();
    assert_eq!(row.email, "a@b.c");
    assert_eq!(row.password, "hashed");
    let e = UserRow::from_hash("a@b.c", Err("Rand error: none".to_string())).unwrap_err();
    assert_eq!(e.details(), "Rand error: none");
}

#[test]
fn emails_of_all_groups_in_order() {
    let g = groups(vec![
        ("admins", vec![full("a@x", "1"), full("b@x", "2")]),
        ("guests", vec![full("c@x", "3")]),
    ]);
    assert_eq!(user_emails(&g).unwrap(), vec!["a@x", "b@x", "c@x"]);
    assert_eq!(user_emails(&AccountGroups::new()).unwrap().len(), 0);
}

#[test]
fn emails_need_every_account_to_have_one() {
    let g = groups(vec![("admins", vec![full("a@x", "1"), account(&[("password", "2")])])]);
    assert_eq!(user_emails(&g).unwrap_err().details(), "Cannot find email");
    assert_eq!(get_inserted_user_ids(&g).unwrap_err().details(), "Cannot find email");
}

#[test]
fn ids_query_takes_the_emails_as_its_parameter() {
    let g = groups(vec![
        ("admins", vec![full("a@x", "1"), full("b@x", "2")]),
        ("guests", vec![full("c@x", "3")]),
    ]);
    let query = get_inserted_user_ids(&g).unwrap();
    assert_eq!(query.sql, "SELECT id FROM users WHERE email = ANY($1)");
    assert_eq!(
        query.params,
        vec![vec!["a@x".to_string(), "b@x".to_string(), "c@x".to_string()]]
    );
}

#[test]
fn ids_query_for_no_account_asks_for_no_email() {
    let query = get_inserted_user_ids(&AccountGroups::new()).unwrap();
    assert_eq!(query.sql, "SELECT id FROM users WHERE email = ANY($1)");
    assert_eq!(query.params, vec![Vec::<String>::new()]);
}

#[test]
fn ids_query_keeps_an_email_out_of_the_text() {
    let g = groups(vec![("admins", vec![full("o'brien@x.io", "1"), full("a','b", "2")])]);
    let query = get_inserted_user_ids(&g).unwrap();
    assert_eq!(query.sql, "SELECT id FROM users WHERE email = ANY($1)");
    assert_eq!(query.params, vec![vec!["o'brien@x.io".to_string(), "a','b".to_string()]]);
}

#[test]
fn ids_query_does_not_need_a_password() {
    let g = groups(vec![("admins", vec![account(&[("email", "a@x")])])]);
    let query = get_inserted_user_ids(&g).unwrap();
    assert_eq!(query.params, vec![vec!["a@x".to_string()]]);
}

fn three_accounts() -> AccountGroups {
    groups(vec![
        ("g1", vec![full("a@x.io", "first"), full("b@x.io", "second")]),
        ("g2", vec![full("c@x.io", "third")]),
    ])
}

fn hash(text: &str) -> Result<String, String> {
    Ok(text.to_string())
}

#[test]
fn every_hash_made_gives_a_row_for_every_account() {
    let made = rows_from_hashes(&three_accounts(), &vec![hash("h1"), hash("h2"), hash("h3")]);
    assert_eq!(made.sql, "INSERT INTO users (email, password) VALUES ($1, $2)");
    assert!(made.failure.is_none());
    assert_eq!(
        made.rows,
        vec![
            UserRow { email: "a@x.io".to_string(), password: "h1".to_string() },
            UserRow { email: "b@x.io".to_string(), password: "h2".to_string() },
            UserRow { email: "c@x.io".to_string(), password: "h3".to_string() },
        ]
    );
}

#[test]
fn a_failed_hash_keeps_the_rows_before_it() {
    let hashed = vec![hash("h1"), hash("h2"), Err("Rand error: none".to_string())];
    let made = rows_from_hashes(&three_accounts(), &hashed);
    assert_eq!(made.rows.len(), 2);
    assert_eq!(made.rows[0].email, "a@x.io");
    assert_eq!(made.rows[1].email, "b@x.io");
    assert_eq!(made.rows[1].password, "h2");
    assert_eq!(made.failure.unwrap().details(), "Rand error: none");
}

#[test]
fn a_failed_first_hash_keeps_no_row() {
    let made = rows_from_hashes(&three_accounts(), &vec![Err("no salt".to_string())]);
    assert!(made.rows.is_empty());
    assert_eq!(made.failure.unwrap().details(), "no salt");
}

#[test]
fn outcomes_after_the_failure_are_not_looked_at() {
    let hashed = vec![hash("h1"), Err("failed".to_string()), hash("h3")];
    let made = rows_from_hashes(&three_accounts(), &hashed);
    assert_eq!(made.rows.len(), 1);
    assert_eq!(made.rows[0].password, "h1");
    assert_eq!(made.failure.unwrap().details(), "failed");
}

#[test]
fn an_account_without_email_ends_the_walk_without_an_outcome() {
    let g = groups(vec![
        ("g1", vec![full("a@x.io", "first")]),
        ("g2", vec![account(&[("password", "second")]), full("c@x.io", "third")]),
    ]);
    let made = rows_from_hashes(&g, &vec![hash("h1")]);
    assert_eq!(made.rows.len(), 1);
    assert_eq!(made.rows[0].email, "a@x.io");
    assert_eq!(made.failure.unwrap().details(), "Cannot find email");
}

#[test]
fn an_account_without_password_ends_the_walk_without_an_outcome() {
    let g = groups(vec![("g1", vec![account(&[("email", "a@x.io")]), full("b@x.io", "p")])]);
    let made = rows_from_hashes(&g, &vec![]);
    assert!(made.rows.is_empty());
    assert_eq!(made.failure.unwrap().details(), "Cannot find password");
}

#[test]
fn no_account_needs_no_outcome() {
    let made = rows_from_hashes(&AccountGroups::new(), &vec![]);
    assert!(made.rows.is_empty());
    assert!(made.failure.is_none());
}

#[test]
fn three_accounts_in_two_groups_get_three_rows() {
    let made = create_user(&three_accounts());
    assert!(made.failure.is_none());
    assert_eq!(made.rows.len(), 3);
    assert_eq!(made.rows[0].email, "a@x.io");
    assert_eq!(made.rows[1].email, "b@x.io");
    assert_eq!(made.rows[2].email, "c@x.io");
    assert!(made.rows[2].accepts("third"));
}
