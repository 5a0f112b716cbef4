use user_seeder::query::ids_by_email;
use user_seeder::{get_notifications, get_roles};

#[test]
fn roles_query() {
    let query = get_roles();
    assert_eq!(query.sql, "SELECT id FROM roles");
    assert!(query.params.is_empty());
}

#[test]
fn notifications_query() {
    let query = get_notifications();
    assert_eq!(query.sql, "SELECT id FROM notifications");
    assert!(query.params.is_empty());
}

#[test]
fn ids_by_email_hands_the_emails_over_as_one_parameter() {
    let query = ids_by_email(vec!["a@x".to_string(), "b@x".to_string()]);
    assert_eq!(query.sql, "SELECT id FROM users WHERE email = ANY($1)");
    assert_eq!(query.params, vec![vec!["a@x".to_string(), "b@x".to_string()]]);
}

#[test]
fn ids_by_email_with_no_email_has_an_empty_list() {
    let query = ids_by_email(vec![]);
    assert_eq!(query.sql, "SELECT id FROM users WHERE email = ANY($1)");
    assert_eq!(query.params, vec![Vec::<String>::new()]);
}
