use user_seeder::pipeline::read_config;
use user_seeder::{Action, Event, Seeder, Stage};

const CONFIG: &str = "\
database:
  host: localhost
  port: \"5432\"
  user: seeder
  pass: secret
  name: app
accounts:
  admins:
    - email: root@example.com
      password: toor
";

const TWO_ACCOUNTS: &str = "\
database: {host: h, port: \"1\", user: u, pass: p, name: n}
accounts:
  admins:
    - email: a@x
      password: one
  guests:
    - email: b@x
      password: two
";

fn abort_message(action: Action) -> String {
    match action {
        Action::Abort(error) => error.details().to_string(),
        other => panic!("expected Abort, got {:?}", other),
    }
}

fn select_sql(action: Action) -> String {
    match action {
        Action::Select(query) => {
            assert!(query.params.is_empty());
            query.sql
        }
        other => panic!("expected Select, got {:?}", other),
    }
}

fn selected_emails(action: Action) -> Vec<String> {
    match action {
        Action::Select(query) => {
            assert_eq!(query.sql, "SELECT id FROM users WHERE email = ANY($1)");
            assert_eq!(query.params.len(), 1);
            query.params[0].clone()
        }
        other => panic!("expected Select, got {:?}", other),
    }
}

/// Drives a new run up to the stage that waits for the notifications.
fn up_to_notifications(config: &str, roles: Vec<i32>) -> Seeder {
    let (seeder, _) = Seeder::new();
    let (seeder, _) = seeder.step(Event::ConfigText(config.to_string()));
    let (seeder, _) = seeder.step(Event::Done);
    let (seeder, _) = seeder.step(Event::Ids(roles));
    assert_eq!(seeder.stage(), Stage::FetchNotifications);
    seeder
}

#[test]
fn a_run_starts_by_reading_the_configuration() {
    let (seeder, action) = Seeder::new();
    assert_eq!(seeder.stage(), Stage::ReadConfig);
    assert!(!seeder.is_over());
    assert!(matches!(action, Action::ReadConfig(path) if path == "./migration.yml"));
}

#[test]
fn a_full_run_goes_through_every_stage() {
    let (seeder, _) = Seeder::new();

    let (seeder, action) = seeder.step(Event::ConfigText(CONFIG.to_string()));
    assert_eq!(seeder.stage(), Stage::Connect);
    match action {
        Action::Connect(p) => {
            assert_eq!(p.host, "localhost");
            assert_eq!(p.port, 5432);
            assert_eq!(p.user, "seeder");
            assert_eq!(p.password, "secret");
            assert_eq!(p.database, "app");
        }
        other => panic!("expected Connect, got {:?}", other),
    }

    let (seeder, action) = seeder.step(Event::Done);
    assert_eq!(seeder.stage(), Stage::FetchRoles);
    assert_eq!(select_sql(action), "SELECT id FROM roles");

    let (seeder, action) = seeder.step(Event::Ids(vec![1, 2]));
    assert_eq!(seeder.stage(), Stage::FetchNotifications);
    assert_eq!(select_sql(action), "SELECT id FROM notifications");

    let (seeder, action) = seeder.step(Event::Ids(vec![7]));
    assert_eq!(seeder.stage(), Stage::InsertUsers);
    match action {
        Action::InsertUsers { sql, rows } => {
            assert_eq!(sql, "INSERT INTO users (email, password) VALUES ($1, $2)");
            assert_eq!(rows.len(), 1);
            assert_eq!(rows[0].email, "root@example.com");
            assert_ne!(rows[0].password, "toor");
            assert_eq!(rows[0].password.len(), 60);
        }
        other => panic!("expected InsertUsers, got {:?}", other),
    }

    let (seeder, action) = seeder.step(Event::Done);
    assert_eq!(seeder.stage(), Stage::FetchUserIds);
    assert_eq!(selected_emails(action), vec!["root@example.com"]);

    let (seeder, action) = seeder.step(Event::Ids(vec![10, 11]));
    assert_eq!(seeder.stage(), Stage::LinkRoles);
    match action {
        Action::InsertLinks(links) => {
            assert_eq!(links.sql, "INSERT INTO users_roles (user_id, role_id) VALUES ($1,$2)");
            assert_eq!(links.rows, vec![(10, 1), (10, 2), (11, 1), (11, 2)]);
        }
        other => panic!("expected InsertLinks, got {:?}", other),
    }

    let (seeder, action) = seeder.step(Event::Done);
    assert_eq!(seeder.stage(), Stage::LinkNotifications);
    match action {
        Action::InsertLinks(links) => {
            assert_eq!(
                links.sql,
                "INSERT INTO users_notifications (user_id, notification_id) VALUES ($1,$2)"
            );
            assert_eq!(links.rows, vec![(10, 7), (11, 7)]);
        }
        other => panic!("expected InsertLinks, got {:?}", other),
    }

    let (seeder, action) = seeder.step(Event::Done);
    assert_eq!(seeder.stage(), Stage::Finished);
    assert!(seeder.is_over());
    assert!(matches!(action, Action::Finish));
}

#[test]
fn absent_config_file_aborts_before_any_database_work() {
    let (seeder, _) = Seeder::new();
    let (seeder, action) =
        seeder.step(Event::Failed("No such file or directory (os error 2)".to_string()));
    assert_eq!(seeder.stage(), Stage::Aborted);
    assert!(seeder.is_over());
    assert_eq!(abort_message(action), "migration.yml, No such file or directory (os error 2)");
}

#[test]
fn a_run_that_is_over_only_aborts() {
    let (seeder, _) = Seeder::new();
    let (seeder, _) = seeder.step(Event::Failed("gone".to_string()));
    let (seeder, action) = seeder.step(Event::Done);
    assert_eq!(seeder.stage(), Stage::Aborted);
    assert_eq!(abort_message(action), "Unexpected event");
    let (seeder, action) = seeder.step(Event::ConfigText(CONFIG.to_string()));
    assert_eq!(seeder.stage(), Stage::Aborted);
    assert_eq!(abort_message(action), "Unexpected event");
    let (seeder, action) = seeder.step(Event::Failed("again".to_string()));
    assert_eq!(seeder.stage(), Stage::Aborted);
    assert_eq!(abort_message(action), "Unexpected event");
}

#[test]
fn config_that_cannot_be_used_aborts() {
    let (seeder, _) = Seeder::new();
    let (seeder, action) = seeder.step(Event::ConfigText("accounts: 3\n".to_string()));
    assert_eq!(seeder.stage(), Stage::Aborted);
    assert_eq!(abort_message(action), "Cannot convert to hash");

    let (seeder, _) = Seeder::new();
    let (_, action) = seeder.step(Event::ConfigText("accounts: {}\n".to_string()));
    assert_eq!(abort_message(action), "Cannot convert to hash");

    let (seeder, _) = Seeder::new();
    let text = "accounts: {}\ndatabase: {user: u, pass: p, port: \"x\", name: n, host: h}\n";
    let (_, action) = seeder.step(Event::ConfigText(text.to_string()));
    assert!(!abort_message(action).is_empty());

    let (seeder, _) = Seeder::new();
    let text = "accounts: {}\ndatabase: {user: u, pass: p, port: \"1\", name: n}\n";
    let (_, action) = seeder.step(Event::ConfigText(text.to_string()));
    assert_eq!(abort_message(action), "Cannot find host");
}

#[test]
fn accounts_are_read_before_the_database_parameters() {
    let e = read_config("accounts:\n  a:\n    - 1\ndatabase: 3\n").unwrap_err();
    assert_eq!(e.details(), "Cannot convert to hash");
    let e = read_config("accounts:\n  1: []\ndatabase: 3\n").unwrap_err();
    assert_eq!(e.details(), "Cannot convert to string");
    let e = read_config("accounts: {}\ndatabase: {port: 1}\n").unwrap_err();
    assert_eq!(e.details(), "Cannot convert to string");
}

#[test]
fn read_config_gives_accounts_and_parameters() {
    let (accounts, params) = read_config(CONFIG).unwrap();
    assert_eq!(accounts.len(), 1);
    assert_eq!(accounts.accounts(0)[0].get("email"), Some("root@example.com"));
    assert_eq!(params.port, 5432);
    assert_eq!(params.database, "app");
}

#[test]
fn failure_of_database_work_aborts_with_its_cause() {
    let (seeder, _) = Seeder::new();
    let (seeder, _) = seeder.step(Event::ConfigText(CONFIG.to_string()));
    let (seeder, action) = seeder.step(Event::Failed("connection refused".to_string()));
    assert_eq!(seeder.stage(), Stage::Aborted);
    assert_eq!(abort_message(action), "connection refused");

    let (seeder, _) = Seeder::new();
    let (seeder, _) = seeder.step(Event::ConfigText(CONFIG.to_string()));
    let (seeder, _) = seeder.step(Event::Done);
    let (seeder, action) = seeder.step(Event::Failed("relation \"roles\" does not exist".to_string()));
    assert_eq!(seeder.stage(), Stage::Aborted);
    assert_eq!(abort_message(action), "relation \"roles\" does not exist");

    let seeder = up_to_notifications(CONFIG, vec![1]);
    let (seeder, action) = seeder.step(Event::Failed("timeout".to_string()));
    assert_eq!(seeder.stage(), Stage::Aborted);
    assert_eq!(abort_message(action), "timeout");
}

#[test]
fn failure_after_the_users_were_made_aborts_with_its_cause() {
    let seeder = up_to_notifications(CONFIG, vec![1]);
    let (seeder, _) = seeder.step(Event::Ids(vec![2]));
    assert_eq!(seeder.stage(), Stage::InsertUsers);
    let (seeder, action) = seeder.step(Event::Failed("duplicate key".to_string()));
    assert_eq!(seeder.stage(), Stage::Aborted);
    assert_eq!(abort_message(action), "duplicate key");
}

#[test]
fn failure_while_linking_aborts_with_its_cause() {
    let seeder = up_to_notifications("database: {host: h, port: \"1\", user: u, pass: p, name: n}\naccounts: {}\n", vec![1]);
    let (seeder, _) = seeder.step(Event::Ids(vec![2]));
    let (seeder, _) = seeder.step(Event::Done);
    assert_eq!(seeder.stage(), Stage::FetchUserIds);
    let (seeder, _) = seeder.step(Event::Ids(vec![5]));
    let (seeder, action) = seeder.step(Event::Failed("fk violation".to_string()));
    assert_eq!(seeder.stage(), Stage::Aborted);
    assert_eq!(abort_message(action), "fk violation");
}

#[test]
fn an_event_that_the_stage_does_not_wait_for_aborts() {
    let (seeder, _) = Seeder::new();
    let (seeder, action) = seeder.step(Event::Ids(vec![1]));
    assert_eq!(seeder.stage(), Stage::Aborted);
    assert_eq!(abort_message(action), "Unexpected event");

    let (seeder, _) = Seeder::new();
    let (seeder, _) = seeder.step(Event::ConfigText(CONFIG.to_string()));
    let (seeder, action) = seeder.step(Event::Ids(vec![1]));
    assert_eq!(seeder.stage(), Stage::Aborted);
    assert_eq!(abort_message(action), "Unexpected event");

    let (seeder, _) = Seeder::new();
    let (seeder, _) = seeder.step(Event::ConfigText(CONFIG.to_string()));
    let (seeder, _) = seeder.step(Event::Done);
    let (_, action) = seeder.step(Event::Done);
    assert_eq!(abort_message(action), "Unexpected event");
}

#[test]
fn empty_tables_link_nothing_but_users_are_still_made() {
    let seeder = up_to_notifications(CONFIG, vec![]);
    let (seeder, action) = seeder.step(Event::Ids(vec![]));
    match action {
        Action::InsertUsers { rows, .. } => {
            assert_eq!(rows.len(), 1);
            assert_eq!(rows[0].email, "root@example.com");
        }
        other => panic!("expected InsertUsers, got {:?}", other),
    }
    let (seeder, _) = seeder.step(Event::Done);
    let (seeder, action) = seeder.step(Event::Ids(vec![10]));
    assert!(matches!(action, Action::InsertLinks(links) if links.rows.is_empty()));
    let (seeder, action) = seeder.step(Event::Done);
    assert!(matches!(action, Action::InsertLinks(links) if links.rows.is_empty()));
    let (seeder, action) = seeder.step(Event::Done);
    assert!(matches!(action, Action::Finish));
    assert_eq!(seeder.stage(), Stage::Finished);
}

#[test]
fn no_resolved_users_link_nothing() {
    let seeder = up_to_notifications("database: {host: h, port: \"1\", user: u, pass: p, name: n}\naccounts: {}\n", vec![1, 2]);
    let (seeder, action) = seeder.step(Event::Ids(vec![3]));
    assert!(matches!(action, Action::InsertUsers { rows, .. } if rows.is_empty()));
    let (seeder, action) = seeder.step(Event::Done);
    assert!(selected_emails(action).is_empty());
    let (seeder, action) = seeder.step(Event::Ids(vec![]));
    assert!(matches!(action, Action::InsertLinks(links) if links.rows.is_empty()));
    let (_, action) = seeder.step(Event::Done);
    assert!(matches!(action, Action::InsertLinks(links) if links.rows.is_empty()));
}

#[test]
fn more_ids_than_accounts_are_all_linked() {
    let seeder = up_to_notifications(CONFIG, vec![1]);
    let (seeder, _) = seeder.step(Event::Ids(vec![9]));
    let (seeder, _) = seeder.step(Event::Done);
    let (seeder, action) = seeder.step(Event::Ids(vec![10, 11, 12]));
    assert!(matches!(action, Action::InsertLinks(links) if links.rows == vec![(10, 1), (11, 1), (12, 1)]));
    let (_, action) = seeder.step(Event::Done);
    assert!(matches!(action, Action::InsertLinks(links) if links.rows == vec![(10, 9), (11, 9), (12, 9)]));
}

#[test]
fn a_second_run_asks_for_the_same_users_again() {
    let mut emails = Vec::new();
    let mut hashes = Vec::new();
    for _ in 0..2 {
        let seeder = up_to_notifications(CONFIG, vec![1]);
        let (_, action) = seeder.step(Event::Ids(vec![1]));
        match action {
            Action::InsertUsers { rows, .. } => {
                assert_eq!(rows.len(), 1);
                emails.push(rows[0].email.clone());
                hashes.push(rows[0].password.clone());
            }
            other => panic!("expected InsertUsers, got {:?}", other),
        }
    }
    assert_eq!(emails[0], emails[1]);
    assert_ne!(hashes[0], hashes[1]);
}

#[test]
fn an_account_without_email_aborts_after_the_rows_before_it() {
    let text = "\
database: {host: h, port: \"1\", user: u, pass: p, name: n}
accounts:
  admins:
    - email: a@x
      password: one
    - password: two
";
    let seeder = up_to_notifications(text, vec![1]);
    let (seeder, action) = seeder.step(Event::Ids(vec![1]));
    assert_eq!(seeder.stage(), Stage::InsertUsers);
    assert!(matches!(action, Action::InsertUsers { rows, .. } if rows.len() == 1 && rows[0].email == "a@x"));
    let (seeder, action) = seeder.step(Event::Done);
    assert_eq!(seeder.stage(), Stage::Aborted);
    assert_eq!(abort_message(action), "Cannot find email");
}

#[test]
fn users_of_all_groups_are_inserted_in_document_order() {
    let seeder = up_to_notifications(TWO_ACCOUNTS, vec![]);
    let (seeder, action) = seeder.step(Event::Ids(vec![]));
    assert!(matches!(action, Action::InsertUsers { rows, .. }
        if rows.len() == 2 && rows[0].email == "a@x" && rows[1].email == "b@x"));
    let (_, action) = seeder.step(Event::Done);
    assert_eq!(selected_emails(action), vec!["a@x", "b@x"]);
}
