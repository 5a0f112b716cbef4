use user_seeder::error::{missing, MyError};
use user_seeder::pipeline::{exit_message, finished_message, started_message};

#[test]
fn error_keeps_its_message() {
    let e = MyError::new("Cannot convert to hash");
    assert_eq!(e.details(), "Cannot convert to hash");
}

#[test]
fn error_may_be_empty() {
    let e = MyError::new("");
    assert_eq!(e.details(), "");
}

#[test]
fn missing_names_the_entry() {
    assert_eq!(missing("email").details(), "Cannot find email");
    assert_eq!(missing("").details(), "Cannot find ");
}

#[test]
fn exit_message_puts_the_cause_after_the_prefix() {
    let e = MyError::new("Cannot convert to string");
    assert_eq!(exit_message(&e), "Seeding aborted: Cannot convert to string");
}

#[test]
fn run_messages() {
    assert_eq!(started_message(), "Seeding started...");
    assert_eq!(finished_message(), "Successfully seeded users list");
}
