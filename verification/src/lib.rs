//! Seeding of user accounts: the rules that turn a configuration document
//! into the rows a seeding run writes to the database.
//!
//! The library reads no file and opens no connection. It says what a
//! configuration text holds (`config`, over the document tree of
//! `document`), which rows a run inserts (`users`, `links`) and which
//! queries it runs (`query`), and in which order, as a state machine
//! (`pipeline`) that a program drives. `laws` holds what is proved of every
//! run.

pub mod account;
pub mod config;
pub mod connection;
pub mod document;
pub mod error;
pub mod keyed;
pub mod laws;
pub mod links;
pub mod pipeline;
pub mod query;
pub mod text_map;
pub mod users;

pub use account::{AccountGroups, UserAccount};
pub use config::{load_db_info, load_user_accounts};
pub use connection::{connection_params, ConnectionParams};
pub use document::{load_yaml, Node};
pub use error::MyError;
pub use links::{create_user_notifications, create_user_roles, LinkInsert};
pub use query::{get_notifications, get_roles, Query};
pub use text_map::TextMap;
pub use users::{create_user, get_inserted_user_ids, rows_from_hashes, UserInsert, UserRow};
pub use pipeline::{Action, Event, Seeder, Stage};
