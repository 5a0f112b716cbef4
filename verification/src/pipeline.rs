//! The seeding run as a state machine.
//!
//! A run is a fixed line of stages: read the configuration, connect, fetch
//! the roles, fetch the notifications, insert the users, fetch their ids,
//! link them to the roles, link them to the notifications. The machine
//! decides; whoever drives it does the outside work. It performs the action
//! that the machine hands out, reports what came of it as an event, and gets
//! the next action in return, until the action is `Finish` or `Abort`. The
//! first failure ends the run: nothing is tried again, and nothing that was
//! inserted before is taken back.

use vstd::prelude::*;
use vstd::string::StringExecFns;
use crate::account::{all_accounts, AccountGroups, GroupView};
use crate::config::{
    accounts_from_document, accounts_of_text, db_info_from_document, db_info_of_text,
    load_document,
};
use crate::connection::{connection_params, params_result, ConnectionParams, ConnectionView};
use crate::error::{missing_field, MyError};
use crate::links::{
    create_user_notifications, create_user_roles, insert_notification_sql, insert_role_sql,
    link_rows, LinkInsert,
};
use crate::query::{
    get_notifications, get_roles, ids_query, notifications_query, roles_query, Query, QueryView,
};
use crate::users::{
    all_have_email, create_user, email_field, emails_of, failure_view, get_inserted_user_ids,
    insert_user_sql, rows_view, users_made, UserRow, UserRowView,
};

verus! {

/// Where a run stands: the outside work that it waits for, or how it ended.
#[derive(Clone, Copy, Debug, PartialEq, Eq, Structural)]
pub enum Stage {
    /// Waiting for the text of the configuration file.
    ReadConfig,
    /// Waiting for the connection to the database.
    Connect,
    /// Waiting for the ids of the roles.
    FetchRoles,
    /// Waiting for the ids of the notifications.
    FetchNotifications,
    /// Waiting for the user rows to be inserted.
    InsertUsers,
    /// Waiting for the ids of the users.
    FetchUserIds,
    /// Waiting for the links to the roles to be inserted.
    LinkRoles,
    /// Waiting for the links to the notifications to be inserted.
    LinkNotifications,
    /// The run is over: everything was seeded.
    Finished,
    /// The run is over: it was given up.
    Aborted,
}

/// What came of the outside work that the last action asked for.
#[derive(Debug)]
pub enum Event {
    /// The configuration file was read; this is its text.
    ConfigText(String),
    /// The connection is open, or the rows are inserted.
    Done,
    /// The query was run; these are the ids of its rows, in order.
    Ids(Vec<i32>),
    /// The work failed; this is why.
    Failed(String),
}

/// What an `Event` holds.
pub enum EventView {
    ConfigText(Seq<char>),
    Done,
    Ids(Seq<i32>),
    Failed(Seq<char>),
}

impl View for Event {
    type V = EventView;

    open spec fn view(&self) -> EventView {
        match self {
            Event::ConfigText(text) => EventView::ConfigText(text@),
            Event::Done => EventView::Done,
            Event::Ids(ids) => EventView::Ids(ids@),
            Event::Failed(cause) => EventView::Failed(cause@),
        }
    }
}

/// The outside work that the run asks for next.
#[derive(Debug)]
pub enum Action {
    /// Read the configuration file at this path and report its text.
    ReadConfig(String),
    /// Open the one connection of the run.
    Connect(ConnectionParams),
    /// Run the query with its parameters and report the ids of its rows.
    Select(Query),
    /// Insert each row with the statement, in order.
    InsertUsers { sql: String, rows: Vec<UserRow> },
    /// Insert each row with the statement, in order.
    InsertLinks(LinkInsert),
    /// Report success and end.
    Finish,
    /// Report the error and end.
    Abort(MyError),
}

/// What an `Action` holds.
pub enum ActionView {
    ReadConfig(Seq<char>),
    Connect(ConnectionView),
    Select(QueryView),
    InsertUsers { sql: Seq<char>, rows: Seq<UserRowView> },
    InsertLinks { sql: Seq<char>, pairs: Seq<(i32, i32)> },
    Finish,
    Abort(Seq<char>),
}

impl View for Action {
    type V = ActionView;

    open spec fn view(&self) -> ActionView {
        match self {
            Action::ReadConfig(path) => ActionView::ReadConfig(path@),
            Action::Connect(params) => ActionView::Connect(params@),
            Action::Select(query) => ActionView::Select(query@),
            Action::InsertUsers { sql, rows } => ActionView::InsertUsers {
                sql: sql@,
                rows: rows_view(rows@),
            },
            Action::InsertLinks(insert) => ActionView::InsertLinks {
                sql: insert.sql@,
                pairs: insert.rows@,
            },
            Action::Finish => ActionView::Finish,
            Action::Abort(error) => ActionView::Abort(error@),
        }
    }
}

/// The state of a run.
#[derive(Debug)]
pub struct Seeder {
    stage: Stage,
    accounts: AccountGroups,
    roles: Vec<i32>,
    notifications: Vec<i32>,
    user_ids: Vec<i32>,
    failure: Option<MyError>,
}

/// What a `Seeder` holds.
pub struct SeederView {
    /// Where the run stands.
    pub stage: Stage,
    /// The accounts of the configuration, once it is read.
    pub accounts: Seq<GroupView>,
    /// The ids of the roles, once they are fetched.
    pub roles: Seq<i32>,
    /// The ids of the notifications, once they are fetched.
    pub notifications: Seq<i32>,
    /// The ids of the users, once they are fetched.
    pub user_ids: Seq<i32>,
    /// Why not every account got its user row, if so. The run ends with it
    /// once the rows that were made are inserted.
    pub failure: Option<Seq<char>>,
}

impl View for Seeder {
    type V = SeederView;

    closed spec fn view(&self) -> SeederView {
        SeederView {
            stage: self.stage,
            accounts: self.accounts@,
            roles: self.roles@,
            notifications: self.notifications@,
            user_ids: self.user_ids@,
            failure: failure_view(self.failure),
        }
    }
}

/// The path of the configuration file.
pub open spec fn config_path() -> Seq<char> {
    "./migration.yml"@
}

/// The message for a configuration file that could not be read for the
/// reason `cause`.
pub open spec fn unreadable_config(cause: Seq<char>) -> Seq<char> {
    "migration.yml, "@ + cause
}

/// The message for an event that the stage of the run does not wait for.
pub open spec fn unexpected_event() -> Seq<char> {
    "Unexpected event"@
}

/// The line that reports the error `message` of a run that was given up.
pub open spec fn exit_line(message: Seq<char>) -> Seq<char> {
    "Seeding aborted: "@ + message
}

/// A run before anything is done.
pub open spec fn initial() -> SeederView {
    SeederView {
        stage: Stage::ReadConfig,
        accounts: Seq::empty(),
        roles: Seq::empty(),
        notifications: Seq::empty(),
        user_ids: Seq::empty(),
        failure: None,
    }
}

/// What the configuration text `text` says: the accounts and the connection
/// parameters, or the first complaint, the accounts read first.
pub open spec fn config_of_text(text: Seq<char>) -> Result<
    (Seq<GroupView>, ConnectionView),
    Seq<char>,
> {
    match accounts_of_text(text) {
        Err(message) => Err(message),
        Ok(accounts) => match db_info_of_text(text) {
            Err(message) => Err(message),
            Ok(info) => match params_result(info) {
                Err(message) => Err(message),
                Ok(params) => Ok((accounts, params)),
            },
        },
    }
}

/// Whether `action` works on the database.
pub open spec fn touches_database(action: ActionView) -> bool {
    action is Connect || action is Select || action is InsertUsers || action is InsertLinks
}

/// Whether a run in `stage` waits for outside work on the database.
pub open spec fn awaits_database(stage: Stage) -> bool {
    stage != Stage::ReadConfig && stage != Stage::Finished && stage != Stage::Aborted
}

/// The run is given up with `message`: it keeps what it holds.
pub open spec fn gives_up(
    before: SeederView,
    after: SeederView,
    action: ActionView,
    message: Seq<char>,
) -> bool {
    after == (SeederView { stage: Stage::Aborted, ..before }) && action == ActionView::Abort(
        message,
    )
}

/// The run goes on to `stage` with `action`, and keeps what it holds.
pub open spec fn moves_on(
    before: SeederView,
    after: SeederView,
    action: ActionView,
    stage: Stage,
    next: ActionView,
) -> bool {
    after == (SeederView { stage: stage, ..before }) && action == next
}

/// One step of a run: from the state `before` and the event `event` to the
/// state `after` and the action `action`.
///
/// Every step but one is fixed by the state and the event. Making the user
/// rows hashes the passwords, so that step is fixed by the state, the event
/// and what hashing came to: `users_made`.
pub open spec fn step_spec(
    before: SeederView,
    event: EventView,
    after: SeederView,
    action: ActionView,
) -> bool {
    match (before.stage, event) {
        (Stage::ReadConfig, EventView::ConfigText(text)) => match config_of_text(text) {
            Err(message) => gives_up(before, after, action, message),
            Ok((accounts, params)) => moves_on(
                SeederView { accounts: accounts, ..before },
                after,
                action,
                Stage::Connect,
                ActionView::Connect(params),
            ),
        },
        (Stage::ReadConfig, EventView::Failed(cause)) => gives_up(
            before,
            after,
            action,
            unreadable_config(cause),
        ),
        (Stage::Connect, EventView::Done) => moves_on(
            before,
            after,
            action,
            Stage::FetchRoles,
            ActionView::Select(roles_query()),
        ),
        (Stage::FetchRoles, EventView::Ids(ids)) => moves_on(
            SeederView { roles: ids, ..before },
            after,
            action,
            Stage::FetchNotifications,
            ActionView::Select(notifications_query()),
        ),
        (Stage::FetchNotifications, EventView::Ids(ids)) => {
            &&& after == (SeederView {
                stage: Stage::InsertUsers,
                notifications: ids,
                failure: after.failure,
                ..before
            })
            &&& action matches ActionView::InsertUsers { sql, rows }
            &&& sql == insert_user_sql()
            &&& users_made(all_accounts(before.accounts), rows, after.failure)
        },
        (Stage::InsertUsers, EventView::Done) => match before.failure {
            Some(message) => gives_up(before, after, action, message),
            None => if all_have_email(all_accounts(before.accounts)) {
                moves_on(
                    before,
                    after,
                    action,
                    Stage::FetchUserIds,
                    ActionView::Select(ids_query(emails_of(all_accounts(before.accounts)))),
                )
            } else {
                gives_up(before, after, action, missing_field(email_field()))
            },
        },
        (Stage::FetchUserIds, EventView::Ids(ids)) => moves_on(
            SeederView { user_ids: ids, ..before },
            after,
            action,
            Stage::LinkRoles,
            ActionView::InsertLinks { sql: insert_role_sql(), pairs: link_rows(ids, before.roles) },
        ),
        (Stage::LinkRoles, EventView::Done) => moves_on(
            before,
            after,
            action,
            Stage::LinkNotifications,
            ActionView::InsertLinks {
                sql: insert_notification_sql(),
                pairs: link_rows(before.user_ids, before.notifications),
            },
        ),
        (Stage::LinkNotifications, EventView::Done) => moves_on(
            before,
            after,
            action,
            Stage::Finished,
            ActionView::Finish,
        ),
        (stage, EventView::Failed(cause)) => if awaits_database(stage) {
            gives_up(before, after, action, cause)
        } else {
            gives_up(before, after, action, unexpected_event())
        },
        _ => gives_up(before, after, action, unexpected_event()),
    }
}

/// A copy of `ids`.
pub fn copy_ids(ids: &Vec<i32>) -> (copy: Vec<i32>)
    ensures
        copy@ == ids@,
{
    let mut copy: Vec<i32> = Vec::new();
    let mut i: usize = 0;
    while i < ids.len()
        invariant
            i <= ids@.len(),
            copy@ == ids@.take(i as int),
        decreases ids@.len() - i,
    {
        copy.push(ids[i]);
        assert(copy@ =~= ids@.take(i + 1));
        i += 1;
    }
    assert(ids@.take(i as int) =~= ids@);
    copy
}

/// The accounts and the connection parameters that the configuration text
/// `text` gives.
///
/// Fails with the first complaint: that of reading the accounts, then that of
/// reading the database parameters, then that of making connection
/// parameters of them.
pub fn read_config(text: &str) -> (read: Result<(AccountGroups, ConnectionParams), MyError>)
    ensures
        match read {
            Ok((accounts, params)) => config_of_text(text@) == Ok::<
                (Seq<GroupView>, ConnectionView),
                Seq<char>,
            >((accounts@, params@)),
            Err(error) => config_of_text(text@) == Err::<
                (Seq<GroupView>, ConnectionView),
                Seq<char>,
            >(error@),
        },
{
    let document = load_document(text)?;
    let accounts = accounts_from_document(&document)?;
    let info = db_info_from_document(&document)?;
    let params = connection_params(&info)?;
    Ok((accounts, params))
}

/// The line that reports `error` when a run is given up.
pub fn exit_message(error: &MyError) -> (line: String)
    ensures
        line@ == exit_line(error@),
{
    "Seeding aborted: ".to_owned().concat(error.details())
}

/// The line that announces a run.
pub fn started_message() -> (line: &'static str)
    ensures
        line@ == "Seeding started..."@,
{
    "Seeding started..."
}

/// The line that reports a run that seeded everything.
pub fn finished_message() -> (line: &'static str)
    ensures
        line@ == "Successfully seeded users list"@,
{
    "Successfully seeded users list"
}

impl Seeder {
    /// A run before anything is done, with its first action: to read the
    /// configuration file.
    pub fn new() -> (start: (Seeder, Action))
        ensures
            start.0@ == initial(),
            start.1@ == ActionView::ReadConfig(config_path()),
    {
        let seeder = Seeder {
            stage: Stage::ReadConfig,
            accounts: AccountGroups::new(),
            roles: Vec::new(),
            notifications: Vec::new(),
            user_ids: Vec::new(),
            failure: None,
        };
        (seeder, Action::ReadConfig("./migration.yml".to_owned()))
    }

    /// Where the run stands.
    pub fn stage(&self) -> (stage: Stage)
        ensures
            stage == self@.stage,
    {
        self.stage
    }

    /// Whether the run is over.
    pub fn is_over(&self) -> (over: bool)
        ensures
            over == (self@.stage == Stage::Finished || self@.stage == Stage::Aborted),
    {
        match self.stage {
            Stage::Finished => true,
            Stage::Aborted => true,
            _ => false,
        }
    }

    /// Gives the run up with `error`.
    fn give_up(self, error: MyError) -> (next: (Seeder, Action))
        ensures
            gives_up(self@, next.0@, next.1@, error@),
    {
        let seeder = Seeder {
            stage: Stage::Aborted,
            accounts: self.accounts,
            roles: self.roles,
            notifications: self.notifications,
            user_ids: self.user_ids,
            failure: self.failure,
        };
        (seeder, Action::Abort(error))
    }

    /// Takes the run on to `stage` with `action`.
    fn move_on(self, stage: Stage, action: Action) -> (next: (Seeder, Action))
        ensures
            moves_on(self@, next.0@, next.1@, stage, action@),
    {
        let seeder = Seeder {
            stage,
            accounts: self.accounts,
            roles: self.roles,
            notifications: self.notifications,
            user_ids: self.user_ids,
            failure: self.failure,
        };
        (seeder, action)
    }

    /// Takes the run on from the notifications that were fetched to the
    /// users to insert: it hashes the passwords and makes the rows.
    fn make_users(self, notifications: Vec<i32>) -> (next: (Seeder, Action))
        requires
            self@.stage == Stage::FetchNotifications,
        ensures
            step_spec(self@, EventView::Ids(notifications@), next.0@, next.1@),
    {
        let made = create_user(&self.accounts);
        let seeder = Seeder {
            stage: Stage::InsertUsers,
            accounts: self.accounts,
            roles: self.roles,
            notifications,
            user_ids: self.user_ids,
            failure: made.failure,
        };
        (seeder, Action::InsertUsers { sql: made.sql, rows: made.rows })
    }

    /// Takes the run one step on: given what came of the last action, the
    /// state after it and the action to perform next.
    pub fn step(self, event: Event) -> (next: (Seeder, Action))
        ensures
            step_spec(self@, event@, next.0@, next.1@),
    {
        match self.stage {
            Stage::ReadConfig => match event {
                Event::ConfigText(text) => match read_config(text.as_str()) {
                    Err(error) => self.give_up(error),
                    Ok((accounts, params)) => {
                        let seeder = Seeder {
                            stage: Stage::Connect,
                            accounts,
                            roles: self.roles,
                            notifications: self.notifications,
                            user_ids: self.user_ids,
                            failure: self.failure,
                        };
                        (seeder, Action::Connect(params))
                    },
                },
                Event::Failed(cause) => {
                    let message = "migration.yml, ".to_owned().concat(cause.as_str());
                    self.give_up(MyError::new(message.as_str()))
                },
                _ => self.give_up(MyError::new("Unexpected event")),
            },
            Stage::Connect => match event {
                Event::Done => self.move_on(Stage::FetchRoles, Action::Select(get_roles())),
                Event::Failed(cause) => self.give_up(MyError::new(cause.as_str())),
                _ => self.give_up(MyError::new("Unexpected event")),
            },
            Stage::FetchRoles => match event {
                Event::Ids(ids) => {
                    let seeder = Seeder {
                        stage: Stage::FetchNotifications,
                        accounts: self.accounts,
                        roles: ids,
                        notifications: self.notifications,
                        user_ids: self.user_ids,
                        failure: self.failure,
                    };
                    (seeder, Action::Select(get_notifications()))
                },
                Event::Failed(cause) => self.give_up(MyError::new(cause.as_str())),
                _ => self.give_up(MyError::new("Unexpected event")),
            },
            Stage::FetchNotifications => match event {
                Event::Ids(ids) => self.make_users(ids),
                Event::Failed(cause) => self.give_up(MyError::new(cause.as_str())),
                _ => self.give_up(MyError::new("Unexpected event")),
            },
            Stage::InsertUsers => match event {
                Event::Done => {
                    let mut seeder = self;
                    match seeder.failure.take() {
                        Some(error) => {
                            let message = MyError::new(error.details());
                            seeder.failure = Some(error);
                            seeder.give_up(message)
                        },
                        None => match get_inserted_user_ids(&seeder.accounts) {
                            Ok(query) => seeder.move_on(Stage::FetchUserIds, Action::Select(query)),
                            Err(error) => seeder.give_up(error),
                        },
                    }
                },
                Event::Failed(cause) => self.give_up(MyError::new(cause.as_str())),
                _ => self.give_up(MyError::new("Unexpected event")),
            },
            Stage::FetchUserIds => match event {
                Event::Ids(ids) => {
                    let links = create_user_roles(copy_ids(&ids), copy_ids(&self.roles));
                    let seeder = Seeder {
                        stage: Stage::LinkRoles,
                        accounts: self.accounts,
                        roles: self.roles,
                        notifications: self.notifications,
                        user_ids: ids,
                        failure: self.failure,
                    };
                    (seeder, Action::InsertLinks(links))
                },
                Event::Failed(cause) => self.give_up(MyError::new(cause.as_str())),
                _ => self.give_up(MyError::new("Unexpected event")),
            },
            Stage::LinkRoles => match event {
                Event::Done => {
                    let links = create_user_notifications(
                        copy_ids(&self.user_ids),
                        copy_ids(&self.notifications),
                    );
                    self.move_on(Stage::LinkNotifications, Action::InsertLinks(links))
                },
                Event::Failed(cause) => self.give_up(MyError::new(cause.as_str())),
                _ => self.give_up(MyError::new("Unexpected event")),
            },
            Stage::LinkNotifications => match event {
                Event::Done => self.move_on(Stage::Finished, Action::Finish),
                Event::Failed(cause) => self.give_up(MyError::new(cause.as_str())),
                _ => self.give_up(MyError::new("Unexpected event")),
            },
            Stage::Finished => self.give_up(MyError::new("Unexpected event")),
            Stage::Aborted => self.give_up(MyError::new("Unexpected event")),
        }
    }
}

} // verus!
