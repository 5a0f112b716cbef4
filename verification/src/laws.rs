//! What holds of every seeding run.

use vstd::prelude::*;
use crate::account::{all_accounts, AccountView};
use crate::links::{insert_notification_sql, insert_role_sql, lemma_link_rows_empty};
use crate::pipeline::{
    config_of_text, config_path, initial, step_spec, touches_database, unreadable_config,
    ActionView, EventView, SeederView, Stage,
};
use crate::users::{
    all_have_email, bcrypt_accepts, email_field, insert_user_sql, lemma_users_seeded,
    lemma_walk_prefix, password_field, row_failure, row_made, row_of, row_seeds,
    rows_until_failure, users_made, users_seeded, Outcome, UserRowView,
};

verus! {

/// Whether `states`, `events` and `actions` are the record of a run from its
/// start: the first state is that of a new run and the first action is to
/// read the configuration; then each event leads by one step from the state
/// before it to the state and the action after it.
pub open spec fn is_run(
    states: Seq<SeederView>,
    events: Seq<EventView>,
    actions: Seq<ActionView>,
) -> bool {
    &&& states.len() == events.len() + 1
    &&& actions.len() == events.len() + 1
    &&& states[0] == initial()
    &&& actions[0] == ActionView::ReadConfig(config_path())
    &&& forall|i: int|
        0 <= i < events.len() ==> step_spec(
            states[i],
            #[trigger] events[i],
            states[i + 1],
            actions[i + 1],
        )
}

/// Whether `event` hands over a configuration that can be used.
pub open spec fn is_good_config(event: EventView) -> bool {
    event matches EventView::ConfigText(text) && config_of_text(text) is Ok
}

/// A run that is over stays over: whatever is reported to it, it answers
/// with `Abort`.
pub proof fn lemma_over_stays_over(
    before: SeederView,
    event: EventView,
    after: SeederView,
    action: ActionView,
)
    requires
        before.stage == Stage::Finished || before.stage == Stage::Aborted,
        step_spec(before, event, after, action),
    ensures
        after.stage == Stage::Aborted,
        action is Abort,
{
}

/// Once a run was given up, every later state is `Aborted` and every later
/// action is `Abort`.
pub proof fn lemma_aborted_run_stays(
    states: Seq<SeederView>,
    events: Seq<EventView>,
    actions: Seq<ActionView>,
    given_up: int,
    later: int,
)
    requires
        is_run(states, events, actions),
        0 <= given_up < later < states.len(),
        states[given_up].stage == Stage::Aborted,
    ensures
        states[later].stage == Stage::Aborted,
        actions[later] is Abort,
    decreases later - given_up,
{
    if given_up + 1 < later {
        lemma_aborted_run_stays(states, events, actions, given_up, later - 1);
    }
    let i = later - 1;
    assert(step_spec(states[i], events[i], states[i + 1], actions[i + 1]));
    lemma_over_stays_over(states[i], events[i], states[later], actions[later]);
}

/// Where the configuration file cannot be read, the run is given up at once
/// with a message that names the file and the cause.
pub proof fn lemma_unread_config_aborts(
    before: SeederView,
    cause: Seq<char>,
    after: SeederView,
    action: ActionView,
)
    requires
        before.stage == Stage::ReadConfig,
        step_spec(before, EventView::Failed(cause), after, action),
    ensures
        after.stage == Stage::Aborted,
        action == ActionView::Abort(unreadable_config(cause)),
{
}

/// No run touches the database before it has read a configuration that can
/// be used: where an action of a run works on the database, the first event
/// of the run handed over such a configuration. So a run whose configuration
/// file is absent, unreadable or wrong never connects.
pub proof fn lemma_database_needs_config(
    states: Seq<SeederView>,
    events: Seq<EventView>,
    actions: Seq<ActionView>,
    i: int,
)
    requires
        is_run(states, events, actions),
        0 <= i < actions.len(),
        touches_database(actions[i]),
    ensures
        events.len() > 0,
        is_good_config(events[0]),
{
    if i > 0 {
        assert(step_spec(states[0], events[0], states[1], actions[1]));
        if !is_good_config(events[0]) {
            assert(states[1].stage == Stage::Aborted);
            assert(actions[1] is Abort);
            if i > 1 {
                lemma_aborted_run_stays(states, events, actions, 1, i);
            }
        }
    }
}

/// The place of a stage in the line of stages of a run.
pub open spec fn rank(stage: Stage) -> int {
    match stage {
        Stage::ReadConfig => 0,
        Stage::Connect => 1,
        Stage::FetchRoles => 2,
        Stage::FetchNotifications => 3,
        Stage::InsertUsers => 4,
        Stage::FetchUserIds => 5,
        Stage::LinkRoles => 6,
        Stage::LinkNotifications => 7,
        Stage::Finished => 8,
        Stage::Aborted => 9,
    }
}

/// A run goes down the line of stages one by one: each step takes it to the
/// next stage, or gives it up. It finishes from the last stage only, and it
/// is given up exactly when it answers with `Abort`.
pub proof fn lemma_run_goes_forward(
    before: SeederView,
    event: EventView,
    after: SeederView,
    action: ActionView,
)
    requires
        step_spec(before, event, after, action),
    ensures
        after.stage == Stage::Aborted || rank(after.stage) == rank(before.stage) + 1,
        after.stage == Stage::Aborted <==> action is Abort,
        after.stage == Stage::Finished <==> action is Finish,
        action is Finish ==> before.stage == Stage::LinkNotifications,
{
}

/// The links of a run are as many as the ids that were resolved times the
/// roles, and as many as those ids times the notifications.
pub proof fn lemma_links_are_the_product(
    before: SeederView,
    event: EventView,
    after: SeederView,
    action: ActionView,
)
    requires
        step_spec(before, event, after, action),
        action is InsertLinks,
    ensures
        before.stage == Stage::FetchUserIds || before.stage == Stage::LinkRoles,
        before.stage == Stage::FetchUserIds ==> event is Ids && after.user_ids == event->Ids_0
            && action->InsertLinks_pairs.len() == after.user_ids.len() * before.roles.len(),
        before.stage == Stage::LinkRoles ==> after.user_ids == before.user_ids
            && action->InsertLinks_pairs.len() == before.user_ids.len()
            * before.notifications.len(),
{
}

/// Where there are no roles, the step that links the users to the roles
/// inserts nothing.
pub proof fn lemma_no_roles_no_links(
    before: SeederView,
    user_ids: Seq<i32>,
    after: SeederView,
    action: ActionView,
)
    requires
        before.stage == Stage::FetchUserIds,
        before.roles.len() == 0,
        step_spec(before, EventView::Ids(user_ids), after, action),
    ensures
        action == (ActionView::InsertLinks {
            sql: insert_role_sql(),
            pairs: Seq::<(i32, i32)>::empty(),
        }),
{
    lemma_link_rows_empty(user_ids, before.roles);
}

/// Where there are no notifications, the step that links the users to the
/// notifications inserts nothing.
pub proof fn lemma_no_notifications_no_links(
    before: SeederView,
    after: SeederView,
    action: ActionView,
)
    requires
        before.stage == Stage::LinkRoles,
        before.notifications.len() == 0,
        step_spec(before, EventView::Done, after, action),
    ensures
        action == (ActionView::InsertLinks {
            sql: insert_notification_sql(),
            pairs: Seq::<(i32, i32)>::empty(),
        }),
{
    lemma_link_rows_empty(before.user_ids, before.notifications);
}

/// The rows that are made where every one of the first `n` accounts has
/// email and password and every one of the first `n` hashes was made.
pub open spec fn first_rows(accounts: Seq<AccountView>, hashed: Seq<Outcome>, n: int) -> Seq<
    UserRowView,
> {
    Seq::new(n as nat, |i: int| row_of(accounts[i], hashed[i]->Ok_0))
}

/// Whether a row can be made for each of the first `n` accounts: each has
/// email and password, and its hash was made.
pub open spec fn rows_can_be_made(accounts: Seq<AccountView>, hashed: Seq<Outcome>, n: int) -> bool {
    forall|i: int| 0 <= i < n ==> row_failure(#[trigger] accounts[i], hashed[i]) is None
}

/// While a row can be made for each account, the walk makes it: over the
/// first `n` accounts it makes their `n` rows and has no failure.
pub proof fn lemma_walk_makes_rows(accounts: Seq<AccountView>, hashed: Seq<Outcome>, n: int)
    requires
        0 <= n <= accounts.len(),
        rows_can_be_made(accounts, hashed, n),
    ensures
        rows_until_failure(accounts.take(n), hashed) == (
            first_rows(accounts, hashed, n),
            None::<Seq<char>>,
        ),
    decreases n,
{
    if n == 0 {
        assert(first_rows(accounts, hashed, 0) =~= Seq::<UserRowView>::empty());
    } else {
        lemma_walk_makes_rows(accounts, hashed, n - 1);
        let longer = accounts.take(n);
        assert(longer.drop_last() =~= accounts.take(n - 1));
        assert(longer[n - 1] == accounts[n - 1]);
        assert(row_failure(accounts[n - 1], hashed[n - 1]) is None);
        assert(first_rows(accounts, hashed, n) =~= first_rows(accounts, hashed, n - 1).push(
            row_of(accounts[n - 1], hashed[n - 1]->Ok_0),
        ));
    }
}

/// Where every account has email and password and every hash was made,
/// there is one row for each account, in order, with the account's email
/// and its hash, and there is no failure.
pub proof fn lemma_all_hashed_all_rows(accounts: Seq<AccountView>, hashed: Seq<Outcome>)
    requires
        rows_can_be_made(accounts, hashed, accounts.len() as int),
    ensures
        rows_until_failure(accounts, hashed) == (
            first_rows(accounts, hashed, accounts.len() as int),
            None::<Seq<char>>,
        ),
        rows_until_failure(accounts, hashed).0.len() == accounts.len(),
        forall|i: int|
            0 <= i < accounts.len() ==> (#[trigger] rows_until_failure(accounts, hashed).0[i])
                == row_of(accounts[i], hashed[i]->Ok_0),
{
    lemma_walk_makes_rows(accounts, hashed, accounts.len() as int);
    assert(accounts.take(accounts.len() as int) =~= accounts);
}

/// Where no row can be made for the account at `k`, because it lacks email
/// or password or because its hashing failed, and a row can be made for
/// each account before it, exactly the `k` rows of those accounts are kept,
/// and the failure is that of the account at `k`. No row is made for it nor
/// for any account after it.
pub proof fn lemma_failure_keeps_rows_before(
    accounts: Seq<AccountView>,
    hashed: Seq<Outcome>,
    k: int,
)
    requires
        0 <= k < accounts.len(),
        rows_can_be_made(accounts, hashed, k),
        row_failure(accounts[k], hashed[k]) is Some,
    ensures
        rows_until_failure(accounts, hashed) == (
            first_rows(accounts, hashed, k),
            row_failure(accounts[k], hashed[k]),
        ),
        rows_until_failure(accounts, hashed).0.len() == k,
{
    lemma_walk_makes_rows(accounts, hashed, k);
    let longer = accounts.take(k + 1);
    assert(longer.drop_last() =~= accounts.take(k));
    assert(longer[k] == accounts[k]);
    lemma_walk_prefix(accounts, hashed, k + 1);
}

/// The user rows do not depend on the roles and notifications that the
/// database holds: whatever ids were fetched, none included, the run goes on
/// to insert the users, with the rows that the walk over the accounts of the
/// configuration makes of what hashing came to.
pub proof fn lemma_users_seeded_whatever_was_fetched(
    before: SeederView,
    notifications: Seq<i32>,
    after: SeederView,
    action: ActionView,
)
    requires
        before.stage == Stage::FetchNotifications,
        step_spec(before, EventView::Ids(notifications), after, action),
    ensures
        after.stage == Stage::InsertUsers,
        action matches ActionView::InsertUsers { sql, rows } && sql == insert_user_sql()
            && users_made(all_accounts(before.accounts), rows, after.failure)
            && (after.failure is None ==> rows.len() == all_accounts(before.accounts).len()),
{
    let rows = action->InsertUsers_rows;
    let accounts = all_accounts(before.accounts);
    let hashed = choose|hashed: Seq<Outcome>| users_seeded(accounts, hashed, rows, after.failure);
    lemma_users_seeded(accounts, hashed, rows, after.failure);
}

/// Seeding the same accounts again makes rows for the same emails again:
/// two full lists of rows for one list of accounts have the same length and,
/// place by place, the same email. Nothing of what the database already
/// holds enters the rows, so a second run inserts every user a second time.
pub proof fn lemma_reseeding_repeats_users(
    accounts: Seq<AccountView>,
    first: Seq<UserRowView>,
    second: Seq<UserRowView>,
)
    requires
        users_made(accounts, first, None),
        users_made(accounts, second, None),
    ensures
        first.len() == second.len(),
        first.len() == accounts.len(),
        forall|i: int| 0 <= i < first.len() ==> (#[trigger] first[i]).email == second[i].email,
{
    let none = None::<Seq<char>>;
    let first_hashed = choose|hashed: Seq<Outcome>| users_seeded(accounts, hashed, first, none);
    let second_hashed = choose|hashed: Seq<Outcome>| users_seeded(accounts, hashed, second, none);
    lemma_users_seeded(accounts, first_hashed, first, none);
    lemma_users_seeded(accounts, second_hashed, second, none);
    assert forall|i: int| 0 <= i < first.len() implies (#[trigger] first[i]).email
        == second[i].email by {
        assert(row_made(accounts, first_hashed, first, i));
        assert(row_made(accounts, second_hashed, second, i));
    }
}

/// Two runs over one configuration, whatever the database handed to each,
/// ask for the same users to be inserted: where both made all their rows,
/// the rows are as many and have, place by place, the same email.
pub proof fn lemma_second_run_inserts_users_again(
    first: SeederView,
    first_ids: Seq<i32>,
    first_after: SeederView,
    first_action: ActionView,
    second: SeederView,
    second_ids: Seq<i32>,
    second_after: SeederView,
    second_action: ActionView,
)
    requires
        first.stage == Stage::FetchNotifications,
        second.stage == Stage::FetchNotifications,
        first.accounts == second.accounts,
        step_spec(first, EventView::Ids(first_ids), first_after, first_action),
        step_spec(second, EventView::Ids(second_ids), second_after, second_action),
        first_after.failure is None,
        second_after.failure is None,
    ensures
        first_action matches ActionView::InsertUsers { sql: _, rows: first_rows }
            && second_action matches ActionView::InsertUsers { sql: _, rows: second_rows }
            && first_rows.len() == second_rows.len() && forall|i: int|
            0 <= i < first_rows.len() ==> (#[trigger] first_rows[i]).email == second_rows[i].email,
{
    let first_rows = first_action->InsertUsers_rows;
    let second_rows = second_action->InsertUsers_rows;
    lemma_reseeding_repeats_users(all_accounts(first.accounts), first_rows, second_rows);
}

/// A full list of user rows has exactly one row for each account, with the
/// account's email, and with a password that bcrypt accepts for the
/// account's password.
pub proof fn lemma_one_row_per_account(accounts: Seq<AccountView>, rows: Seq<UserRowView>, i: int)
    requires
        users_made(accounts, rows, None),
        0 <= i < accounts.len(),
    ensures
        rows.len() == accounts.len(),
        accounts[i].contains_key(email_field()),
        accounts[i].contains_key(password_field()),
        rows[i].email == accounts[i][email_field()],
        bcrypt_accepts(accounts[i][password_field()], rows[i].password),
{
    let none = None::<Seq<char>>;
    let hashed = choose|hashed: Seq<Outcome>| users_seeded(accounts, hashed, rows, none);
    lemma_users_seeded(accounts, hashed, rows, none);
    assert(row_made(accounts, hashed, rows, i));
}

/// Where every account got its row, every account has an email, so the
/// query for the ids of the users can be written.
pub proof fn lemma_full_rows_have_emails(accounts: Seq<AccountView>, rows: Seq<UserRowView>)
    requires
        users_made(accounts, rows, None),
    ensures
        all_have_email(accounts),
{
    assert forall|i: int| 0 <= i < accounts.len() implies (#[trigger] accounts[i]).contains_key(
        email_field(),
    ) by {
        lemma_one_row_per_account(accounts, rows, i);
    }
}

/// A password that is not 60 characters long is never stored as it stands:
/// the password of its row differs from it.
pub proof fn lemma_stored_password_differs(account: AccountView, row: UserRowView)
    requires
        row_seeds(account, row),
        account[password_field()].len() != 60,
    ensures
        row.password != account[password_field()],
{
}

} // verus!
