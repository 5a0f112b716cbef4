//! The user rows of a seeding run, and the query that finds them again.
//!
//! Each account becomes one row of the `users` table: its email as it
//! stands and its password as a bcrypt hash. The ids that the database gave
//! to the rows are looked up by email afterwards.

use vstd::prelude::*;
use crate::account::{all_accounts, records_view, AccountGroups, AccountView, UserAccount};
use crate::error::{missing, missing_field, MyError};
use crate::query::{ids_by_email, ids_query, texts_view, Query};

verus! {

/// One row for the `users` table.
#[derive(Clone, Debug, PartialEq, Eq)]
pub struct UserRow {
    /// The email of the account.
    pub email: String,
    /// The bcrypt hash of the account's password.
    pub password: String,
}

/// What a `UserRow` holds.
pub struct UserRowView {
    pub email: Seq<char>,
    pub password: Seq<char>,
}

impl View for UserRow {
    type V = UserRowView;

    open spec fn view(&self) -> UserRowView {
        UserRowView { email: self.email@, password: self.password@ }
    }
}

/// The user rows of a run, as far as they could be made: a row for each
/// account in turn, up to the first account for which none could be made,
/// with the statement that inserts one row.
#[derive(Debug)]
pub struct UserInsert {
    /// The insert statement; its two parameters are the email and the
    /// password of a row.
    pub sql: String,
    /// The rows to insert, in order.
    pub rows: Vec<UserRow>,
    /// Why no further row was made, `None` where every account has its row.
    /// The run inserts `rows` and then ends with this error.
    pub failure: Option<MyError>,
}

/// The statement that inserts one row of `users`.
pub open spec fn insert_user_sql() -> Seq<char> {
    "INSERT INTO users (email, password) VALUES ($1, $2)"@
}

/// What a list of rows holds.
pub open spec fn rows_view(rows: Seq<UserRow>) -> Seq<UserRowView> {
    Seq::new(rows.len(), |i: int| rows[i]@)
}

/// The name of the field that holds an account's email.
pub open spec fn email_field() -> Seq<char> {
    "email"@
}

/// The name of the field that holds an account's password.
pub open spec fn password_field() -> Seq<char> {
    "password"@
}

/// What `bcrypt::verify` returns for a password and a hash: whether the hash
/// is one of that password, or the message of the error with which it
/// refuses the hash.
pub uninterp spec fn bcrypt_verify(password: Seq<char>, hash: Seq<char>) -> Result<bool, Seq<char>>;

/// Whether `bcrypt::verify` accepts `hash` as a hash of `password`.
pub open spec fn bcrypt_accepts(password: Seq<char>, hash: Seq<char>) -> bool {
    bcrypt_verify(password, hash) matches Ok(accepted) && accepted
}

/// Whether `row` is a row for `account`: it has the account's email, and for
/// password a bcrypt hash of the account's password.
pub open spec fn row_seeds(account: AccountView, row: UserRowView) -> bool {
    &&& account.contains_key(email_field())
    &&& account.contains_key(password_field())
    &&& row.email == account[email_field()]
    &&& row.password.len() == 60
    &&& bcrypt_accepts(account[password_field()], row.password)
}

/// What hashing a password came to: the hash, or the message of the error.
pub type Outcome = Result<Seq<char>, Seq<char>>;

/// What a list of hashing outcomes holds.
pub open spec fn outcomes_view(hashed: Seq<Result<String, String>>) -> Seq<Outcome> {
    Seq::new(
        hashed.len(),
        |i: int|
            match hashed[i] {
                Ok(hash) => Ok(hash@),
                Err(message) => Err(message@),
            },
    )
}

/// Why `account` cannot be seeded whatever hashing gives: it lacks its
/// email, or else its password. `None` where it has both.
pub open spec fn account_fault(account: AccountView) -> Option<Seq<char>> {
    if !account.contains_key(email_field()) {
        Some(missing_field(email_field()))
    } else if !account.contains_key(password_field()) {
        Some(missing_field(password_field()))
    } else {
        None
    }
}

/// Why no row is made for `account`, given what hashing its password came
/// to: what the account lacks, or else the message of the hashing error.
/// `None` where the account has email and password and the hash was made.
pub open spec fn row_failure(account: AccountView, outcome: Outcome) -> Option<Seq<char>> {
    match account_fault(account) {
        Some(message) => Some(message),
        None => match outcome {
            Ok(_) => None,
            Err(message) => Some(message),
        },
    }
}

/// The row for `account` with the hash `hash` for password.
pub open spec fn row_of(account: AccountView, hash: Seq<char>) -> UserRowView {
    UserRowView { email: account[email_field()], password: hash }
}

/// The rows of a walk over `accounts`, where `hashed[i]` is what hashing the
/// password of the account at `i` came to, and why the walk ended early.
///
/// The walk takes the accounts in order and makes a row for each. It ends
/// at the first account that lacks email or password, or whose hashing
/// failed: the rows are then those of the accounts before it, and the
/// failure is its message. Where no account ends the walk, every account
/// has its row and there is no failure.
pub open spec fn rows_until_failure(accounts: Seq<AccountView>, hashed: Seq<Outcome>) -> (
    Seq<UserRowView>,
    Option<Seq<char>>,
)
    decreases accounts.len(),
{
    if accounts.len() == 0 {
        (Seq::empty(), None)
    } else {
        let before = rows_until_failure(accounts.drop_last(), hashed);
        let last = accounts.len() - 1;
        if before.1 is Some {
            before
        } else {
            match row_failure(accounts[last], hashed[last]) {
                Some(message) => (before.0, Some(message)),
                None => (before.0.push(row_of(accounts[last], hashed[last]->Ok_0)), None),
            }
        }
    }
}

/// Whether `hashed` holds every outcome that the walk over `accounts` asks
/// for: one for each account with email and password that the walk reaches.
pub open spec fn outcomes_suffice(accounts: Seq<AccountView>, hashed: Seq<Outcome>) -> bool {
    forall|i: int|
        0 <= i < accounts.len() && account_fault(#[trigger] accounts[i]) is None
            && rows_until_failure(accounts.take(i), hashed).1 is None ==> i < hashed.len()
}

/// Whether every hash of `hashed` is a bcrypt hash of the password of the
/// account at its place: 60 characters long and accepted by bcrypt.
pub open spec fn hashes_fit(accounts: Seq<AccountView>, hashed: Seq<Outcome>) -> bool {
    forall|i: int|
        0 <= i < hashed.len() && i < accounts.len() ==> ((#[trigger] hashed[i]) matches Ok(hash)
            ==> hash.len() == 60 && bcrypt_accepts(accounts[i][password_field()], hash))
}

/// Whether `rows` and `failure` are what seeding `accounts` comes to where
/// hashing gives `hashed`: the rows and the failure of the walk, over
/// outcomes that suffice and hashes that fit.
pub open spec fn users_seeded(
    accounts: Seq<AccountView>,
    hashed: Seq<Outcome>,
    rows: Seq<UserRowView>,
    failure: Option<Seq<char>>,
) -> bool {
    &&& outcomes_suffice(accounts, hashed)
    &&& hashes_fit(accounts, hashed)
    &&& (rows, failure) == rows_until_failure(accounts, hashed)
}

/// Whether `rows` and `failure` are what seeding `accounts` can come to:
/// what it comes to for some outcomes of hashing the passwords.
pub open spec fn users_made(
    accounts: Seq<AccountView>,
    rows: Seq<UserRowView>,
    failure: Option<Seq<char>>,
) -> bool {
    exists|hashed: Seq<Outcome>| users_seeded(accounts, hashed, rows, failure)
}

/// The message that a failure carries, `None` where there is no failure.
pub open spec fn failure_view(failure: Option<MyError>) -> Option<Seq<char>> {
    match failure {
        Some(error) => Some(error@),
        None => None,
    }
}

/// A walk makes at most one row for each account, and exactly one where it
/// does not end early.
pub proof fn lemma_walk_length(accounts: Seq<AccountView>, hashed: Seq<Outcome>)
    ensures
        rows_until_failure(accounts, hashed).0.len() <= accounts.len(),
        rows_until_failure(accounts, hashed).1 is None <==> rows_until_failure(
            accounts,
            hashed,
        ).0.len() == accounts.len(),
    decreases accounts.len(),
{
    if accounts.len() > 0 {
        lemma_walk_length(accounts.drop_last(), hashed);
    }
}

/// The walk over the first `n` accounts is the beginning of the walk over
/// all of them. Once it has ended, the longer walk has the same rows and
/// the same failure. While it has not, its rows are the first `n` rows of
/// the longer walk.
pub proof fn lemma_walk_prefix(accounts: Seq<AccountView>, hashed: Seq<Outcome>, n: int)
    requires
        0 <= n <= accounts.len(),
    ensures
        rows_until_failure(accounts.take(n), hashed).1 is Some ==> rows_until_failure(
            accounts,
            hashed,
        ) == rows_until_failure(accounts.take(n), hashed),
        rows_until_failure(accounts.take(n), hashed).1 is None ==> {
            &&& rows_until_failure(accounts.take(n), hashed).0.len() == n
            &&& rows_until_failure(accounts, hashed).0.len() >= n
            &&& rows_until_failure(accounts, hashed).0.take(n) == rows_until_failure(
                accounts.take(n),
                hashed,
            ).0
        },
    decreases accounts.len(),
{
    lemma_walk_length(accounts.take(n), hashed);
    if n == accounts.len() {
        assert(accounts.take(n) =~= accounts);
        let rows = rows_until_failure(accounts, hashed).0;
        assert(rows.take(rows.len() as int) =~= rows);
    } else {
        let front = accounts.drop_last();
        assert(front.take(n) =~= accounts.take(n));
        lemma_walk_prefix(front, hashed, n);
        let middle = rows_until_failure(front, hashed);
        let whole = rows_until_failure(accounts, hashed);
        if rows_until_failure(accounts.take(n), hashed).1 is None {
            assert(whole.0.take(n) =~= middle.0.take(n));
        }
    }
}

/// Once the walk over the first `n + 1` accounts has ended, so has the walk
/// over any more of them.
pub proof fn lemma_walk_ended(accounts: Seq<AccountView>, hashed: Seq<Outcome>, n: int)
    requires
        0 <= n < accounts.len(),
        rows_until_failure(accounts.take(n + 1), hashed).1 is Some,
    ensures
        forall|j: int|
            n < j <= accounts.len() ==> (#[trigger] rows_until_failure(
                accounts.take(j),
                hashed,
            )).1 is Some,
{
    assert forall|j: int| n < j <= accounts.len() implies (#[trigger] rows_until_failure(
        accounts.take(j),
        hashed,
    )).1 is Some by {
        assert(accounts.take(j).take(n + 1) =~= accounts.take(n + 1));
        lemma_walk_prefix(accounts.take(j), hashed, n + 1);
    }
}

/// A walk looks only at the outcomes of the accounts it is given: two lists
/// of outcomes that agree at the places of `accounts` give the same walk.
pub proof fn lemma_walk_reads_front(
    accounts: Seq<AccountView>,
    hashed: Seq<Outcome>,
    other: Seq<Outcome>,
)
    requires
        forall|i: int| 0 <= i < accounts.len() ==> hashed[i] == other[i],
    ensures
        rows_until_failure(accounts, hashed) == rows_until_failure(accounts, other),
    decreases accounts.len(),
{
    if accounts.len() > 0 {
        lemma_walk_reads_front(accounts.drop_last(), hashed, other);
    }
}

/// Whether the row at `i` is the row made for the account at `i` with the
/// hash that was made for it, a fitting one.
pub open spec fn row_made(
    accounts: Seq<AccountView>,
    hashed: Seq<Outcome>,
    rows: Seq<UserRowView>,
    i: int,
) -> bool {
    &&& i < hashed.len()
    &&& hashed[i] == Ok::<Seq<char>, Seq<char>>(rows[i].password)
    &&& row_seeds(accounts[i], rows[i])
}

/// What a walk with outcomes that suffice and hashes that fit comes to.
/// Each row is a row for the account at its place, with the hash that was
/// made for it. There is no failure exactly where every account has its
/// row. A failure is that of the first account without a row: what it
/// lacks, or else the message of its hashing error.
pub proof fn lemma_users_seeded(
    accounts: Seq<AccountView>,
    hashed: Seq<Outcome>,
    rows: Seq<UserRowView>,
    failure: Option<Seq<char>>,
)
    requires
        users_seeded(accounts, hashed, rows, failure),
    ensures
        rows.len() <= accounts.len(),
        forall|i: int| 0 <= i < rows.len() ==> row_made(accounts, hashed, rows, i),
        failure is None <==> rows.len() == accounts.len(),
        failure matches Some(message) ==> Some(message) == row_failure(
            accounts[rows.len() as int],
            hashed[rows.len() as int],
        ),
{
    lemma_walk_length(accounts, hashed);
    assert forall|i: int| 0 <= i < rows.len() implies row_made(accounts, hashed, rows, i) by {
        lemma_walk_prefix(accounts, hashed, i);
        lemma_walk_prefix(accounts, hashed, i + 1);
        lemma_walk_length(accounts.take(i), hashed);
        lemma_walk_length(accounts.take(i + 1), hashed);
        let longer = accounts.take(i + 1);
        assert(longer.drop_last() =~= accounts.take(i));
        assert(longer[i] == accounts[i]);
        let upto = rows_until_failure(longer, hashed);
        assert(upto.1 is None);
        assert(rows.take(i + 1) == upto.0);
        assert(rows.take(i + 1)[i] == rows[i]);
        assert(account_fault(accounts[i]) is None);
        assert(hashed[i] is Ok);
    }
    if failure is Some {
        let k = rows.len() as int;
        lemma_walk_prefix(accounts, hashed, k);
        lemma_walk_prefix(accounts, hashed, k + 1);
        lemma_walk_length(accounts.take(k), hashed);
        lemma_walk_length(accounts.take(k + 1), hashed);
        let longer = accounts.take(k + 1);
        assert(longer.drop_last() =~= accounts.take(k));
        assert(longer[k] == accounts[k]);
    }
}

/// Hashes `password` with bcrypt at its default cost and a fresh random
/// salt.
///
/// Trusted: the body calls `bcrypt::hash` with `bcrypt::DEFAULT_COST` and
/// hands back the hash, or the text of the error. The salt is drawn anew at
/// each call, and the call fails where the system has no randomness to
/// give, so the contract says only what holds of every hash that comes
/// back: it is 60 characters long, and `bcrypt::verify` accepts it for
/// `password`.
#[verifier::external_body]
fn hash_password(password: &str) -> (hashed: Result<String, String>)
    ensures
        hashed matches Ok(hash) ==> hash@.len() == 60,
        hashed matches Ok(hash) ==> bcrypt_accepts(password@, hash@),
{
    match bcrypt::hash(password, bcrypt::DEFAULT_COST) {
        Ok(hash) => Ok(hash),
        Err(error) => Err(error.to_string()),
    }
}

/// Asks bcrypt whether `hash` is a hash of `password`.
///
/// Trusted: the body calls `bcrypt::verify` and hands back its answer, or
/// the text of its error. The answer depends on the two texts alone, so the
/// contract gives it its name.
#[verifier::external_body]
fn verify_password(password: &str, hash: &str) -> (answer: Result<bool, String>)
    ensures
        match answer {
            Ok(accepted) => bcrypt_verify(password@, hash@) == Ok::<bool, Seq<char>>(accepted),
            Err(message) => bcrypt_verify(password@, hash@) == Err::<bool, Seq<char>>(message@),
        },
{
    match bcrypt::verify(password, hash) {
        Ok(accepted) => Ok(accepted),
        Err(error) => Err(error.to_string()),
    }
}

impl UserRow {
    /// The row for `email`, given what hashing the password came to: the row
    /// with that hash, or the hashing error as the error of the run.
    pub fn from_hash(email: &str, hashed: Result<String, String>) -> (made: Result<UserRow, MyError>)
        ensures
            match hashed {
                Ok(hash) => made matches Ok(row) && row@ == (UserRowView {
                    email: email@,
                    password: hash@,
                }),
                Err(message) => made matches Err(error) && error@ == message@,
            },
    {
        match hashed {
            Ok(hash) => Ok(UserRow { email: email.to_owned(), password: hash }),
            Err(message) => Err(MyError::new(message.as_str())),
        }
    }

    /// Whether the password of this row is a bcrypt hash of `password`.
    pub fn accepts(&self, password: &str) -> (accepted: bool)
        ensures
            accepted == bcrypt_accepts(password@, self@.password),
    {
        match verify_password(password, self.password.as_str()) {
            Ok(accepted) => accepted,
            Err(_) => false,
        }
    }
}

/// The row for `account`: its email, and its password hashed.
///
/// Fails with "Cannot find email" or "Cannot find password" where the
/// account lacks that field, the email looked for first, and with bcrypt's
/// message where hashing fails.
pub fn user_row(account: &UserAccount) -> (made: Result<UserRow, MyError>)
    ensures
        made matches Ok(row) ==> row_seeds(account@, row@),
        made matches Err(error) ==> {
            &&& !account@.contains_key(email_field()) ==> error@ == missing_field(email_field())
            &&& account@.contains_key(email_field()) && !account@.contains_key(password_field())
                ==> error@ == missing_field(password_field())
        },
        !account@.contains_key(email_field()) || !account@.contains_key(password_field())
            ==> made is Err,
{
    let email = match account.get("email") {
        Some(email) => email,
        None => {
            return Err(missing("email"));
        },
    };
    let password = match account.get("password") {
        Some(password) => password,
        None => {
            return Err(missing("password"));
        },
    };
    UserRow::from_hash(email, hash_password(password))
}

/// What hashing the passwords of `accounts` comes to, account by account
/// in order: one outcome for each account, up to the account that ends the
/// walk. No password is hashed for an account that lacks email or
/// password, nor for any account after the first failure.
fn hash_passwords(accounts: &Vec<&UserAccount>) -> (hashed: Vec<Result<String, String>>)
    ensures
        outcomes_suffice(records_view(accounts@), outcomes_view(hashed@)),
        hashes_fit(records_view(accounts@), outcomes_view(hashed@)),
{
    let ghost all = records_view(accounts@);
    let mut hashed: Vec<Result<String, String>> = Vec::new();
    let mut i: usize = 0;
    while i < accounts.len()
        invariant
            i <= accounts@.len(),
            all == records_view(accounts@),
            hashed@.len() == i,
            hashes_fit(all, outcomes_view(hashed@)),
            rows_until_failure(all.take(i as int), outcomes_view(hashed@)).1 is None,
        decreases accounts@.len() - i,
    {
        let account = accounts[i];
        let ghost before = outcomes_view(hashed@);
        let ghost longer = all.take(i + 1);
        assert(longer.drop_last() =~= all.take(i as int));
        assert(longer[i as int] == account@);
        let password = match account.get("password") {
            Some(password) if account.get("email").is_some() => password,
            _ => {
                proof {
                    assert(account_fault(all[i as int]) is Some);
                    lemma_walk_ended(all, before, i as int);
                }
                return hashed;
            },
        };
        let outcome = hash_password(password);
        let failed = outcome.is_err();
        hashed.push(outcome);
        let ghost after = outcomes_view(hashed@);
        proof {
            assert forall|k: int| 0 <= k < i implies before[k] == after[k] by {}
            lemma_walk_reads_front(all.take(i as int), before, after);
            assert forall|k: int| 0 <= k < after.len() && k < all.len() implies ((
            #[trigger] after[k]) matches Ok(hash) ==> hash.len() == 60 && bcrypt_accepts(
                all[k][password_field()],
                hash,
            )) by {
                if k < i {
                    assert(before[k] == after[k]);
                }
            }
        }
        if failed {
            proof {
                lemma_walk_ended(all, after, i as int);
            }
            return hashed;
        }
        i += 1;
    }
    hashed
}

/// The rows for the `users` table, given what hashing the passwords came
/// to: `hashed[i]` is the outcome for the account at place `i` among all
/// accounts of `user_accounts`, group after group. The rows are those of
/// the accounts up to the first that lacks email or password or whose
/// hashing failed, and the failure is that account's.
///
/// `hashed` must hold the outcome of every account with email and password
/// that the walk reaches; what it holds beyond that is not looked at.
pub fn rows_from_hashes(
    user_accounts: &AccountGroups,
    hashed: &Vec<Result<String, String>>,
) -> (made: UserInsert)
    requires
        outcomes_suffice(all_accounts(user_accounts@), outcomes_view(hashed@)),
    ensures
        made.sql@ == insert_user_sql(),
        (rows_view(made.rows@), failure_view(made.failure)) == rows_until_failure(
            all_accounts(user_accounts@),
            outcomes_view(hashed@),
        ),
{
    let accounts = user_accounts.all();
    let ghost all = all_accounts(user_accounts@);
    let ghost outcomes = outcomes_view(hashed@);
    let sql = "INSERT INTO users (email, password) VALUES ($1, $2)".to_owned();
    let mut rows: Vec<UserRow> = Vec::new();
    let mut i: usize = 0;
    assert(rows_view(rows@) =~= Seq::<UserRowView>::empty());
    while i < accounts.len()
        invariant
            i <= accounts@.len(),
            all == records_view(accounts@),
            all == all_accounts(user_accounts@),
            outcomes == outcomes_view(hashed@),
            outcomes_suffice(all, outcomes),
            sql@ == insert_user_sql(),
            rows_until_failure(all.take(i as int), outcomes) == (
                rows_view(rows@),
                None::<Seq<char>>,
            ),
        decreases accounts@.len() - i,
    {
        let account = accounts[i];
        let ghost longer = all.take(i + 1);
        assert(longer.drop_last() =~= all.take(i as int));
        assert(longer[i as int] == account@);
        assert(all[i as int] == account@);
        proof {
            lemma_walk_prefix(all, outcomes, i + 1);
        }
        let email = match account.get("email") {
            Some(email) => email,
            None => {
                return UserInsert { sql, rows, failure: Some(missing("email")) };
            },
        };
        if account.get("password").is_none() {
            return UserInsert { sql, rows, failure: Some(missing("password")) };
        }
        assert(account_fault(all[i as int]) is None);
        match &hashed[i] {
            Ok(hash) => {
                let ghost before = rows_view(rows@);
                rows.push(UserRow { email: email.to_owned(), password: hash.clone() });
                assert(rows_view(rows@) =~= before.push(row_of(all[i as int], hash@)));
            },
            Err(message) => {
                return UserInsert { sql, rows, failure: Some(MyError::new(message.as_str())) };
            },
        }
        i += 1;
    }
    assert(all.take(i as int) =~= all);
    UserInsert { sql, rows, failure: None }
}

/// The rows for the `users` table: one for each account of `user_accounts`,
/// group after group, in the order of the accounts, each with the
/// account's email and its password hashed.
///
/// The passwords are hashed in order. Where an account lacks its email or
/// password, or hashing fails, the rows of the accounts before it come back
/// together with the error: they are `rows_until_failure` of what hashing
/// came to.
pub fn create_user(user_accounts: &AccountGroups) -> (made: UserInsert)
    ensures
        made.sql@ == insert_user_sql(),
        users_made(
            all_accounts(user_accounts@),
            rows_view(made.rows@),
            failure_view(made.failure),
        ),
{
    let accounts = user_accounts.all();
    let hashed = hash_passwords(&accounts);
    let made = rows_from_hashes(user_accounts, &hashed);
    assert(users_seeded(
        all_accounts(user_accounts@),
        outcomes_view(hashed@),
        rows_view(made.rows@),
        failure_view(made.failure),
    ));
    made
}

/// The emails of `accounts`, in order.
pub open spec fn emails_of(accounts: Seq<AccountView>) -> Seq<Seq<char>> {
    Seq::new(accounts.len(), |i: int| accounts[i][email_field()])
}

/// Whether every one of `accounts` has an email.
pub open spec fn all_have_email(accounts: Seq<AccountView>) -> bool {
    forall|i: int| 0 <= i < accounts.len() ==> (#[trigger] accounts[i]).contains_key(email_field())
}

/// The emails of all accounts of `user_accounts`, group after group.
///
/// Fails with "Cannot find email" where an account has none.
pub fn user_emails(user_accounts: &AccountGroups) -> (found: Result<Vec<String>, MyError>)
    ensures
        found is Ok <==> all_have_email(all_accounts(user_accounts@)),
        found matches Ok(emails) ==> texts_view(emails@) == emails_of(all_accounts(user_accounts@)),
        found matches Err(error) ==> error@ == missing_field(email_field()),
{
    let accounts = user_accounts.all();
    let ghost all = all_accounts(user_accounts@);
    let mut emails: Vec<String> = Vec::new();
    let mut i: usize = 0;
    while i < accounts.len()
        invariant
            i <= accounts@.len(),
            all == records_view(accounts@),
            all == all_accounts(user_accounts@),
            emails@.len() == i,
            forall|k: int|
                0 <= k < i ==> (#[trigger] all[k]).contains_key(email_field()) && emails@[k]@
                    == all[k][email_field()],
        decreases accounts@.len() - i,
    {
        assert(all[i as int] == accounts@[i as int]@);
        match accounts[i].get("email") {
            Some(email) => {
                emails.push(email.to_owned());
            },
            None => {
                assert(!all[i as int].contains_key(email_field()));
                return Err(missing("email"));
            },
        }
        i += 1;
    }
    assert(texts_view(emails@) =~= emails_of(all));
    Ok(emails)
}

/// The query that finds the ids of the users just inserted: the ids of all
/// users whose email is that of an account of `user_accounts`. The emails
/// are the parameter of the query.
///
/// Fails with "Cannot find email" where an account has none.
pub fn get_inserted_user_ids(user_accounts: &AccountGroups) -> (made: Result<Query, MyError>)
    ensures
        made is Ok <==> all_have_email(all_accounts(user_accounts@)),
        made matches Ok(query) ==> query@ == ids_query(emails_of(all_accounts(user_accounts@))),
        made matches Err(error) ==> error@ == missing_field(email_field()),
{
    match user_emails(user_accounts) {
        Ok(emails) => Ok(ids_by_email(emails)),
        Err(error) => Err(error),
    }
}

} // verus!
