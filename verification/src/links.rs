//! The rows of the junction tables: every user paired with every role, and
//! every user paired with every notification.

use vstd::prelude::*;
use vstd::arithmetic::div_mod::{lemma_fundamental_div_mod, lemma_fundamental_div_mod_converse};

verus! {

/// The rows that link some users to some roles or notifications, with the
/// statement that inserts one of them.
#[derive(Clone, Debug, PartialEq, Eq)]
pub struct LinkInsert {
    /// The insert statement; its two parameters are the two ids of a row.
    pub sql: String,
    /// The rows to insert, in order: the id of a user, then the id of what it
    /// is linked to.
    pub rows: Vec<(i32, i32)>,
}

/// The statement that inserts one row of `users_roles`.
pub open spec fn insert_role_sql() -> Seq<char> {
    "INSERT INTO users_roles (user_id, role_id) VALUES ($1,$2)"@
}

/// The statement that inserts one row of `users_notifications`.
pub open spec fn insert_notification_sql() -> Seq<char> {
    "INSERT INTO users_notifications (user_id, notification_id) VALUES ($1,$2)"@
}

/// Every one of `user_ids` paired with every one of `others`: the pairs of
/// the first user in the order of `others`, then those of the second, and so
/// on.
pub open spec fn link_rows(user_ids: Seq<i32>, others: Seq<i32>) -> Seq<(i32, i32)> {
    Seq::new(
        user_ids.len() * others.len(),
        |k: int| (user_ids[k / (others.len() as int)], others[k % (others.len() as int)]),
    )
}

/// `user_id` paired with every one of `others`, in their order.
pub open spec fn paired_with(user_id: i32, others: Seq<i32>) -> Seq<(i32, i32)> {
    Seq::new(others.len(), |k: int| (user_id, others[k]))
}

/// The rows of a list of users are those of all but the last user, followed
/// by the pairs of the last.
pub proof fn lemma_link_rows_last(user_ids: Seq<i32>, others: Seq<i32>)
    requires
        user_ids.len() > 0,
    ensures
        link_rows(user_ids, others) == link_rows(user_ids.drop_last(), others) + paired_with(
            user_ids.last(),
            others,
        ),
{
    let n = user_ids.len() as int;
    let m = others.len() as int;
    let front = link_rows(user_ids.drop_last(), others);
    let whole = link_rows(user_ids, others);
    let joined = front + paired_with(user_ids.last(), others);
    assert(n * m == (n - 1) * m + m) by (nonlinear_arith);
    assert(whole.len() == joined.len());
    assert forall|k: int| 0 <= k < whole.len() implies whole[k] == joined[k] by {
        lemma_fundamental_div_mod(k, m);
        if k < (n - 1) * m {
            assert(k / m < n - 1) by (nonlinear_arith)
                requires
                    0 <= k < (n - 1) * m,
                    m > 0,
                    k == m * (k / m) + k % m,
                    0 <= k % m < m,
            ;
            assert(0 <= k / m) by (nonlinear_arith)
                requires
                    0 <= k,
                    m > 0,
                    k == m * (k / m) + k % m,
                    0 <= k % m < m,
            ;
        } else {
            lemma_fundamental_div_mod_converse(k, m, n - 1, k - (n - 1) * m);
        }
    }
    assert(whole =~= joined);
}

/// The number of rows is the number of users times the number of roles or
/// notifications, and the pair of the user at `i` with the other at `j` is
/// the row at `i * others.len() + j`.
pub proof fn lemma_link_rows_at(user_ids: Seq<i32>, others: Seq<i32>, i: int, j: int)
    requires
        0 <= i < user_ids.len(),
        0 <= j < others.len(),
    ensures
        link_rows(user_ids, others).len() == user_ids.len() * others.len(),
        0 <= i * others.len() + j < link_rows(user_ids, others).len(),
        link_rows(user_ids, others)[i * others.len() + j] == (user_ids[i], others[j]),
{
    let n = user_ids.len() as int;
    let m = others.len() as int;
    assert(0 <= i * m + j < n * m) by (nonlinear_arith)
        requires
            0 <= i < n,
            0 <= j < m,
    ;
    lemma_fundamental_div_mod_converse(i * m + j, m, i, j);
}

/// Where there are no users, or nothing to link them to, there are no rows.
pub proof fn lemma_link_rows_empty(user_ids: Seq<i32>, others: Seq<i32>)
    requires
        user_ids.len() == 0 || others.len() == 0,
    ensures
        link_rows(user_ids, others) == Seq::<(i32, i32)>::empty(),
{
    assert(user_ids.len() * others.len() == 0) by (nonlinear_arith)
        requires
            user_ids.len() == 0 || others.len() == 0,
    ;
    assert(link_rows(user_ids, others) =~= Seq::<(i32, i32)>::empty());
}

/// Every one of `user_ids` paired with every one of `others`.
pub fn pair_all(user_ids: &Vec<i32>, others: &Vec<i32>) -> (rows: Vec<(i32, i32)>)
    ensures
        rows@ == link_rows(user_ids@, others@),
        rows@.len() == user_ids@.len() * others@.len(),
{
    let mut rows: Vec<(i32, i32)> = Vec::new();
    let mut i: usize = 0;
    proof {
        lemma_link_rows_empty(user_ids@.take(0), others@);
    }
    while i < user_ids.len()
        invariant
            i <= user_ids@.len(),
            rows@ == link_rows(user_ids@.take(i as int), others@),
        decreases user_ids@.len() - i,
    {
        let ghost before = rows@;
        let user_id = user_ids[i];
        let mut j: usize = 0;
        while j < others.len()
            invariant
                j <= others@.len(),
                rows@ == before + paired_with(user_id, others@.take(j as int)),
            decreases others@.len() - j,
        {
            rows.push((user_id, others[j]));
            assert(rows@ =~= before + paired_with(user_id, others@.take(j + 1)));
            j += 1;
        }
        proof {
            let longer = user_ids@.take(i + 1);
            assert(others@.take(j as int) =~= others@);
            assert(longer.drop_last() =~= user_ids@.take(i as int));
            lemma_link_rows_last(longer, others@);
        }
        i += 1;
    }
    assert(user_ids@.take(i as int) =~= user_ids@);
    rows
}

/// The rows of `users_roles` for a run: every user of `user_ids` linked to
/// every role of `roles`, with the statement that inserts one row.
pub fn create_user_roles(user_ids: Vec<i32>, roles: Vec<i32>) -> (made: LinkInsert)
    ensures
        made.sql@ == insert_role_sql(),
        made.rows@ == link_rows(user_ids@, roles@),
        made.rows@.len() == user_ids@.len() * roles@.len(),
{
    LinkInsert {
        sql: "INSERT INTO users_roles (user_id, role_id) VALUES ($1,$2)".to_owned(),
        rows: pair_all(&user_ids, &roles),
    }
}

/// The rows of `users_notifications` for a run: every user of `user_ids`
/// linked to every notification of `notifications`, with the statement that
/// inserts one row.
pub fn create_user_notifications(user_ids: Vec<i32>, notifications: Vec<i32>) -> (made: LinkInsert)
    ensures
        made.sql@ == insert_notification_sql(),
        made.rows@ == link_rows(user_ids@, notifications@),
        made.rows@.len() == user_ids@.len() * notifications@.len(),
{
    LinkInsert {
        sql: "INSERT INTO users_notifications (user_id, notification_id) VALUES ($1,$2)".to_owned(),
        rows: pair_all(&user_ids, &notifications),
    }
}

} // verus!
