//! The queries of a seeding run that read ids.

use vstd::prelude::*;

verus! {

/// A query whose every result row holds one id, in its first column.
///
/// What a query selects by goes to the database as a parameter, never as
/// part of the text of the query.
#[derive(Clone, Debug, PartialEq, Eq)]
pub struct Query {
    /// The text of the query, with a placeholder `$1`, `$2`, ... for each of
    /// `params`.
    pub sql: String,
    /// The parameters of the query, in the order of their placeholders.
    /// Each is an array of texts.
    pub params: Vec<Vec<String>>,
}

/// What a `Query` holds.
pub struct QueryView {
    pub sql: Seq<char>,
    pub params: Seq<Seq<Seq<char>>>,
}

/// What a list of texts holds.
pub open spec fn texts_view(texts: Seq<String>) -> Seq<Seq<char>> {
    Seq::new(texts.len(), |i: int| texts[i]@)
}

/// What a list of arrays of texts holds.
pub open spec fn arrays_view(arrays: Seq<Vec<String>>) -> Seq<Seq<Seq<char>>> {
    Seq::new(arrays.len(), |i: int| texts_view(arrays[i]@))
}

impl View for Query {
    type V = QueryView;

    open spec fn view(&self) -> QueryView {
        QueryView { sql: self.sql@, params: arrays_view(self.params@) }
    }
}

/// The query for the ids of all roles.
pub open spec fn roles_query() -> QueryView {
    QueryView { sql: "SELECT id FROM roles"@, params: Seq::empty() }
}

/// The query for the ids of all notifications.
pub open spec fn notifications_query() -> QueryView {
    QueryView { sql: "SELECT id FROM notifications"@, params: Seq::empty() }
}

/// The query for the ids of the users whose email is one of `emails`. The
/// emails are its one parameter, so whatever an email holds is compared as
/// data, and with no email no row answers.
pub open spec fn ids_query(emails: Seq<Seq<char>>) -> QueryView {
    QueryView { sql: "SELECT id FROM users WHERE email = ANY($1)"@, params: seq![emails] }
}

/// The query that reads the id of every role there is.
pub fn get_roles() -> (query: Query)
    ensures
        query@ == roles_query(),
{
    let query = Query { sql: "SELECT id FROM roles".to_owned(), params: Vec::new() };
    assert(query@.params =~= Seq::empty());
    query
}

/// The query that reads the id of every notification there is.
pub fn get_notifications() -> (query: Query)
    ensures
        query@ == notifications_query(),
{
    let query = Query { sql: "SELECT id FROM notifications".to_owned(), params: Vec::new() };
    assert(query@.params =~= Seq::empty());
    query
}

/// The query that reads the id of every user whose email is one of
/// `emails`.
pub fn ids_by_email(emails: Vec<String>) -> (query: Query)
    ensures
        query@ == ids_query(texts_view(emails@)),
{
    let mut params: Vec<Vec<String>> = Vec::new();
    params.push(emails);
    let query = Query { sql: "SELECT id FROM users WHERE email = ANY($1)".to_owned(), params };
    assert(query@.params =~= seq![texts_view(emails@)]);
    query
}

} // verus!
