//! What a configuration document says: the accounts to seed, filed under
//! their groups, and the parameters of the database.
//!
//! The document has two top-level keys. `accounts` maps each group name to a
//! list of records, and `database` holds the connection parameters. Every
//! field of a record, and every parameter, must be written as text.

use vstd::prelude::*;
use crate::account::{
    accounts_view, group_names, lemma_put_group, put_group, AccountGroups, AccountView,
    GroupView, UserAccount,
};
use crate::document::{entries_view, load_yaml, nodes_view, yaml_documents, Node, NodeView};
use crate::error::MyError;
use crate::keyed::distinct;
use crate::text_map::TextMap;

verus! {

/// The message for a node that should be a mapping and is none.
pub open spec fn not_a_hash() -> Seq<char> {
    "Cannot convert to hash"@
}

/// The message for a node that should be text and is none.
pub open spec fn not_a_string() -> Seq<char> {
    "Cannot convert to string"@
}

/// Whether every key and every value of `entries` is text.
pub open spec fn all_text(entries: Seq<(NodeView, NodeView)>) -> bool {
    forall|i: int| 0 <= i < entries.len() ==> entries[i].0 is Text && entries[i].1 is Text
}

/// The map that the text entries `entries` build up, each entry set in
/// turn, so that of two entries with one key the later one stays.
pub open spec fn text_fields(entries: Seq<(NodeView, NodeView)>) -> Map<Seq<char>, Seq<char>>
    decreases entries.len(),
{
    if entries.len() == 0 {
        Map::empty()
    } else {
        text_fields(entries.drop_last()).insert(
            entries.last().0->Text_0,
            entries.last().1->Text_0,
        )
    }
}

/// The text map that `node` holds: `node` must be a mapping, and each of its
/// keys and values text.
pub open spec fn fields_of(node: NodeView) -> Result<Map<Seq<char>, Seq<char>>, Seq<char>> {
    match node.entries() {
        None => Err(not_a_hash()),
        Some(entries) => if all_text(entries) {
            Ok(text_fields(entries))
        } else {
            Err(not_a_string())
        },
    }
}

/// The records that `items` hold, in order, or the complaint about the first
/// item that holds none.
pub open spec fn records_of(items: Seq<NodeView>) -> Result<Seq<AccountView>, Seq<char>>
    decreases items.len(),
{
    if items.len() == 0 {
        Ok(Seq::empty())
    } else {
        match records_of(items.drop_last()) {
            Err(message) => Err(message),
            Ok(records) => match fields_of(items.last()) {
                Err(message) => Err(message),
                Ok(record) => Ok(records.push(record)),
            },
        }
    }
}

/// The records filed under one group: those of the sequence `value`, and
/// none where `value` is no sequence.
pub open spec fn group_records(value: NodeView) -> Result<Seq<AccountView>, Seq<char>> {
    match value.items() {
        None => Ok(Seq::empty()),
        Some(items) => records_of(items),
    }
}

/// The groups that the entries of the `accounts` mapping build up, each
/// filed in turn, or the complaint about the first entry that cannot be
/// filed: its name is no text, or one of its records cannot be read.
pub open spec fn groups_of(entries: Seq<(NodeView, NodeView)>) -> Result<Seq<GroupView>, Seq<char>>
    decreases entries.len(),
{
    if entries.len() == 0 {
        Ok(Seq::empty())
    } else {
        match groups_of(entries.drop_last()) {
            Err(message) => Err(message),
            Ok(groups) => match entries.last().0.text() {
                None => Err(not_a_string()),
                Some(name) => match group_records(entries.last().1) {
                    Err(message) => Err(message),
                    Ok(records) => Ok(put_group(groups, name, records)),
                },
            },
        }
    }
}

/// The account groups of the document `document`.
pub open spec fn accounts_of(document: NodeView) -> Result<Seq<GroupView>, Seq<char>> {
    match document.child("accounts"@).entries() {
        None => Err(not_a_hash()),
        Some(entries) => groups_of(entries),
    }
}

/// The database parameters of the document `document`.
pub open spec fn db_info_of(document: NodeView) -> Result<Map<Seq<char>, Seq<char>>, Seq<char>> {
    fields_of(document.child("database"@))
}

/// The document that a configuration is read from: the first document of
/// the text `text`. A text that is no YAML has none, with the parser's
/// complaint; a text without any document has no mapping to read from.
pub open spec fn document_of_text(text: Seq<char>) -> Result<NodeView, Seq<char>> {
    match yaml_documents(text) {
        Err(message) => Err(message),
        Ok(documents) => if documents.len() == 0 {
            Err(not_a_hash())
        } else {
            Ok(documents[0])
        },
    }
}

/// The account groups of the configuration text `text`.
pub open spec fn accounts_of_text(text: Seq<char>) -> Result<Seq<GroupView>, Seq<char>> {
    match document_of_text(text) {
        Err(message) => Err(message),
        Ok(document) => accounts_of(document),
    }
}

/// The database parameters of the configuration text `text`.
pub open spec fn db_info_of_text(text: Seq<char>) -> Result<Map<Seq<char>, Seq<char>>, Seq<char>> {
    match document_of_text(text) {
        Err(message) => Err(message),
        Ok(document) => db_info_of(document),
    }
}

/// `records_of` succeeds exactly where every item holds a record, and then
/// hands out the record of each item at the item's place.
pub proof fn lemma_records_of(items: Seq<NodeView>)
    ensures
        records_of(items) is Ok <==> forall|i: int|
            0 <= i < items.len() ==> fields_of(#[trigger] items[i]) is Ok,
        records_of(items) matches Ok(records) ==> records.len() == items.len() && forall|i: int|
            0 <= i < items.len() ==> fields_of(items[i]) == Ok::<AccountView, Seq<char>>(
                #[trigger] records[i],
            ),
    decreases items.len(),
{
    if items.len() > 0 {
        let front = items.drop_last();
        lemma_records_of(front);
        assert forall|i: int| 0 <= i < front.len() implies front[i] == items[i] by {}
        if records_of(items) is Ok {
            assert forall|i: int| 0 <= i < items.len() implies fields_of(
                #[trigger] items[i],
            ) is Ok by {
                if i < front.len() {
                    assert(front[i] == items[i]);
                }
            }
        }
        if forall|i: int| 0 <= i < items.len() ==> fields_of(#[trigger] items[i]) is Ok {
            assert forall|i: int| 0 <= i < front.len() implies fields_of(
                #[trigger] front[i],
            ) is Ok by {
                assert(front[i] == items[i]);
            }
            assert(fields_of(items[items.len() - 1]) is Ok);
        }
    }
}

/// `groups_of` succeeds exactly where every entry has a text for name and
/// records that can be read, and then no two groups share a name.
pub proof fn lemma_groups_of(entries: Seq<(NodeView, NodeView)>)
    ensures
        groups_of(entries) is Ok <==> forall|i: int|
            0 <= i < entries.len() ==> (#[trigger] entries[i]).0 is Text && group_records(
                entries[i].1,
            ) is Ok,
        groups_of(entries) matches Ok(groups) ==> groups.len() <= entries.len() && distinct(
            group_names(groups),
        ),
    decreases entries.len(),
{
    if entries.len() > 0 {
        let front = entries.drop_last();
        lemma_groups_of(front);
        assert forall|i: int| 0 <= i < front.len() implies front[i] == entries[i] by {}
        if groups_of(entries) is Ok {
            assert forall|i: int| 0 <= i < entries.len() implies (#[trigger] entries[i]).0 is Text
                && group_records(entries[i].1) is Ok by {
                if i < front.len() {
                    assert(front[i] == entries[i]);
                }
            }
            lemma_put_group(
                groups_of(front)->Ok_0,
                entries.last().0->Text_0,
                group_records(entries.last().1)->Ok_0,
            );
        }
        if forall|i: int|
            0 <= i < entries.len() ==> (#[trigger] entries[i]).0 is Text && group_records(
                entries[i].1,
            ) is Ok {
            assert forall|i: int| 0 <= i < front.len() implies (#[trigger] front[i]).0 is Text
                && group_records(front[i].1) is Ok by {
                assert(front[i] == entries[i]);
            }
            assert(entries[entries.len() - 1].0 is Text);
        }
    }
}

/// Of the entries of a record, the last one with a given name gives the
/// field its value: the record holds the name of every entry, and under it
/// the value of an entry that no later entry of the same name follows.
pub proof fn lemma_text_fields(entries: Seq<(NodeView, NodeView)>, i: int)
    requires
        all_text(entries),
        0 <= i < entries.len(),
    ensures
        text_fields(entries).contains_key(entries[i].0->Text_0),
        (forall|j: int| i < j < entries.len() ==> entries[j].0 != entries[i].0) ==> text_fields(
            entries,
        )[entries[i].0->Text_0] == entries[i].1->Text_0,
    decreases entries.len(),
{
    let front = entries.drop_last();
    if i < entries.len() - 1 {
        assert(front[i] == entries[i]);
        assert forall|j: int| 0 <= j < front.len() implies front[j].0 is Text
            && front[j].1 is Text by {
            assert(front[j] == entries[j]);
        }
        lemma_text_fields(front, i);
        if forall|j: int| i < j < entries.len() ==> entries[j].0 != entries[i].0 {
            assert forall|j: int| i < j < front.len() implies front[j].0 != front[i].0 by {
                assert(front[j] == entries[j]);
            }
            assert(entries[entries.len() - 1].0 != entries[i].0);
        }
    }
}

/// The text map that `node` holds.
pub fn fields_from_node(node: &Node) -> (read: Result<TextMap, MyError>)
    ensures
        match read {
            Ok(fields) => fields_of(node@) == Ok::<Map<Seq<char>, Seq<char>>, Seq<char>>(fields@),
            Err(error) => fields_of(node@) == Err::<Map<Seq<char>, Seq<char>>, Seq<char>>(error@),
        },
{
    let entries = match node.as_hash() {
        Some(entries) => entries,
        None => {
            return Err(MyError::new("Cannot convert to hash"));
        },
    };
    let ghost all = entries_view(entries@);
    let mut fields = TextMap::new();
    let mut i: usize = 0;
    while i < entries.len()
        invariant
            i <= entries@.len(),
            all == entries_view(entries@),
            node@.entries() == Some(all),
            all_text(all.take(i as int)),
            fields@ == text_fields(all.take(i as int)),
        decreases entries@.len() - i,
    {
        let ghost next = all.take(i + 1);
        assert(next.drop_last() =~= all.take(i as int));
        assert(next.last() == all[i as int]);
        let name = match entries[i].0.as_str() {
            Some(text) => text,
            None => {
                assert(!(all[i as int].0 is Text));
                return Err(MyError::new("Cannot convert to string"));
            },
        };
        let value = match entries[i].1.as_str() {
            Some(text) => text,
            None => {
                assert(!(all[i as int].1 is Text));
                return Err(MyError::new("Cannot convert to string"));
            },
        };
        fields.insert(name.to_owned(), value.to_owned());
        assert forall|j: int| 0 <= j < next.len() implies next[j].0 is Text
            && next[j].1 is Text by {
            if j < i {
                assert(next[j] == all.take(i as int)[j]);
            }
        }
        i += 1;
    }
    assert(all.take(i as int) =~= all);
    Ok(fields)
}

/// The records that `items` hold, in order.
pub fn records_from_nodes(items: &Vec<Node>) -> (read: Result<Vec<UserAccount>, MyError>)
    ensures
        match read {
            Ok(records) => records_of(nodes_view(items@)) == Ok::<Seq<AccountView>, Seq<char>>(
                accounts_view(records@),
            ),
            Err(error) => records_of(nodes_view(items@)) == Err::<Seq<AccountView>, Seq<char>>(
                error@,
            ),
        },
{
    let ghost all = nodes_view(items@);
    let mut records: Vec<UserAccount> = Vec::new();
    let mut i: usize = 0;
    assert(accounts_view(records@) =~= Seq::<AccountView>::empty());
    while i < items.len()
        invariant
            i <= items@.len(),
            all == nodes_view(items@),
            records_of(all.take(i as int)) == Ok::<Seq<AccountView>, Seq<char>>(
                accounts_view(records@),
            ),
        decreases items@.len() - i,
    {
        let ghost next = all.take(i + 1);
        assert(next.drop_last() =~= all.take(i as int));
        assert(next.last() == items@[i as int]@);
        match fields_from_node(&items[i]) {
            Err(error) => {
                proof {
                    lemma_records_fail_on(all, i + 1);
                }
                return Err(error);
            },
            Ok(fields) => {
                let ghost before = accounts_view(records@);
                records.push(UserAccount::from_fields(fields));
                assert(accounts_view(records@) =~= before.push(fields@));
            },
        }
        i += 1;
    }
    assert(all.take(i as int) =~= all);
    Ok(records)
}

/// Once a front part of `items` cannot be read, neither can `items`, with
/// the same complaint.
pub proof fn lemma_records_fail_on(items: Seq<NodeView>, n: int)
    requires
        0 <= n <= items.len(),
        records_of(items.take(n)) is Err,
    ensures
        records_of(items) == records_of(items.take(n)),
    decreases items.len() - n,
{
    if n < items.len() {
        let next = items.take(n + 1);
        assert(next.drop_last() =~= items.take(n));
        lemma_records_fail_on(items, n + 1);
    } else {
        assert(items.take(n) =~= items);
    }
}

/// Once a front part of `entries` cannot be filed, neither can `entries`,
/// with the same complaint.
pub proof fn lemma_groups_fail_on(entries: Seq<(NodeView, NodeView)>, n: int)
    requires
        0 <= n <= entries.len(),
        groups_of(entries.take(n)) is Err,
    ensures
        groups_of(entries) == groups_of(entries.take(n)),
    decreases entries.len() - n,
{
    if n < entries.len() {
        let next = entries.take(n + 1);
        assert(next.drop_last() =~= entries.take(n));
        lemma_groups_fail_on(entries, n + 1);
    } else {
        assert(entries.take(n) =~= entries);
    }
}

/// The account groups of the document `document`.
pub fn accounts_from_document(document: &Node) -> (read: Result<AccountGroups, MyError>)
    ensures
        match read {
            Ok(groups) => accounts_of(document@) == Ok::<Seq<GroupView>, Seq<char>>(groups@),
            Err(error) => accounts_of(document@) == Err::<Seq<GroupView>, Seq<char>>(error@),
        },
{
    let entries = match document.get("accounts") {
        None => {
            return Err(MyError::new("Cannot convert to hash"));
        },
        Some(accounts) => match accounts.as_hash() {
            None => {
                return Err(MyError::new("Cannot convert to hash"));
            },
            Some(entries) => entries,
        },
    };
    let ghost all = entries_view(entries@);
    let mut groups = AccountGroups::new();
    let mut i: usize = 0;
    while i < entries.len()
        invariant
            i <= entries@.len(),
            all == entries_view(entries@),
            accounts_of(document@) == groups_of(all),
            groups_of(all.take(i as int)) == Ok::<Seq<GroupView>, Seq<char>>(groups@),
        decreases entries@.len() - i,
    {
        let ghost next = all.take(i + 1);
        assert(next.drop_last() =~= all.take(i as int));
        assert(next.last() == all[i as int]);
        let name = match entries[i].0.as_str() {
            Some(text) => text,
            None => {
                proof {
                    lemma_groups_fail_on(all, i + 1);
                }
                return Err(MyError::new("Cannot convert to string"));
            },
        };
        let records = match entries[i].1.as_vec() {
            None => Vec::new(),
            Some(items) => match records_from_nodes(items) {
                Ok(records) => records,
                Err(error) => {
                    proof {
                        lemma_groups_fail_on(all, i + 1);
                    }
                    return Err(error);
                },
            },
        };
        assert(group_records(all[i as int].1) == Ok::<Seq<AccountView>, Seq<char>>(
            accounts_view(records@),
        )) by {
            if all[i as int].1.items() is None {
                assert(accounts_view(records@) =~= Seq::<AccountView>::empty());
            }
        }
        groups.insert(name.to_owned(), records);
        i += 1;
    }
    assert(all.take(i as int) =~= all);
    Ok(groups)
}

/// The database parameters of the document `document`.
pub fn db_info_from_document(document: &Node) -> (read: Result<TextMap, MyError>)
    ensures
        match read {
            Ok(info) => db_info_of(document@) == Ok::<Map<Seq<char>, Seq<char>>, Seq<char>>(info@),
            Err(error) => db_info_of(document@) == Err::<Map<Seq<char>, Seq<char>>, Seq<char>>(
                error@,
            ),
        },
{
    match document.get("database") {
        None => Err(MyError::new("Cannot convert to hash")),
        Some(database) => fields_from_node(database),
    }
}

/// The document that the configuration text `text` is read from: its first
/// document.
///
/// Fails with the parser's message where `text` is no YAML, and with
/// "Cannot convert to hash" where it holds no document.
pub fn load_document(text: &str) -> (loaded: Result<Node, MyError>)
    ensures
        match loaded {
            Ok(document) => document_of_text(text@) == Ok::<NodeView, Seq<char>>(document@),
            Err(error) => document_of_text(text@) == Err::<NodeView, Seq<char>>(error@),
        },
{
    let mut documents = load_yaml(text)?;
    if documents.len() == 0 {
        return Err(MyError::new("Cannot convert to hash"));
    }
    Ok(documents.swap_remove(0))
}

/// The account groups that the configuration text `text` describes: each
/// group of its `accounts` mapping with the records listed under it.
///
/// Fails with the parser's message where `text` is no YAML, with
/// "Cannot convert to hash" where `accounts` or a record is no mapping, and
/// with "Cannot convert to string" where a group name, a field name or a
/// field value is no text.
pub fn load_user_accounts(text: &str) -> (loaded: Result<AccountGroups, MyError>)
    ensures
        match loaded {
            Ok(groups) => accounts_of_text(text@) == Ok::<Seq<GroupView>, Seq<char>>(groups@),
            Err(error) => accounts_of_text(text@) == Err::<Seq<GroupView>, Seq<char>>(error@),
        },
{
    let document = load_document(text)?;
    accounts_from_document(&document)
}

/// The database parameters that the configuration text `text` gives under
/// `database`, each name with its value.
///
/// Fails with the parser's message where `text` is no YAML, with
/// "Cannot convert to hash" where `database` is no mapping, and with
/// "Cannot convert to string" where a name or a value is no text.
pub fn load_db_info(text: &str) -> (loaded: Result<TextMap, MyError>)
    ensures
        match loaded {
            Ok(info) => db_info_of_text(text@) == Ok::<Map<Seq<char>, Seq<char>>, Seq<char>>(
                info@,
            ),
            Err(error) => db_info_of_text(text@) == Err::<Map<Seq<char>, Seq<char>>, Seq<char>>(
                error@,
            ),
        },
{
    let document = load_document(text)?;
    db_info_from_document(&document)
}

} // verus!
