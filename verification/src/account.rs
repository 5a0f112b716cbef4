//! Account records and the groups they are filed under.

use vstd::prelude::*;
use crate::keyed::{
    distinct, find_key, has_key, index_of, keys_of, lemma_index_of, lemma_index_of_push,
};
use crate::text_map::TextMap;

verus! {

/// What an account record holds: each field name with its value.
pub type AccountView = Map<Seq<char>, Seq<char>>;

/// What a group holds: its name and its accounts, in order.
pub type GroupView = (Seq<char>, Seq<AccountView>);

/// One user to be created: a map from field name to value. A record that can
/// be seeded holds at least `email` and `password`.
#[derive(Debug)]
pub struct UserAccount {
    info: TextMap,
}

impl View for UserAccount {
    type V = AccountView;

    closed spec fn view(&self) -> AccountView {
        self.info@
    }
}

impl UserAccount {
    /// A record without fields.
    pub fn new() -> (account: UserAccount)
        ensures
            account@ == Map::<Seq<char>, Seq<char>>::empty(),
    {
        UserAccount { info: TextMap::new() }
    }

    /// The record that holds the fields of `info`.
    pub fn from_fields(info: TextMap) -> (account: UserAccount)
        ensures
            account@ == info@,
    {
        UserAccount { info }
    }

    /// Sets the field `name` to `value`, replacing what it held.
    pub fn insert(&mut self, name: String, value: String)
        ensures
            final(self)@ == old(self)@.insert(name@, value@),
    {
        self.info.insert(name, value);
    }

    /// The value of the field `name`, `None` where the record has no such
    /// field.
    pub fn get(&self, name: &str) -> (value: Option<&str>)
        ensures
            value is Some <==> self@.contains_key(name@),
            value matches Some(text) ==> text@ == self@[name@],
    {
        self.info.get(name)
    }
}

impl Clone for UserAccount {
    /// A record with the same fields.
    fn clone(&self) -> (copy: UserAccount)
        ensures
            copy@ == self@,
    {
        UserAccount { info: self.info.clone() }
    }
}

/// A copy of `accounts`, record by record.
pub fn clone_accounts(accounts: &Vec<UserAccount>) -> (copy: Vec<UserAccount>)
    ensures
        accounts_view(copy@) == accounts_view(accounts@),
{
    let mut copy: Vec<UserAccount> = Vec::new();
    let mut i: usize = 0;
    while i < accounts.len()
        invariant
            i <= accounts@.len(),
            copy@.len() == i,
            forall|j: int| 0 <= j < i ==> copy@[j]@ == accounts@[j]@,
        decreases accounts@.len() - i,
    {
        copy.push(accounts[i].clone());
        i += 1;
    }
    assert(accounts_view(copy@) =~= accounts_view(accounts@));
    copy
}

/// What a list of account records holds.
pub open spec fn accounts_view(accounts: Seq<UserAccount>) -> Seq<AccountView> {
    Seq::new(accounts.len(), |i: int| accounts[i]@)
}

/// What a list of borrowed account records holds.
pub open spec fn records_view(records: Seq<&UserAccount>) -> Seq<AccountView> {
    Seq::new(records.len(), |i: int| records[i]@)
}

/// The accounts of all groups, group after group.
pub open spec fn all_accounts(groups: Seq<GroupView>) -> Seq<AccountView>
    decreases groups.len(),
{
    if groups.len() == 0 {
        Seq::empty()
    } else {
        all_accounts(groups.drop_last()) + groups.last().1
    }
}

/// The names of a list of groups, in order.
pub open spec fn group_names(groups: Seq<GroupView>) -> Seq<Seq<char>> {
    Seq::new(groups.len(), |i: int| groups[i].0)
}

/// `groups` after `accounts` were filed under `name`: they take the place of
/// the group of that name, or come last where there was none.
pub open spec fn put_group(
    groups: Seq<GroupView>,
    name: Seq<char>,
    accounts: Seq<AccountView>,
) -> Seq<GroupView> {
    let i = index_of(group_names(groups), name);
    if i < groups.len() {
        groups.update(i, (name, accounts))
    } else {
        groups.push((name, accounts))
    }
}

/// Filing keeps every name single, puts the accounts under their name, adds
/// at most one group, and leaves every other group as it was.
pub proof fn lemma_put_group(groups: Seq<GroupView>, name: Seq<char>, accounts: Seq<AccountView>)
    requires
        distinct(group_names(groups)),
    ensures
        distinct(group_names(put_group(groups, name, accounts))),
        groups.len() <= put_group(groups, name, accounts).len() <= groups.len() + 1,
        has_key(group_names(put_group(groups, name, accounts)), name),
        put_group(groups, name, accounts)[index_of(
            group_names(put_group(groups, name, accounts)),
            name,
        )] == (name, accounts),
        forall|i: int|
            0 <= i < groups.len() && groups[i].0 != name ==> put_group(groups, name, accounts)[i]
                == groups[i],
{
    let names = group_names(groups);
    let after = put_group(groups, name, accounts);
    lemma_index_of(names, name);
    if index_of(names, name) < groups.len() {
        assert(group_names(after) =~= names);
    } else {
        assert(group_names(after) =~= names.push(name));
        lemma_index_of_push(names, name, name);
        assert forall|i: int, j: int| 0 <= i < j < after.len() implies group_names(after)[i]
            != group_names(after)[j] by {
            if j == groups.len() {
                assert(names[i] != name);
            }
        }
    }
}

/// The accounts of a configuration, filed under group names. Each name
/// occurs once; the groups keep the order in which they were first filed.
#[derive(Debug)]
pub struct AccountGroups {
    groups: Vec<(String, Vec<UserAccount>)>,
}

/// What a list of groups holds.
spec fn groups_view(groups: Seq<(String, Vec<UserAccount>)>) -> Seq<GroupView> {
    Seq::new(groups.len(), |i: int| (groups[i].0@, accounts_view(groups[i].1@)))
}

impl View for AccountGroups {
    type V = Seq<GroupView>;

    closed spec fn view(&self) -> Seq<GroupView> {
        groups_view(self.groups@)
    }
}

impl AccountGroups {
    /// No group name occurs twice.
    #[verifier::type_invariant]
    spec fn well_formed(self) -> bool {
        distinct(keys_of(self.groups@))
    }

    /// No groups.
    pub fn new() -> (groups: AccountGroups)
        ensures
            groups@ == Seq::<GroupView>::empty(),
    {
        let groups = AccountGroups { groups: Vec::new() };
        assert(groups@ =~= Seq::<GroupView>::empty());
        groups
    }

    /// Files `accounts` under `name`, in place of what was filed there.
    pub fn insert(&mut self, name: String, accounts: Vec<UserAccount>)
        ensures
            final(self)@ == put_group(old(self)@, name@, accounts_view(accounts@)),
    {
        proof {
            use_type_invariant(&*self);
        }
        let mut groups: Vec<(String, Vec<UserAccount>)> = Vec::new();
        std::mem::swap(&mut groups, &mut self.groups);
        let ghost before = groups@;
        let ghost keys = keys_of(before);
        assert(group_names(groups_view(before)) =~= keys);
        match find_key(&groups, name.as_str()) {
            Some(i) => {
                groups.set(i, (name, accounts));
                proof {
                    lemma_index_of(keys, name@);
                    assert(keys_of(groups@) =~= keys);
                }
            },
            None => {
                groups.push((name, accounts));
                proof {
                    assert(keys_of(groups@) =~= keys.push(name@));
                    assert forall|i: int, j: int| 0 <= i < j < groups@.len() implies keys_of(
                        groups@,
                    )[i] != keys_of(groups@)[j] by {
                        lemma_index_of(keys, name@);
                    }
                }
            },
        }
        assert(groups_view(groups@) =~= put_group(
            groups_view(before),
            name@,
            accounts_view(accounts@),
        ));
        self.groups = groups;
    }

    /// The number of groups. No two of them share a name.
    pub fn len(&self) -> (n: usize)
        ensures
            n == self@.len(),
            distinct(group_names(self@)),
    {
        proof {
            use_type_invariant(self);
            assert(group_names(self@) =~= keys_of(self.groups@));
        }
        self.groups.len()
    }

    /// The name of the group at position `i`.
    pub fn name(&self, i: usize) -> (name: &str)
        requires
            i < self@.len(),
        ensures
            name@ == self@[i as int].0,
    {
        self.groups[i].0.as_str()
    }

    /// The accounts of the group at position `i`.
    pub fn accounts(&self, i: usize) -> (accounts: &Vec<UserAccount>)
        requires
            i < self@.len(),
        ensures
            accounts_view(accounts@) == self@[i as int].1,
    {
        &self.groups[i].1
    }

    /// The accounts of all groups, group after group, each group in the
    /// order of its accounts.
    pub fn all(&self) -> (list: Vec<&UserAccount>)
        ensures
            records_view(list@) == all_accounts(self@),
    {
        let ghost groups = self@;
        let mut list: Vec<&UserAccount> = Vec::new();
        let mut i: usize = 0;
        assert(records_view(list@) =~= all_accounts(groups.take(0)));
        while i < self.groups.len()
            invariant
                i <= self.groups@.len(),
                groups == self@,
                groups.len() == self.groups@.len(),
                records_view(list@) == all_accounts(groups.take(i as int)),
            decreases self.groups@.len() - i,
        {
            let accounts = &self.groups[i].1;
            let ghost before = records_view(list@);
            let ghost group = groups[i as int].1;
            let mut j: usize = 0;
            assert(records_view(list@) =~= before + group.take(0));
            while j < accounts.len()
                invariant
                    j <= accounts@.len(),
                    group == accounts_view(accounts@),
                    records_view(list@) == before + group.take(j as int),
                decreases accounts@.len() - j,
            {
                let ghost shorter = list@;
                assert(records_view(shorter).len() == (before + group.take(j as int)).len());
                assert(shorter.len() == before.len() + j);
                list.push(&accounts[j]);
                assert forall|k: int| 0 <= k < list@.len() implies records_view(list@)[k] == (before
                    + group.take(j + 1))[k] by {
                    if k < shorter.len() {
                        assert(records_view(shorter)[k] == (before + group.take(j as int))[k]);
                    } else {
                        assert(k == before.len() + j);
                        assert(list@[k]@ == accounts@[j as int]@);
                        assert(group[j as int] == accounts@[j as int]@);
                        assert(group.take(j + 1)[j as int] == group[j as int]);
                    }
                }
                assert(records_view(list@) =~= before + group.take(j + 1));
                j += 1;
            }
            proof {
                let longer = groups.take(i + 1);
                assert(group.take(j as int) =~= group);
                assert(longer.drop_last() =~= groups.take(i as int));
                assert(longer.last() == groups[i as int]);
            }
            i += 1;
        }
        assert(groups.take(i as int) =~= groups);
        list
    }

    /// The accounts filed under `name`, `None` where there is no such group.
    pub fn get(&self, name: &str) -> (accounts: Option<&Vec<UserAccount>>)
        ensures
            accounts is Some <==> has_key(group_names(self@), name@),
            accounts matches Some(found) ==> accounts_view(found@) == self@[index_of(
                group_names(self@),
                name@,
            )].1,
    {
        assert(group_names(self@) =~= keys_of(self.groups@));
        match find_key(&self.groups, name) {
            Some(i) => Some(&self.groups[i].1),
            None => None,
        }
    }
}

impl Clone for AccountGroups {
    /// The same groups with the same accounts.
    fn clone(&self) -> (copy: AccountGroups)
        ensures
            copy@ == self@,
    {
        proof {
            use_type_invariant(self);
        }
        let mut groups: Vec<(String, Vec<UserAccount>)> = Vec::new();
        let mut i: usize = 0;
        while i < self.groups.len()
            invariant
                i <= self.groups@.len(),
                groups@.len() == i,
                forall|j: int|
                    0 <= j < i ==> groups@[j].0@ == self.groups@[j].0@ && accounts_view(
                        groups@[j].1@,
                    ) == accounts_view(self.groups@[j].1@),
            decreases self.groups@.len() - i,
        {
            groups.push((self.groups[i].0.clone(), clone_accounts(&self.groups[i].1)));
            i += 1;
        }
        assert(keys_of(groups@) =~= keys_of(self.groups@));
        assert(groups_view(groups@) =~= groups_view(self.groups@));
        AccountGroups { groups }
    }
}

} // verus!
