//! A directory from names to accounts.

use crate::account::AccountId;
use vstd::prelude::*;

verus! {

/// One line of a directory: a name and the account filed under it.
#[derive(Debug, PartialEq, Eq)]
pub struct DirectoryEntry {
    pub name: String,
    pub account: AccountId,
}

/// The map that a list of entries stands for; a later entry of a name
/// replaces an earlier one.
pub open spec fn entries_to_map(entries: Seq<DirectoryEntry>) -> Map<Seq<char>, Seq<char>>
    decreases entries.len(),
{
    if entries.len() == 0 {
        Map::empty()
    } else {
        entries_to_map(entries.drop_last()).insert(entries.last().name@, entries.last().account@)
    }
}

/// No two entries of the list share a name.
pub open spec fn distinct_names(entries: Seq<DirectoryEntry>) -> bool {
    forall|i: int, j: int|
        0 <= i < j < entries.len() ==> (#[trigger] entries[i]).name@ != (#[trigger] entries[j]).name@
}

proof fn lemma_distinct_init(entries: Seq<DirectoryEntry>)
    requires
        distinct_names(entries),
        entries.len() > 0,
    ensures
        distinct_names(entries.drop_last()),
{
    let init = entries.drop_last();
    assert forall|a: int, b: int| 0 <= a < b < init.len() implies (#[trigger] init[a]).name@ != (
    #[trigger] init[b]).name@ by {
        assert(init[a] == entries[a] && init[b] == entries[b]);
    }
}

proof fn lemma_entries_dom(entries: Seq<DirectoryEntry>)
    ensures
        entries_to_map(entries).dom().finite(),
        forall|k: Seq<char>| #[trigger]
            entries_to_map(entries).dom().contains(k) <==> exists|i: int|
                0 <= i < entries.len() && (#[trigger] entries[i]).name@ == k,
    decreases entries.len(),
{
    if entries.len() > 0 {
        let init = entries.drop_last();
        lemma_entries_dom(init);
        assert forall|k: Seq<char>| #[trigger]
            entries_to_map(entries).dom().contains(k) <==> exists|i: int|
                0 <= i < entries.len() && (#[trigger] entries[i]).name@ == k by {
            if entries_to_map(entries).dom().contains(k) {
                if k == entries.last().name@ {
                    assert(entries[entries.len() - 1].name@ == k);
                } else {
                    let i = choose|i: int| 0 <= i < init.len() && (#[trigger] init[i]).name@ == k;
                    assert(entries[i].name@ == k);
                }
            }
            if exists|i: int| 0 <= i < entries.len() && (#[trigger] entries[i]).name@ == k {
                let i = choose|i: int| 0 <= i < entries.len() && (#[trigger] entries[i]).name@ == k;
                if i < entries.len() - 1 {
                    assert(init[i].name@ == k);
                }
            }
        }
    }
}

proof fn lemma_entries_value(entries: Seq<DirectoryEntry>, i: int)
    requires
        distinct_names(entries),
        0 <= i < entries.len(),
    ensures
        entries_to_map(entries).dom().contains(entries[i].name@),
        entries_to_map(entries)[entries[i].name@] == entries[i].account@,
    decreases entries.len(),
{
    let init = entries.drop_last();
    if i < entries.len() - 1 {
        assert(init[i] == entries[i]);
        lemma_distinct_init(entries);
        lemma_entries_value(init, i);
        assert(entries[i].name@ != entries[entries.len() - 1].name@);
    }
}

proof fn lemma_entries_len(entries: Seq<DirectoryEntry>)
    requires
        distinct_names(entries),
    ensures
        entries_to_map(entries).dom().finite(),
        entries_to_map(entries).dom().len() == entries.len(),
    decreases entries.len(),
{
    lemma_entries_dom(entries);
    if entries.len() > 0 {
        let init = entries.drop_last();
        lemma_distinct_init(entries);
        lemma_entries_len(init);
        lemma_entries_dom(init);
        let k = entries.last().name@;
        if entries_to_map(init).dom().contains(k) {
            let i = choose|i: int| 0 <= i < init.len() && (#[trigger] init[i]).name@ == k;
            assert(entries[i] == init[i]);
            assert(entries[i].name@ != entries[entries.len() - 1].name@);
        }
        assert(entries_to_map(entries).dom() =~= entries_to_map(init).dom().insert(k));
    }
}

proof fn lemma_entries_update(entries: Seq<DirectoryEntry>, i: int, entry: DirectoryEntry)
    requires
        distinct_names(entries),
        0 <= i < entries.len(),
        entry.name@ == entries[i].name@,
    ensures
        distinct_names(entries.update(i, entry)),
        entries_to_map(entries.update(i, entry)) == entries_to_map(entries).insert(entry.name@, entry.account@),
    decreases entries.len(),
{
    let updated = entries.update(i, entry);
    assert(distinct_names(updated)) by {
        assert forall|a: int, b: int| 0 <= a < b < updated.len() implies (#[trigger] updated[a]).name@ != (
        #[trigger] updated[b]).name@ by {
            assert(updated[a].name@ == entries[a].name@);
            assert(updated[b].name@ == entries[b].name@);
        }
    }
    let init = entries.drop_last();
    if i == entries.len() - 1 {
        assert(updated.drop_last() =~= init);
        assert(entries_to_map(updated) =~= entries_to_map(entries).insert(entry.name@, entry.account@));
    } else {
        lemma_distinct_init(entries);
        assert(init[i] == entries[i]);
        lemma_entries_update(init, i, entry);
        assert(updated.drop_last() =~= init.update(i, entry));
        assert(updated.last() == entries.last());
        assert(entries[i].name@ != entries[entries.len() - 1].name@);
        assert(entries_to_map(updated) =~= entries_to_map(entries).insert(entry.name@, entry.account@));
    }
}

/// The map that a list of pairs stands for; a later pair of a name replaces
/// an earlier one.
pub open spec fn pairs_to_map(pairs: Seq<(String, AccountId)>) -> Map<Seq<char>, Seq<char>>
    decreases pairs.len(),
{
    if pairs.len() == 0 {
        Map::empty()
    } else {
        pairs_to_map(pairs.drop_last()).insert(pairs.last().0@, pairs.last().1@)
    }
}

/// A finite map from names to accounts that keeps its entries in the
/// order in which their names were first filed.
#[derive(Debug)]
pub struct AccountDirectory {
    entries: Vec<DirectoryEntry>,
}

impl View for AccountDirectory {
    type V = Map<Seq<char>, Seq<char>>;

    closed spec fn view(&self) -> Map<Seq<char>, Seq<char>> {
        entries_to_map(self.entries@)
    }
}

impl AccountDirectory {
    #[verifier::type_invariant]
    spec fn well_formed(self) -> bool {
        distinct_names(self.entries@)
    }

    /// A directory without entries.
    pub fn new() -> (directory: Self)
        ensures
            directory@ == Map::<Seq<char>, Seq<char>>::empty(),
    {
        AccountDirectory { entries: Vec::new() }
    }

    /// The directory that a list of pairs stands for.
    pub fn from_vec(pairs: &Vec<(String, AccountId)>) -> (directory: Self)
        ensures
            directory@ == pairs_to_map(pairs@),
    {
        let mut directory = AccountDirectory::new();
        let mut i: usize = 0;
        assert(pairs@.subrange(0, 0) =~= Seq::<(String, AccountId)>::empty());
        while i < pairs.len()
            invariant
                i <= pairs@.len(),
                directory@ == pairs_to_map(pairs@.subrange(0, i as int)),
            decreases pairs@.len() - i,
        {
            proof {
                let next = pairs@.subrange(0, i + 1);
                assert(next.drop_last() =~= pairs@.subrange(0, i as int));
                assert(next.last() == pairs@[i as int]);
            }
            directory.insert(pairs[i].0.clone(), pairs[i].1.clone());
            i += 1;
        }
        assert(pairs@.subrange(0, pairs@.len() as int) =~= pairs@);
        directory
    }

    fn find(&self, name: &String) -> (found: Option<usize>)
        ensures
            found is Some <==> self@.dom().contains(name@),
            found matches Some(i) ==> i < self.entries@.len() && self.entries@[i as int].name@ == name@,
    {
        let mut i: usize = 0;
        while i < self.entries.len()
            invariant
                i <= self.entries@.len(),
                forall|j: int| 0 <= j < i ==> (#[trigger] self.entries@[j]).name@ != name@,
            decreases self.entries@.len() - i,
        {
            if self.entries[i].name == *name {
                proof {
                    lemma_entries_dom(self.entries@);
                    assert(self.entries@[i as int].name@ == name@);
                }
                return Some(i);
            }
            i += 1;
        }
        proof {
            lemma_entries_dom(self.entries@);
        }
        None
    }

    /// Whether an account is filed under the name.
    pub fn contains_key(&self, name: &String) -> (present: bool)
        ensures
            present == self@.dom().contains(name@),
    {
        self.find(name).is_some()
    }

    /// The account filed under the name.
    pub fn get(&self, name: &String) -> (account: Option<&AccountId>)
        ensures
            account is Some <==> self@.dom().contains(name@),
            account matches Some(a) ==> a@ == self@[name@],
    {
        proof {
            use_type_invariant(self);
        }
        match self.find(name) {
            Some(i) => {
                proof {
                    lemma_entries_value(self.entries@, i as int);
                }
                Some(&self.entries[i].account)
            },
            None => None,
        }
    }

    /// Files the account under the name, in place of what was there.
    pub fn insert(&mut self, name: String, account: AccountId)
        ensures
            final(self)@ == old(self)@.insert(name@, account@),
    {
        proof {
            use_type_invariant(&*self);
        }
        let entry = DirectoryEntry { name, account };
        let found = self.find(&entry.name);
        let mut entries: Vec<DirectoryEntry> = Vec::new();
        std::mem::swap(&mut entries, &mut self.entries);
        match found {
            Some(i) => {
                proof {
                    lemma_entries_update(entries@, i as int, entry);
                }
                entries.set(i, entry);
            },
            None => {
                proof {
                    lemma_entries_dom(entries@);
                    assert(entries@.push(entry).drop_last() =~= entries@);
                }
                entries.push(entry);
            },
        }
        self.entries = entries;
    }

    /// Removes every entry.
    pub fn clear(&mut self)
        ensures
            final(self)@ == Map::<Seq<char>, Seq<char>>::empty(),
    {
        self.entries = Vec::new();
    }

    /// How many names are filed.
    pub fn len(&self) -> (len: usize)
        ensures
            len == self@.dom().len(),
            self@.dom().finite(),
    {
        proof {
            use_type_invariant(self);
            lemma_entries_len(self.entries@);
        }
        self.entries.len()
    }

    /// The names, each once.
    pub fn keys(&self) -> (names: Vec<String>)
        ensures
            self@.dom().finite(),
            names@.len() == self@.dom().len(),
            forall|i: int| 0 <= i < names@.len() ==> self@.dom().contains((#[trigger] names@[i])@),
            forall|i: int, j: int| 0 <= i < j < names@.len() ==> (#[trigger] names@[i])@ != (#[trigger] names@[j])@,
    {
        proof {
            use_type_invariant(self);
            lemma_entries_len(self.entries@);
        }
        let mut names: Vec<String> = Vec::new();
        let mut i: usize = 0;
        while i < self.entries.len()
            invariant
                i <= self.entries@.len(),
                names@.len() == i,
                forall|j: int| 0 <= j < i ==> (#[trigger] names@[j])@ == self.entries@[j].name@,
            decreases self.entries@.len() - i,
        {
            names.push(self.entries[i].name.clone());
            i += 1;
        }
        proof {
            lemma_entries_dom(self.entries@);
        }
        assert forall|i: int| 0 <= i < names@.len() implies self@.dom().contains((#[trigger] names@[i])@) by {
            assert(self.entries@[i].name@ == names@[i]@);
        }
        assert forall|i: int, j: int| 0 <= i < j < names@.len() implies (#[trigger] names@[i])@ != (
        #[trigger] names@[j])@ by {
            assert(self.entries@[i].name@ == names@[i]@);
            assert(self.entries@[j].name@ == names@[j]@);
        }
        names
    }

    /// The entries, each name once with its account.
    pub fn to_vec(&self) -> (pairs: Vec<(String, AccountId)>)
        ensures
            self@.dom().finite(),
            pairs@.len() == self@.dom().len(),
            forall|i: int|
                0 <= i < pairs@.len() ==> self@.dom().contains((#[trigger] pairs@[i]).0@) && self@[pairs@[i].0@]
                    == pairs@[i].1@,
            forall|i: int, j: int| 0 <= i < j < pairs@.len() ==> (#[trigger] pairs@[i]).0@ != (#[trigger] pairs@[j]).0@,
    {
        proof {
            use_type_invariant(self);
            lemma_entries_len(self.entries@);
        }
        let mut pairs: Vec<(String, AccountId)> = Vec::new();
        let mut i: usize = 0;
        while i < self.entries.len()
            invariant
                i <= self.entries@.len(),
                pairs@.len() == i,
                forall|j: int|
                    0 <= j < i ==> (#[trigger] pairs@[j]).0@ == self.entries@[j].name@ && pairs@[j].1@
                        == self.entries@[j].account@,
            decreases self.entries@.len() - i,
        {
            pairs.push((self.entries[i].name.clone(), self.entries[i].account.clone()));
            i += 1;
        }
        assert forall|i: int| 0 <= i < pairs@.len() implies self@.dom().contains((#[trigger] pairs@[i]).0@)
            && self@[pairs@[i].0@] == pairs@[i].1@ by {
            lemma_entries_value(self.entries@, i);
        }
        assert forall|i: int, j: int| 0 <= i < j < pairs@.len() implies (#[trigger] pairs@[i]).0@ != (
        #[trigger] pairs@[j]).0@ by {
            assert(self.entries@[i].name@ == pairs@[i].0@);
            assert(self.entries@[j].name@ == pairs@[j].0@);
        }
        pairs
    }
}

} // verus!
