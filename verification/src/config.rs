//! The settings document: accounts, notification settings and custom
//! settings, each kept as the JSON text of its value.

use vstd::prelude::*;

verus! {

/// One saved account: its `uid` where it has an integer one, and its JSON text.
pub struct AccountEntry {
    pub uid: Option<i64>,
    pub json: String,
}

pub open spec fn entry_view(e: AccountEntry) -> (Option<i64>, Seq<char>) {
    (e.uid, e.json@)
}

pub open spec fn entries_view(s: Seq<AccountEntry>) -> Seq<(Option<i64>, Seq<char>)> {
    s.map_values(|e: AccountEntry| entry_view(e))
}

/// The settings document. `accounts` is the account list where the
/// document has one; `fields` holds every other top-level entry, by key,
/// as JSON text.
pub struct Config {
    pub fields: Vec<(String, String)>,
    pub accounts: Option<Vec<AccountEntry>>,
}

/// The accounts without those whose uid is `uid`, in order.
pub open spec fn without_uid(s: Seq<(Option<i64>, Seq<char>)>, uid: i64) -> Seq<(Option<i64>, Seq<char>)>
    decreases s.len(),
{
    if s.len() == 0 {
        s
    } else if s.last().0 == Some(uid) {
        without_uid(s.drop_last(), uid)
    } else {
        without_uid(s.drop_last(), uid).push(s.last())
    }
}

/// Position of the first account whose uid is `uid`.
pub open spec fn uid_pos(s: Seq<(Option<i64>, Seq<char>)>, uid: i64) -> Option<nat>
    decreases s.len(),
{
    if s.len() == 0 {
        None
    } else if s[0].0 == Some(uid) {
        Some(0)
    } else {
        match uid_pos(s.drop_first(), uid) {
            Some(i) => Some(i + 1),
            None => None,
        }
    }
}

pub open spec fn has_uid(s: Seq<(Option<i64>, Seq<char>)>, uid: i64) -> bool {
    exists|i: int| 0 <= i < s.len() && #[trigger] s[i].0 == Some(uid)
}

proof fn lemma_uid_pos_at(s: Seq<(Option<i64>, Seq<char>)>, uid: i64, i: int)
    requires
        0 <= i < s.len(),
        s[i].0 == Some(uid),
        forall|j: int| 0 <= j < i ==> s[j].0 != Some(uid),
    ensures
        uid_pos(s, uid) == Some(i as nat),
    decreases i,
{
    if i > 0 {
        lemma_uid_pos_at(s.drop_first(), uid, i - 1);
    }
}

proof fn lemma_uid_pos_none(s: Seq<(Option<i64>, Seq<char>)>, uid: i64)
    requires
        forall|j: int| 0 <= j < s.len() ==> s[j].0 != Some(uid),
    ensures
        uid_pos(s, uid) is None,
    decreases s.len(),
{
    if s.len() > 0 {
        lemma_uid_pos_none(s.drop_first(), uid);
    }
}

proof fn lemma_without_uid_len(s: Seq<(Option<i64>, Seq<char>)>, uid: i64)
    ensures
        without_uid(s, uid).len() <= s.len(),
        without_uid(s, uid).len() == s.len() <==> !has_uid(s, uid),
    decreases s.len(),
{
    if s.len() > 0 {
        lemma_without_uid_len(s.drop_last(), uid);
        if has_uid(s.drop_last(), uid) {
            let i = choose|i: int| 0 <= i < s.drop_last().len() && #[trigger] s.drop_last()[i].0 == Some(uid);
            assert(s[i].0 == Some(uid));
        }
        if has_uid(s, uid) && s.last().0 != Some(uid) {
            let i = choose|i: int| 0 <= i < s.len() && #[trigger] s[i].0 == Some(uid);
            assert(s.drop_last()[i].0 == Some(uid));
        }
        if s.last().0 == Some(uid) {
            assert(s[s.len() - 1].0 == Some(uid));
        }
    }
}

/// Position of the first entry named `k`.
pub open spec fn first_key_pos(s: Seq<(Seq<char>, Seq<char>)>, k: Seq<char>) -> Option<nat>
    decreases s.len(),
{
    if s.len() == 0 {
        None
    } else if s[0].0 == k {
        Some(0)
    } else {
        match first_key_pos(s.drop_first(), k) {
            Some(i) => Some(i + 1),
            None => None,
        }
    }
}

proof fn lemma_key_pos_at(s: Seq<(Seq<char>, Seq<char>)>, k: Seq<char>, i: int)
    requires
        0 <= i < s.len(),
        s[i].0 == k,
        forall|j: int| 0 <= j < i ==> s[j].0 != k,
    ensures
        first_key_pos(s, k) == Some(i as nat),
    decreases i,
{
    if i > 0 {
        lemma_key_pos_at(s.drop_first(), k, i - 1);
    }
}

proof fn lemma_key_pos_none(s: Seq<(Seq<char>, Seq<char>)>, k: Seq<char>)
    requires
        forall|j: int| 0 <= j < s.len() ==> s[j].0 != k,
    ensures
        first_key_pos(s, k) is None,
    decreases s.len(),
{
    if s.len() > 0 {
        lemma_key_pos_none(s.drop_first(), k);
    }
}

impl Config {
    /// The account list, where there is one.
    pub open spec fn account_list(&self) -> Option<Seq<(Option<i64>, Seq<char>)>> {
        match self.accounts {
            Some(a) => Some(entries_view(a@)),
            None => None,
        }
    }

    pub open spec fn field_list(&self) -> Seq<(Seq<char>, Seq<char>)> {
        self.fields@.map_values(|p: (String, String)| (p.0@, p.1@))
    }

    /// An empty document.
    pub fn new() -> (c: Self)
        ensures
            c.account_list() is None,
            c.field_list().len() == 0,
    {
        let c = Config { fields: Vec::new(), accounts: None };
        assert(c.field_list() =~= Seq::<(Seq<char>, Seq<char>)>::empty());
        c
    }

    /// The JSON text of every saved account, in order; none where the
    /// document has no account list.
    pub fn account_texts(&self) -> (r: Vec<String>)
        ensures
            r@.len() == match self.account_list() {
                Some(a) => a.len(),
                None => 0,
            },
            forall|i: int| 0 <= i < r@.len() ==> #[trigger] r@[i]@ == self.account_list().unwrap()[i].1,
    {
        let mut r: Vec<String> = Vec::new();
        match &self.accounts {
            None => {},
            Some(a) => {
                let mut i: usize = 0;
                while i < a.len()
                    invariant
                        i <= a@.len(),
                        r@.len() == i,
                        self.accounts == Some(*a),
                        forall|j: int| 0 <= j < i ==> #[trigger] r@[j]@ == a@[j].json@,
                    decreases a.len() - i,
                {
                    r.push(a[i].json.clone());
                    i = i + 1;
                }
            },
        }
        r
    }

    /// Sets the top-level entry `key` (not the account list) to the JSON
    /// text `json`: in place where it exists, else at the end.
    pub fn set_field(&mut self, key: &str, json: &str)
        ensures
            final(self).accounts == old(self).accounts,
            final(self).field_list() == match first_key_pos(old(self).field_list(), key@) {
                Some(i) => old(self).field_list().update(i as int, (key@, json@)),
                None => old(self).field_list().push((key@, json@)),
            },
    {
        set_in(&mut self.fields, key, json);
    }

    /// Adds an account at the end of the list, making the list first where
    /// there is none.
    pub fn add_account(&mut self, account: AccountEntry)
        ensures
            final(self).fields == old(self).fields,
            final(self).account_list() == Some(
                match old(self).account_list() {
                    Some(a) => a,
                    None => Seq::empty(),
                }.push(entry_view(account)),
            ),
    {
        let ghost av = entry_view(account);
        match &mut self.accounts {
            Some(a) => {
                let ghost before = entries_view(a@);
                a.push(account);
                assert(entries_view(a@) =~= before.push(av));
            },
            None => {
                let mut a: Vec<AccountEntry> = Vec::new();
                a.push(account);
                assert(entries_view(a@) =~= Seq::<(Option<i64>, Seq<char>)>::empty().push(av));
                self.accounts = Some(a);
            },
        }
    }

    /// Replaces the first account whose uid is `uid` by `json`; whether
    /// there was one. A document without an account list is left as it is.
    pub fn update_account(&mut self, uid: i64, json: String) -> (found: bool)
        ensures
            final(self).fields == old(self).fields,
            old(self).account_list() is None ==> !found && final(self).account_list() is None,
            old(self).account_list() matches Some(a) ==> match uid_pos(a, uid) {
                Some(i) => found && final(self).account_list() == Some(a.update(i as int, (Some(uid), json@))),
                None => !found && final(self).account_list() == Some(a),
            },
    {
        match &mut self.accounts {
            None => false,
            Some(a) => replace_uid(a, uid, json),
        }
    }

    /// Removes every account whose uid is `uid`; whether any was removed.
    /// A document without an account list is left as it is.
    pub fn delete_account(&mut self, uid: i64) -> (removed: bool)
        ensures
            final(self).fields == old(self).fields,
            old(self).account_list() is None ==> !removed && final(self).account_list() is None,
            old(self).account_list() matches Some(a) ==> final(self).account_list() == Some(without_uid(a, uid))
                && removed == has_uid(a, uid),
    {
        match &mut self.accounts {
            None => false,
            Some(a) => remove_uid(a, uid),
        }
    }
}

fn set_in(fields: &mut Vec<(String, String)>, key: &str, json: &str)
    ensures
        final(fields)@.map_values(|p: (String, String)| (p.0@, p.1@)) == match first_key_pos(
            old(fields)@.map_values(|p: (String, String)| (p.0@, p.1@)),
            key@,
        ) {
            Some(i) => old(fields)@.map_values(|p: (String, String)| (p.0@, p.1@)).update(i as int, (key@, json@)),
            None => old(fields)@.map_values(|p: (String, String)| (p.0@, p.1@)).push((key@, json@)),
        },
{
    let ghost before = fields@.map_values(|p: (String, String)| (p.0@, p.1@));
    let k = String::from_str(key);
    let mut i: usize = 0;
    while i < fields.len()
        invariant
            i <= fields@.len(),
            k@ == key@,
            before == old(fields)@.map_values(|p: (String, String)| (p.0@, p.1@)),
            fields@.map_values(|p: (String, String)| (p.0@, p.1@)) == before,
            forall|j: int| 0 <= j < i ==> #[trigger] before[j].0 != key@,
        decreases fields.len() - i,
    {
        assert(before[i as int] == (fields@[i as int].0@, fields@[i as int].1@));
        if fields[i].0 == k {
            proof {
                lemma_key_pos_at(before, key@, i as int);
            }
            fields.set(i, (k, String::from_str(json)));
            assert(fields@.map_values(|p: (String, String)| (p.0@, p.1@)) =~= before.update(i as int, (key@, json@)));
            return;
        }
        i = i + 1;
    }
    proof {
        lemma_key_pos_none(before, key@);
    }
    fields.push((k, String::from_str(json)));
    assert(fields@.map_values(|p: (String, String)| (p.0@, p.1@)) =~= before.push((key@, json@)));
}

fn replace_uid(a: &mut Vec<AccountEntry>, uid: i64, json: String) -> (found: bool)
    ensures
        match uid_pos(entries_view(old(a)@), uid) {
            Some(i) => found && entries_view(final(a)@) == entries_view(old(a)@).update(i as int, (Some(uid), json@)),
            None => !found && entries_view(final(a)@) == entries_view(old(a)@),
        },
{
    let ghost before = entries_view(a@);
    let ghost jv = json@;
    let mut i: usize = 0;
    while i < a.len()
        invariant
            i <= a@.len(),
            jv == json@,
            before == entries_view(old(a)@),
            entries_view(a@) == before,
            forall|j: int| 0 <= j < i ==> #[trigger] before[j].0 != Some(uid),
        decreases a.len() - i,
    {
        assert(before[i as int] == entry_view(a@[i as int]));
        if a[i].uid == Some(uid) {
            proof {
                lemma_uid_pos_at(before, uid, i as int);
            }
            a.set(i, AccountEntry { uid: Some(uid), json });
            assert(entries_view(a@) =~= before.update(i as int, (Some(uid), jv)));
            return true;
        }
        i = i + 1;
    }
    proof {
        lemma_uid_pos_none(before, uid);
    }
    false
}

fn remove_uid(a: &mut Vec<AccountEntry>, uid: i64) -> (removed: bool)
    ensures
        entries_view(final(a)@) == without_uid(entries_view(old(a)@), uid),
        removed == has_uid(entries_view(old(a)@), uid),
{
    let ghost before = entries_view(a@);
    let mut kept: Vec<AccountEntry> = Vec::new();
    let n = a.len();
    let mut i: usize = 0;
    assert(before.take(0) =~= Seq::<(Option<i64>, Seq<char>)>::empty());
    while i < n
        invariant
            i <= n,
            n == a@.len(),
            before == entries_view(a@),
            a@ == old(a)@,
            entries_view(kept@) == without_uid(before.take(i as int), uid),
        decreases n - i,
    {
        assert(before.take(i + 1).drop_last() =~= before.take(i as int));
        assert(before[i as int] == entry_view(a@[i as int]));
        if a[i].uid != Some(uid) {
            let ghost k = entries_view(kept@);
            let e = AccountEntry { uid: a[i].uid, json: a[i].json.clone() };
            kept.push(e);
            assert(entries_view(kept@) =~= k.push(before[i as int]));
        }
        i = i + 1;
    }
    assert(before.take(n as int) =~= before);
    proof {
        lemma_without_uid_len(before, uid);
    }
    let removed = kept.len() != n;
    *a = kept;
    removed
}

/// After an account is deleted, no account with its uid is left, so
/// updating it finds nothing.
pub proof fn law_deleted_account_is_gone(accounts: Seq<(Option<i64>, Seq<char>)>, uid: i64)
    ensures
        !has_uid(without_uid(accounts, uid), uid),
        uid_pos(without_uid(accounts, uid), uid) is None,
    decreases accounts.len(),
{
    if accounts.len() > 0 {
        law_deleted_account_is_gone(accounts.drop_last(), uid);
        let rest = without_uid(accounts.drop_last(), uid);
        if accounts.last().0 != Some(uid) {
            let w = rest.push(accounts.last());
            assert forall|i: int| 0 <= i < w.len() implies w[i].0 != Some(uid) by {
                if i < rest.len() {
                    assert(w[i] == rest[i]);
                    if rest[i].0 == Some(uid) {
                        assert(has_uid(rest, uid));
                    }
                }
            }
        }
    }
    let w = without_uid(accounts, uid);
    if has_uid(w, uid) {
        let i = choose|i: int| 0 <= i < w.len() && #[trigger] w[i].0 == Some(uid);
        if accounts.len() > 0 {
            let rest = without_uid(accounts.drop_last(), uid);
            if accounts.last().0 != Some(uid) {
                if i < rest.len() {
                    assert(rest[i] == w[i]);
                    assert(has_uid(rest, uid));
                }
            }
        }
    }
    assert forall|j: int| 0 <= j < w.len() implies w[j].0 != Some(uid) by {
        if w[j].0 == Some(uid) {
            assert(has_uid(w, uid));
        }
    }
    lemma_uid_pos_none(w, uid);
}

/// Adding an account and then deleting its uid leaves the list as
/// deleting that uid alone would.
pub proof fn law_add_then_delete(accounts: Seq<(Option<i64>, Seq<char>)>, uid: i64, json: Seq<char>)
    ensures
        without_uid(accounts.push((Some(uid), json)), uid) == without_uid(accounts, uid),
{
    assert(accounts.push((Some(uid), json)).drop_last() =~= accounts);
}

/// Deleting a uid that no account has leaves the list unchanged.
pub proof fn law_delete_absent(accounts: Seq<(Option<i64>, Seq<char>)>, uid: i64)
    requires
        !has_uid(accounts, uid),
    ensures
        without_uid(accounts, uid) == accounts,
    decreases accounts.len(),
{
    if accounts.len() > 0 {
        assert(!has_uid(accounts.drop_last(), uid)) by {
            if has_uid(accounts.drop_last(), uid) {
                let i = choose|i: int| 0 <= i < accounts.drop_last().len() && #[trigger] accounts.drop_last()[i].0
                    == Some(uid);
                assert(accounts[i].0 == Some(uid));
            }
        }
        law_delete_absent(accounts.drop_last(), uid);
        assert(accounts.last() == accounts[accounts.len() - 1]);
        assert(accounts.drop_last().push(accounts.last()) =~= accounts);
    }
}

} // verus!
