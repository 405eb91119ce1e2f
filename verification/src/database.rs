//! The in-memory store used when no database is configured: e-mails by id,
//! and retention rules in the order they were saved.
use vstd::prelude::*;
use crate::entities::{Email, EmailModel, RetentionRule};
use crate::text::str_eq;

verus! {

/// The e-mails of `s` by id, a later e-mail replacing an earlier one with the same id.
pub open spec fn email_map(s: Seq<Email>) -> Map<Seq<char>, EmailModel>
    decreases s.len(),
{
    if s.len() == 0 {
        Map::empty()
    } else {
        email_map(s.drop_last()).insert(s.last().id@, s.last()@)
    }
}

/// No two e-mails of `s` share an id.
pub open spec fn ids_unique(s: Seq<Email>) -> bool {
    forall|i: int, j: int| 0 <= i < j < s.len() ==> (#[trigger] s[i]).id@ != (#[trigger] s[j]).id@
}

/// The in-memory store.
pub struct MockStorage {
    emails: Vec<Email>,
    rules: Vec<RetentionRule>,
}

/// The mathematical model of a [`MockStorage`]: the e-mails by id and the
/// retention rules in the order they were saved.
pub struct StorageModel {
    pub emails: Map<Seq<char>, EmailModel>,
    pub rules: Seq<RetentionRule>,
}

impl View for MockStorage {
    type V = StorageModel;

    closed spec fn view(&self) -> StorageModel {
        StorageModel { emails: email_map(self.emails@), rules: self.rules@ }
    }
}

/// The retention rule the in-memory store starts with: messages from
/// `alerts@system.com` are trashed after 7 days.
pub open spec fn is_default_rule(r: RetentionRule) -> bool {
    r.id@ == "rule1"@ && r.query@ == "from:alerts@system.com"@ && r.duration_days == 7
}

proof fn lemma_email_map_lookup(s: Seq<Email>, i: int)
    requires
        ids_unique(s),
        0 <= i < s.len(),
    ensures
        email_map(s).contains_key(s[i].id@),
        email_map(s)[s[i].id@] == s[i]@,
    decreases s.len(),
{
    if i < s.len() - 1 {
        lemma_email_map_lookup(s.drop_last(), i);
        assert(s.drop_last()[i] == s[i]);
        assert(s[i].id@ != s.last().id@);
    }
}

proof fn lemma_email_map_absent(s: Seq<Email>, id: Seq<char>)
    requires
        forall|i: int| 0 <= i < s.len() ==> (#[trigger] s[i]).id@ != id,
    ensures
        !email_map(s).contains_key(id),
    decreases s.len(),
{
    if s.len() > 0 {
        lemma_email_map_absent(s.drop_last(), id);
        assert(s.last() == s[s.len() - 1]);
    }
}

proof fn lemma_email_map_keys(s: Seq<Email>, k: Seq<char>)
    requires
        email_map(s).contains_key(k),
    ensures
        exists|j: int| 0 <= j < s.len() && s[j].id@ == k,
    decreases s.len(),
{
    if s.len() > 0 && s.last().id@ != k {
        lemma_email_map_keys(s.drop_last(), k);
        let j = choose|j: int| 0 <= j < s.drop_last().len() && s.drop_last()[j].id@ == k;
        assert(s[j] == s.drop_last()[j]);
    } else if s.len() > 0 {
        assert(s[s.len() - 1] == s.last());
    }
}

/// The value stored in the `size` column of an attachment: the size as a
/// 32-bit integer (wrapping, as an `as` conversion does).
pub fn size_column(size: usize) -> (c: i32)
    ensures
        c == size as i32,
{
    size as i32
}

/// The size read back from the `size` column (as an `as` conversion does).
pub fn size_from_column(c: i32) -> (size: usize)
    ensures
        size == c as usize,
{
    c as usize
}

/// The value stored in the `duration_days` column of a rule: the duration as
/// a 32-bit integer (wrapping, as an `as` conversion does).
pub fn duration_column(days: i64) -> (c: i32)
    ensures
        c == days as i32,
{
    days as i32
}

/// The duration read back from the `duration_days` column.
pub fn duration_from_column(c: i32) -> (days: i64)
    ensures
        days == c as i64,
{
    c as i64
}

proof fn lemma_email_map_update(s: Seq<Email>, i: int, e: Email)
    requires
        ids_unique(s),
        0 <= i < s.len(),
        s[i].id@ == e.id@,
    ensures
        email_map(s.update(i, e)) == email_map(s).insert(e.id@, e@),
        ids_unique(s.update(i, e)),
    decreases s.len(),
{
    let t = s.update(i, e);
    if i == s.len() - 1 {
        assert(t.drop_last() =~= s.drop_last());
        assert(email_map(t) =~= email_map(s).insert(e.id@, e@));
    } else {
        lemma_email_map_update(s.drop_last(), i, e);
        assert(t.drop_last() =~= s.drop_last().update(i, e));
        assert(s.last().id@ != e.id@) by {
            assert(s[s.len() - 1] == s.last());
        }
        assert(email_map(t) =~= email_map(s).insert(e.id@, e@));
    }
}

impl MockStorage {
    #[verifier::type_invariant]
    spec fn unique_ids(self) -> bool {
        ids_unique(self.emails@)
    }

    /// An empty store holding only the default retention rule.
    pub fn new() -> (s: MockStorage)
        ensures
            s@.emails == Map::<Seq<char>, EmailModel>::empty(),
            s@.rules.len() == 1,
            is_default_rule(s@.rules[0]),
    {
        let mut rules: Vec<RetentionRule> = Vec::new();
        rules.push(
            RetentionRule {
                id: String::from_str("rule1"),
                query: String::from_str("from:alerts@system.com"),
                duration_days: 7,
            },
        );
        let s = MockStorage { emails: Vec::new(), rules };
        assert(s@.emails =~= Map::<Seq<char>, EmailModel>::empty());
        s
    }

    /// Stores a copy of the e-mail under its id, replacing any e-mail with that id.
    pub fn save_email(&mut self, email: &Email)
        ensures
            final(self)@.emails == old(self)@.emails.insert(email.id@, email@),
            final(self)@.rules == old(self)@.rules,
    {
        proof {
            use_type_invariant(&*self);
        }
        let mut emails: Vec<Email> = Vec::new();
        std::mem::swap(&mut emails, &mut self.emails);
        let ghost old_emails = emails@;
        let mut i: usize = 0;
        while i < emails.len()
            invariant
                i <= emails@.len(),
                emails@ == old_emails,
                forall|j: int| 0 <= j < i ==> (#[trigger] emails@[j]).id@ != email.id@,
            ensures
                i <= emails@.len(),
                emails@ == old_emails,
                forall|j: int| 0 <= j < i ==> (#[trigger] emails@[j]).id@ != email.id@,
                i < emails@.len() ==> emails@[i as int].id@ == email.id@,
            decreases emails@.len() - i,
        {
            if str_eq(emails[i].id.as_str(), email.id.as_str()) {
                break;
            }
            i += 1;
        }
        if i < emails.len() {
            let copy = email.clone();
            proof {
                lemma_email_map_update(emails@, i as int, copy);
            }
            emails.set(i, copy);
        } else {
            let copy = email.clone();
            let ghost before = emails@;
            emails.push(copy);
            proof {
                assert(emails@.drop_last() =~= before);
                assert(ids_unique(emails@)) by {
                    assert forall|a: int, b: int| 0 <= a < b < emails@.len() implies (#[trigger] emails@[a]).id@
                        != (#[trigger] emails@[b]).id@ by {
                        if b == emails@.len() - 1 {
                            assert(before[a] == emails@[a]);
                        } else {
                            assert(before[a] == emails@[a] && before[b] == emails@[b]);
                        }
                    }
                }
            }
        }
        self.emails = emails;
    }

    /// The e-mail stored under `email_id`, if any.
    pub fn get_email(&self, email_id: &str) -> (r: Option<Email>)
        ensures
            match r {
                Some(e) => self@.emails.contains_key(email_id@) && e@ == self@.emails[email_id@],
                None => !self@.emails.contains_key(email_id@),
            },
    {
        proof {
            use_type_invariant(self);
        }
        let mut i: usize = 0;
        while i < self.emails.len()
            invariant
                i <= self.emails@.len(),
                ids_unique(self.emails@),
                forall|j: int| 0 <= j < i ==> (#[trigger] self.emails@[j]).id@ != email_id@,
            decreases self.emails@.len() - i,
        {
            if str_eq(self.emails[i].id.as_str(), email_id) {
                proof {
                    lemma_email_map_lookup(self.emails@, i as int);
                }
                return Some(self.emails[i].clone());
            }
            i += 1;
        }
        proof {
            lemma_email_map_absent(self.emails@, email_id@);
        }
        None
    }

    /// Every stored e-mail, each once.
    pub fn emails(&self) -> (r: Vec<Email>)
        ensures
            forall|i: int| 0 <= i < r@.len() ==> self@.emails.contains_key((#[trigger] r@[i]).id@) && self@.emails[r@[i].id@]
                == r@[i]@,
            forall|k: Seq<char>| #[trigger] self@.emails.contains_key(k) ==> exists|i: int| 0 <= i < r@.len() && r@[i].id@ == k,
            ids_unique(r@),
    {
        proof {
            use_type_invariant(self);
        }
        let mut r: Vec<Email> = Vec::new();
        let mut i: usize = 0;
        while i < self.emails.len()
            invariant
                i <= self.emails@.len(),
                ids_unique(self.emails@),
                r@.len() == i,
                forall|j: int| 0 <= j < i ==> (#[trigger] r@[j])@ == self.emails@[j]@,
            decreases self.emails@.len() - i,
        {
            r.push(self.emails[i].clone());
            i += 1;
        }
        proof {
            assert forall|j: int| 0 <= j < r@.len() implies self@.emails.contains_key((#[trigger] r@[j]).id@)
                && self@.emails[r@[j].id@] == r@[j]@ by {
                lemma_email_map_lookup(self.emails@, j);
            }
            assert forall|k: Seq<char>| #[trigger] self@.emails.contains_key(k) implies exists|j: int|
                0 <= j < r@.len() && r@[j].id@ == k by {
                lemma_email_map_keys(self.emails@, k);
                let j = choose|j: int| 0 <= j < self.emails@.len() && self.emails@[j].id@ == k;
                assert(r@[j]@ == self.emails@[j]@);
            }
        }
        r
    }

    /// Appends a copy of the rule to the stored rules.
    pub fn save_retention_rule(&mut self, rule: &RetentionRule)
        ensures
            final(self)@.emails == old(self)@.emails,
            final(self)@.rules == old(self)@.rules.push(*rule),
    {
        proof {
            use_type_invariant(&*self);
        }
        let mut rules: Vec<RetentionRule> = Vec::new();
        std::mem::swap(&mut rules, &mut self.rules);
        rules.push(rule.clone());
        self.rules = rules;
    }

    /// The stored rules, in the order they were saved.
    pub fn get_retention_rules(&self) -> (r: Vec<RetentionRule>)
        ensures
            r@ == self@.rules,
    {
        self.rules.clone()
    }
}

/// Reading an e-mail back gives the last version saved under its id, and
/// saving an e-mail leaves every other id as it was: for a store `after` that
/// `save_email` made from `before` with the e-mail `e`.
pub proof fn lemma_read_after_save(before: StorageModel, after: StorageModel, e: EmailModel, other: Seq<char>)
    requires
        after.emails == before.emails.insert(e.id, e),
        other != e.id,
    ensures
        after.emails.contains_key(e.id),
        after.emails[e.id] == e,
        after.emails.contains_key(other) == before.emails.contains_key(other),
        before.emails.contains_key(other) ==> after.emails[other] == before.emails[other],
{
}

proof fn lemma_save_chain_from(stores: Seq<StorageModel>, saved: Seq<EmailModel>, k: int, n: int)
    requires
        stores.len() == saved.len() + 1,
        forall|i: int|
            0 <= i < saved.len() ==> #[trigger] stores[i + 1].emails == stores[i].emails.insert(saved[i].id, saved[i]),
        0 <= k < n <= saved.len(),
        forall|j: int| k < j < saved.len() ==> (#[trigger] saved[j]).id != saved[k].id,
    ensures
        stores[n].emails.contains_key(saved[k].id),
        stores[n].emails[saved[k].id] == saved[k],
    decreases n,
{
    if n > k + 1 {
        lemma_save_chain_from(stores, saved, k, n - 1);
        assert(stores[(n - 1) + 1].emails == stores[n - 1].emails.insert(saved[n - 1].id, saved[n - 1]));
        assert(saved[n - 1].id != saved[k].id);
    } else {
        assert(stores[k + 1].emails == stores[k].emails.insert(saved[k].id, saved[k]));
    }
}

/// Reading back after a sequence of [`MockStorage::save_email`] calls, where
/// `stores[i + 1]` is the store that saving `saved[i]` into `stores[i]`
/// leaves (as `save_email` ensures): reading the id of `saved[k]` from the
/// last store gives `saved[k]`, as long as no later save uses that id.
pub proof fn lemma_read_back_after_save_calls(stores: Seq<StorageModel>, saved: Seq<EmailModel>, k: int)
    requires
        stores.len() == saved.len() + 1,
        forall|i: int|
            0 <= i < saved.len() ==> #[trigger] stores[i + 1].emails == stores[i].emails.insert(saved[i].id, saved[i]),
        0 <= k < saved.len(),
        forall|j: int| k < j < saved.len() ==> (#[trigger] saved[j]).id != saved[k].id,
    ensures
        stores.last().emails.contains_key(saved[k].id),
        stores.last().emails[saved[k].id] == saved[k],
{
    lemma_save_chain_from(stores, saved, k, saved.len() as int);
}

proof fn lemma_unsaved_chain(stores: Seq<StorageModel>, saved: Seq<EmailModel>, id: Seq<char>, n: int)
    requires
        stores.len() == saved.len() + 1,
        forall|i: int|
            0 <= i < saved.len() ==> #[trigger] stores[i + 1].emails == stores[i].emails.insert(saved[i].id, saved[i]),
        forall|j: int| 0 <= j < saved.len() ==> (#[trigger] saved[j]).id != id,
        0 <= n <= saved.len(),
    ensures
        stores[n].emails.contains_key(id) == stores[0].emails.contains_key(id),
    decreases n,
{
    if n > 0 {
        lemma_unsaved_chain(stores, saved, id, n - 1);
        assert(stores[(n - 1) + 1].emails == stores[n - 1].emails.insert(saved[n - 1].id, saved[n - 1]));
        assert(saved[n - 1].id != id);
    }
}

/// After a sequence of [`MockStorage::save_email`] calls from a store made by
/// [`MockStorage::new`] (`stores[0]`), an id that none of the saves used is
/// not found.
pub proof fn lemma_unsaved_id_not_found_after_save_calls(stores: Seq<StorageModel>, saved: Seq<EmailModel>, id: Seq<char>)
    requires
        stores.len() == saved.len() + 1,
        stores[0].emails == Map::<Seq<char>, EmailModel>::empty(),
        forall|i: int|
            0 <= i < saved.len() ==> #[trigger] stores[i + 1].emails == stores[i].emails.insert(saved[i].id, saved[i]),
        forall|j: int| 0 <= j < saved.len() ==> (#[trigger] saved[j]).id != id,
    ensures
        !stores.last().emails.contains_key(id),
{
    lemma_unsaved_chain(stores, saved, id, saved.len() as int);
}

/// Saving the same e-mail twice leaves the store as saving it once.
pub proof fn lemma_save_idempotent(before: StorageModel, once: StorageModel, twice: StorageModel, e: EmailModel)
    requires
        once.emails == before.emails.insert(e.id, e),
        twice.emails == once.emails.insert(e.id, e),
    ensures
        twice.emails == once.emails,
{
    assert(twice.emails =~= once.emails);
}

} // verus!
