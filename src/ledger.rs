use vstd::prelude::*;
use crate::types::{Account, PurchaserRecord};

verus! {

/// One account's record in the ledger.
#[derive(Clone, Copy, PartialEq, Eq, Structural, Debug)]
pub struct LedgerEntry {
    pub account: Account,
    pub record: PurchaserRecord,
}

/// The purchaser records, keyed by account, at most one entry per account.
/// An account without an entry has the empty record.
pub struct Ledger {
    entries: Vec<LedgerEntry>,
}

/// The record of `a` in a map of records, the empty record where it has none.
pub open spec fn record_in(m: Map<Account, PurchaserRecord>, a: Account) -> PurchaserRecord {
    if m.contains_key(a) {
        m[a]
    } else {
        PurchaserRecord::empty_spec()
    }
}

impl View for Ledger {
    type V = Map<Account, PurchaserRecord>;

    closed spec fn view(&self) -> Map<Account, PurchaserRecord> {
        Map::new(
            |a: Account| self.has_entry(a),
            |a: Account| self.entries@[self.index_of(a)].record,
        )
    }
}

impl Ledger {
    closed spec fn has_entry(&self, a: Account) -> bool {
        exists|i: int| 0 <= i < self.entries@.len() && self.entries@[i].account == a
    }

    closed spec fn index_of(&self, a: Account) -> int {
        choose|i: int| 0 <= i < self.entries@.len() && self.entries@[i].account == a
    }

    /// No two entries share an account.
    pub closed spec fn wf(&self) -> bool {
        forall|i: int, j: int|
            0 <= i < j < self.entries@.len() ==> self.entries@[i].account != self.entries@[j].account
    }

    proof fn lemma_entry_at(&self, i: int)
        requires
            self.wf(),
            0 <= i < self.entries@.len(),
        ensures
            self@.contains_key(self.entries@[i].account),
            self@[self.entries@[i].account] == self.entries@[i].record,
    {
        let a = self.entries@[i].account;
        assert(self.has_entry(a));
        let j = self.index_of(a);
        assert(self.entries@[j].account == a);
        if j < i {
            assert(self.entries@[j].account != self.entries@[i].account);
        } else if i < j {
            assert(self.entries@[i].account != self.entries@[j].account);
        }
    }

    /// An empty ledger.
    pub fn new() -> (r: Ledger)
        ensures
            r.wf(),
            r@ == Map::<Account, PurchaserRecord>::empty(),
    {
        let r = Ledger { entries: Vec::new() };
        assert(r@ =~= Map::<Account, PurchaserRecord>::empty());
        r
    }

    fn find(&self, a: Account) -> (r: Option<usize>)
        requires
            self.wf(),
        ensures
            match r {
                Some(i) => i < self.entries@.len() && self.entries@[i as int].account == a,
                None => !self@.contains_key(a),
            },
    {
        let mut i: usize = 0;
        while i < self.entries.len()
            invariant
                i <= self.entries@.len(),
                forall|k: int| 0 <= k < i ==> self.entries@[k].account != a,
            decreases self.entries@.len() - i,
        {
            if self.entries[i].account == a {
                return Some(i);
            }
            i = i + 1;
        }
        None
    }

    /// Whether `a` has an entry.
    pub fn contains(&self, a: Account) -> (r: bool)
        requires
            self.wf(),
        ensures
            r == self@.contains_key(a),
    {
        match self.find(a) {
            Some(i) => {
                proof {
                    self.lemma_entry_at(i as int);
                }
                true
            },
            None => false,
        }
    }

    /// The record of `a`.
    pub fn get(&self, a: Account) -> (r: PurchaserRecord)
        requires
            self.wf(),
        ensures
            r == record_in(self@, a),
    {
        match self.find(a) {
            Some(i) => {
                proof {
                    self.lemma_entry_at(i as int);
                }
                self.entries[i].record
            },
            None => PurchaserRecord::empty(),
        }
    }

    /// Sets the record of `a` to `rec`, leaving the others as they were.
    pub fn set(&mut self, a: Account, rec: PurchaserRecord)
        requires
            old(self).wf(),
        ensures
            final(self).wf(),
            final(self)@ == old(self)@.insert(a, rec),
    {
        let ghost before = *self;
        match self.find(a) {
            Some(i) => {
                self.entries.set(i, LedgerEntry { account: a, record: rec });
                assert(self.wf());
                assert forall|b: Account| #[trigger] self@.contains_key(b) == before@.insert(a, rec).contains_key(b) by {
                    if before.has_entry(b) {
                        let k = before.index_of(b);
                        assert(self.entries@[k].account == b);
                    }
                    if self.has_entry(b) {
                        let k = self.index_of(b);
                        assert(before.entries@[k].account == b);
                    }
                }
                assert forall|b: Account| #[trigger] self@.contains_key(b) implies self@[b] == before@.insert(a, rec)[b] by {
                    let k = self.index_of(b);
                    self.lemma_entry_at(k);
                    if b != a {
                        assert(before.entries@[k].account == b);
                        before.lemma_entry_at(k);
                    }
                }
                assert(self@ =~= before@.insert(a, rec));
            },
            None => {
                self.entries.push(LedgerEntry { account: a, record: rec });
                let ghost n = before.entries@.len() as int;
                assert(self.wf()) by {
                    assert forall|i: int, j: int| 0 <= i < j < self.entries@.len() implies
                        self.entries@[i].account != self.entries@[j].account by {
                        if j == n {
                            assert(before.entries@[i].account != a) by {
                                if before.entries@[i].account == a {
                                    assert(before.has_entry(a));
                                }
                            }
                        }
                    }
                }
                assert forall|b: Account| #[trigger] self@.contains_key(b) == before@.insert(a, rec).contains_key(b) by {
                    if before.has_entry(b) {
                        let k = before.index_of(b);
                        assert(self.entries@[k].account == b);
                    }
                    if b == a {
                        assert(self.entries@[n].account == a);
                    }
                    if self.has_entry(b) && b != a {
                        let k = self.index_of(b);
                        assert(k != n);
                        assert(before.entries@[k].account == b);
                    }
                }
                assert forall|b: Account| #[trigger] self@.contains_key(b) implies self@[b] == before@.insert(a, rec)[b] by {
                    let k = self.index_of(b);
                    self.lemma_entry_at(k);
                    if b != a {
                        assert(k != n);
                        assert(before.entries@[k].account == b);
                        before.lemma_entry_at(k);
                    }
                }
                assert(self@ =~= before@.insert(a, rec));
            },
        }
    }

    /// A copy of the ledger, with the same records.
    pub fn duplicate(&self) -> (r: Ledger)
        requires
            self.wf(),
        ensures
            r.wf(),
            r@ == self@,
    {
        let mut entries: Vec<LedgerEntry> = Vec::new();
        let mut i: usize = 0;
        while i < self.entries.len()
            invariant
                i <= self.entries@.len(),
                entries@ == self.entries@.subrange(0, i as int),
            decreases self.entries@.len() - i,
        {
            entries.push(self.entries[i]);
            i = i + 1;
            assert(entries@ =~= self.entries@.subrange(0, i as int));
        }
        assert(entries@ =~= self.entries@);
        let r = Ledger { entries };
        assert(r@ =~= self@);
        r
    }
}

} // verus!
