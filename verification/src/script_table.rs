//! The scripts that come with a transaction: each hash with the language of
//! its script.

use crate::ledger::{hash_eq, ScriptHash, ScriptVersion};
use crate::seqs::{
    first_position, is_first_position, lemma_first_position_absent, lemma_first_position_found,
};
use vstd::prelude::*;

verus! {

/// The hashes of a table's entries, in the order of the entries.
pub open spec fn entry_keys(entries: Seq<(ScriptHash, ScriptVersion)>) -> Seq<ScriptHash> {
    Seq::new(entries.len(), |i: int| entries[i].0)
}

/// No hash stands twice among the entries.
pub open spec fn distinct_keys(entries: Seq<(ScriptHash, ScriptVersion)>) -> bool {
    forall|i: int, j: int|
        0 <= i < j < entries.len() ==> (#[trigger] entries[i]).0 != (#[trigger] entries[j]).0
}

/// The language that the entries give for `hash`.
pub open spec fn lookup(entries: Seq<(ScriptHash, ScriptVersion)>, hash: ScriptHash) -> Option<
    ScriptVersion,
> {
    match first_position(entry_keys(entries), hash) {
        Some(i) => Some(entries[i].1),
        None => None,
    }
}

/// A map from script hash to script language, which keeps its entries in the
/// order in which their hashes first came.
#[derive(Debug)]
pub struct ScriptTable {
    entries: Vec<(ScriptHash, ScriptVersion)>,
}

impl View for ScriptTable {
    type V = Seq<(ScriptHash, ScriptVersion)>;

    closed spec fn view(&self) -> Seq<(ScriptHash, ScriptVersion)> {
        self.entries@
    }
}

impl ScriptTable {
    #[verifier::type_invariant]
    spec fn well_formed(&self) -> bool {
        distinct_keys(self.entries@)
    }

    /// A table without entries.
    pub fn new() -> (r: ScriptTable)
        ensures
            r@ == Seq::<(ScriptHash, ScriptVersion)>::empty(),
    {
        ScriptTable { entries: Vec::new() }
    }

    /// The number of entries.
    pub fn len(&self) -> (r: usize)
        ensures
            r == self@.len(),
    {
        self.entries.len()
    }

    /// The hash of the entry at place `i`.
    pub fn key_at(&self, i: usize) -> (r: ScriptHash)
        requires
            i < self@.len(),
        ensures
            r == self@[i as int].0,
            distinct_keys(self@),
    {
        proof {
            use_type_invariant(self);
        }
        self.entries[i].0
    }

    fn find(&self, hash: &ScriptHash) -> (r: Option<usize>)
        ensures
            match r {
                Some(i) => is_first_position(entry_keys(self@), *hash, i as int),
                None => forall|j: int| 0 <= j < self@.len() ==> self@[j].0 != *hash,
            },
    {
        let mut i: usize = 0;
        while i < self.entries.len()
            invariant
                i <= self.entries@.len(),
                forall|j: int| 0 <= j < i ==> self.entries@[j].0 != *hash,
            decreases self.entries@.len() - i,
        {
            if hash_eq(&self.entries[i].0, hash) {
                return Some(i);
            }
            i += 1;
        }
        None
    }

    /// The language of the script with this hash, if the table has it.
    pub fn get(&self, hash: &ScriptHash) -> (r: Option<ScriptVersion>)
        ensures
            r == lookup(self@, *hash),
            r is Some <==> entry_keys(self@).contains(*hash),
    {
        match self.find(hash) {
            Some(i) => {
                proof {
                    lemma_first_position_found(entry_keys(self@), *hash, i as int);
                    assert(entry_keys(self@)[i as int] == *hash);
                }
                Some(self.entries[i].1)
            },
            None => {
                proof {
                    lemma_first_position_absent(entry_keys(self@), *hash);
                }
                None
            },
        }
    }

    /// Whether the table has a script with this hash.
    pub fn contains_key(&self, hash: &ScriptHash) -> (r: bool)
        ensures
            r == entry_keys(self@).contains(*hash),
    {
        self.get(hash).is_some()
    }

    /// Gives `hash` the language `version`: in the entry that has the hash, or
    /// in a new last entry. Returns the language that the hash had.
    pub fn insert(&mut self, hash: ScriptHash, version: ScriptVersion) -> (r: Option<ScriptVersion>)
        ensures
            r == lookup(old(self)@, hash),
            final(self)@ == (match first_position(entry_keys(old(self)@), hash) {
                Some(i) => old(self)@.update(i, (hash, version)),
                None => old(self)@.push((hash, version)),
            }),
            lookup(final(self)@, hash) == Some(version),
            distinct_keys(final(self)@),
    {
        proof {
            use_type_invariant(&*self);
        }
        let ghost before = self.entries@;
        let found = self.find(&hash);
        let mut fresh: Vec<(ScriptHash, ScriptVersion)> = Vec::new();
        let mut previous: Option<ScriptVersion> = None;
        let mut i: usize = 0;
        while i < self.entries.len()
            invariant
                self.entries@ == before,
                i <= before.len(),
                fresh@.len() == i,
                forall|j: int|
                    0 <= j < i ==> fresh@[j] == (if found == Some(j as usize) {
                        (hash, version)
                    } else {
                        before[j]
                    }),
                previous == (match found {
                    Some(k) if k < i => Some(before[k as int].1),
                    _ => None,
                }),
            decreases before.len() - i,
        {
            if found == Some(i) {
                previous = Some(self.entries[i].1);
                fresh.push((hash, version));
            } else {
                fresh.push(self.entries[i]);
            }
            i += 1;
        }
        match found {
            Some(k) => {
                proof {
                    lemma_first_position_found(entry_keys(before), hash, k as int);
                    assert(fresh@ =~= before.update(k as int, (hash, version)));
                    assert(entry_keys(fresh@) =~= entry_keys(before));
                    assert forall|a: int, b: int| 0 <= a < b < fresh@.len() implies (
                    #[trigger] fresh@[a]).0 != (#[trigger] fresh@[b]).0 by {
                        assert(before[a].0 != before[b].0);
                    }
                }
            },
            None => {
                proof {
                    lemma_first_position_absent(entry_keys(before), hash);
                }
                fresh.push((hash, version));
                proof {
                    let last = before.len() as int;
                    assert(fresh@ =~= before.push((hash, version)));
                    assert(is_first_position(entry_keys(fresh@), hash, last));
                    lemma_first_position_found(entry_keys(fresh@), hash, last);
                    assert forall|a: int, b: int| 0 <= a < b < fresh@.len() implies (
                    #[trigger] fresh@[a]).0 != (#[trigger] fresh@[b]).0 by {
                        if b < last {
                            assert(before[a].0 != before[b].0);
                        }
                    }
                }
            },
        }
        self.entries = fresh;
        previous
    }
}

} // verus!
