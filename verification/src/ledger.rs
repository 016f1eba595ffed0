//! The positions of a pool, each under an identifier of the caller's choosing.
//!
//! The ledger keeps its entries in the order in which they were made. No call
//! adds a second entry under an identifier that is taken.
use vstd::prelude::*;
use crate::error::PoolError;
use crate::model::copy_bytes;
use crate::model::same_bytes;
use crate::model::DebtPosition;
use crate::model::DebtPositionView;

verus! {

/// One position with the identifier and the number it was given.
#[derive(Debug)]
pub struct LedgerEntry {
    pub id: Vec<u8>,
    pub nonce: u64,
    pub position: DebtPosition,
}

/// `LedgerEntry` over mathematical values.
pub struct LedgerEntryView {
    pub id: Seq<u8>,
    pub nonce: nat,
    pub position: DebtPositionView,
}

impl View for LedgerEntry {
    type V = LedgerEntryView;

    open spec fn view(&self) -> LedgerEntryView {
        LedgerEntryView { id: self.id@, nonce: self.nonce as nat, position: self.position@ }
    }
}

/// No two entries share an identifier.
pub open spec fn distinct_ids(entries: Seq<LedgerEntryView>) -> bool {
    forall|i: int, j: int| 0 <= i < j < entries.len() ==> entries[i].id != entries[j].id
}

/// Whether an entry stands under `id`.
pub open spec fn holds(entries: Seq<LedgerEntryView>, id: Seq<u8>) -> bool {
    exists|i: int| 0 <= i < entries.len() && #[trigger] entries[i].id == id
}

/// Whether the first entry under `id` stands at place `i`.
pub open spec fn first_at(entries: Seq<LedgerEntryView>, id: Seq<u8>, i: int) -> bool {
    &&& 0 <= i < entries.len()
    &&& entries[i].id == id
    &&& forall|j: int| 0 <= j < i ==> (#[trigger] entries[j]).id != id
}

/// The place of the first entry under `id`, where there is one.
pub open spec fn index_of(entries: Seq<LedgerEntryView>, id: Seq<u8>) -> int {
    choose|i: int| first_at(entries, id, i)
}

/// The first entry under an identifier stands at one place only.
pub proof fn lemma_first_is_unique(entries: Seq<LedgerEntryView>, id: Seq<u8>, i: int)
    requires
        first_at(entries, id, i),
    ensures
        index_of(entries, id) == i,
        holds(entries, id),
{
    let k = index_of(entries, id);
    assert(first_at(entries, id, k));
    if k < i {
        assert(entries[k].id != id);
    }
    if i < k {
        assert(entries[i].id != id);
    }
}

/// Below any entry under `id` stands a first one.
proof fn lemma_first_below(entries: Seq<LedgerEntryView>, id: Seq<u8>, i: int)
    requires
        0 <= i < entries.len(),
        entries[i].id == id,
    ensures
        exists|k: int| first_at(entries, id, k),
    decreases i,
{
    if forall|j: int| 0 <= j < i ==> (#[trigger] entries[j]).id != id {
        assert(first_at(entries, id, i));
    } else {
        let j = choose|j: int| 0 <= j < i && (#[trigger] entries[j]).id == id;
        lemma_first_below(entries, id, j);
    }
}

/// Where an entry stands under `id`, `index_of` is the place of the first such entry.
pub proof fn lemma_held_has_first(entries: Seq<LedgerEntryView>, id: Seq<u8>)
    requires
        holds(entries, id),
    ensures
        first_at(entries, id, index_of(entries, id)),
{
    let i = choose|i: int| 0 <= i < entries.len() && #[trigger] entries[i].id == id;
    lemma_first_below(entries, id, i);
}

/// The positions of a pool, in the order in which they were opened.
#[derive(Debug)]
pub struct PositionLedger {
    entries: Vec<LedgerEntry>,
}

impl View for PositionLedger {
    type V = Seq<LedgerEntryView>;

    closed spec fn view(&self) -> Seq<LedgerEntryView> {
        Seq::new(self.entries@.len(), |i: int| self.entries@[i]@)
    }
}

impl PositionLedger {
    /// A ledger without entries.
    pub fn new() -> (ledger: PositionLedger)
        ensures
            ledger@ == Seq::<LedgerEntryView>::empty(),
    {
        let ledger = PositionLedger { entries: Vec::new() };
        assert(ledger@ =~= Seq::<LedgerEntryView>::empty());
        ledger
    }

    /// Number of entries.
    pub fn len(&self) -> (n: usize)
        ensures
            n == self@.len(),
    {
        self.entries.len()
    }

    /// The place of the entry under `id`; `None` where there is none.
    pub fn find(&self, id: &Vec<u8>) -> (res: Option<usize>)
        ensures
            res is Some <==> holds(self@, id@),
            res matches Some(i) ==> first_at(self@, id@, i as int) && i == index_of(self@, id@),
    {
        let mut i: usize = 0;
        while i < self.entries.len()
            invariant
                i <= self.entries.len(),
                forall|j: int| 0 <= j < i ==> (#[trigger] self@[j]).id != id@,
            decreases self.entries.len() - i,
        {
            if same_bytes(&self.entries[i].id, id) {
                proof {
                    assert(self@[i as int].id == id@);
                    lemma_first_is_unique(self@, id@, i as int);
                }
                return Some(i);
            }
            i += 1;
        }
        None
    }

    /// The identifier, number and position at place `index`; `None` beyond the last entry.
    pub fn entry(&self, index: usize) -> (res: Option<&LedgerEntry>)
        ensures
            index >= self@.len() ==> res is None,
            index < self@.len() ==> res is Some && res->0@ == self@[index as int],
    {
        if index < self.entries.len() {
            Some(&self.entries[index])
        } else {
            None
        }
    }

    /// A copy of the position under `id`; `None` where there is none.
    pub fn position(&self, id: &Vec<u8>) -> (res: Option<DebtPosition>)
        ensures
            res is Some <==> holds(self@, id@),
            res matches Some(p) ==> p@ == self@[index_of(self@, id@)].position,
    {
        match self.find(id) {
            Some(i) => Some(self.entries[i].position.clone()),
            None => None,
        }
    }

    /// Adds a position under `id`, behind the entries that are there.
    ///
    /// Fails with `InvalidParameter`, and changes nothing, where an entry stands under `id`.
    pub fn insert(&mut self, id: Vec<u8>, nonce: u64, position: DebtPosition) -> (res: Result<
        (),
        PoolError,
    >)
        ensures
            holds(old(self)@, id@) ==> res == Err::<(), PoolError>(PoolError::InvalidParameter)
                && final(self)@ == old(self)@,
            !holds(old(self)@, id@) ==> res == Ok::<(), PoolError>(()) && final(self)@ == old(self)@.push(LedgerEntryView { id: id@, nonce: nonce as nat, position: position@ }),
            distinct_ids(old(self)@) ==> distinct_ids(final(self)@),
    {
        if self.find(&id).is_some() {
            return Err(PoolError::InvalidParameter);
        }
        let ghost before = self@;
        let ghost added = LedgerEntryView { id: id@, nonce: nonce as nat, position: position@ };
        self.entries.push(LedgerEntry { id, nonce, position });
        proof {
            assert(self@ =~= before.push(added));
            if distinct_ids(before) {
                assert forall|i: int, j: int| 0 <= i < j < self@.len() implies self@[i].id
                    != self@[j].id by {
                    if j < before.len() {
                        assert(before[i].id != before[j].id);
                    } else {
                        assert(before[i].id != added.id);
                    }
                }
            }
        }
        Ok(())
    }

    /// Puts `position` in the place of the position under `id`.
    ///
    /// Fails with `NotFound`, and changes nothing, where no entry stands under `id`.
    pub fn update(&mut self, id: &Vec<u8>, position: DebtPosition) -> (res: Result<(), PoolError>)
        ensures
            !holds(old(self)@, id@) ==> res == Err::<(), PoolError>(PoolError::NotFound) && final(self)@ == old(self)@,
            holds(old(self)@, id@) ==> res == Ok::<(), PoolError>(()) && final(self)@ == old(self)@.update(
                index_of(old(self)@, id@),
                LedgerEntryView { position: position@, ..old(self)@[index_of(old(self)@, id@)] },
            ),
            distinct_ids(old(self)@) ==> distinct_ids(final(self)@),
    {
        let index: usize = match self.find(id) {
            Some(i) => i,
            None => {
                return Err(PoolError::NotFound);
            },
        };
        let ghost before = self@;
        let kept_id: Vec<u8> = copy_bytes(&self.entries[index].id);
        let kept_nonce: u64 = self.entries[index].nonce;
        let ghost put = LedgerEntryView { position: position@, ..before[index as int] };
        self.entries.set(index, LedgerEntry { id: kept_id, nonce: kept_nonce, position });
        proof {
            assert(self@ =~= before.update(index as int, put));
            if distinct_ids(before) {
                assert forall|i: int, j: int| 0 <= i < j < self@.len() implies self@[i].id
                    != self@[j].id by {
                    assert(before[i].id != before[j].id);
                }
            }
        }
        Ok(())
    }

    /// The identifiers of all entries, in the order in which they were made.
    pub fn ids(&self) -> (res: Vec<Vec<u8>>)
        ensures
            res@.len() == self@.len(),
            forall|i: int| 0 <= i < self@.len() ==> (#[trigger] res@[i])@ == self@[i].id,
    {
        let mut res: Vec<Vec<u8>> = Vec::new();
        let mut i: usize = 0;
        while i < self.entries.len()
            invariant
                i <= self.entries.len(),
                res@.len() == i,
                forall|j: int| 0 <= j < i ==> (#[trigger] res@[j])@ == self@[j].id,
            decreases self.entries.len() - i,
        {
            res.push(copy_bytes(&self.entries[i].id));
            i += 1;
        }
        res
    }
}

} // verus!
