//! The payments that a contract attaches to its next call.
//!
//! A ledger holds one entry per asset, in the order in which the assets were
//! first named. Naming an asset again adds to its entry. The ledger accepts
//! any amount, negative and zero included; what an amount means is for the
//! settlement layer to decide. A sum that leaves the 64-bit range stays at
//! the bound it crossed.

use crate::bytes::{equal, to_vec};
use vstd::prelude::*;

verus! {

/// One entry of a ledger.
#[derive(Debug)]
pub struct Payment {
    /// The asset that is paid in.
    pub asset_id: Vec<u8>,
    /// How much of it.
    pub amount: i64,
}

/// The mathematical value of a ledger: its entries, oldest first.
pub type Entries = Seq<(Seq<u8>, i64)>;

/// Whether no asset has two entries.
pub open spec fn distinct(entries: Entries) -> bool {
    forall|i: int, j: int|
        0 <= i < j < entries.len() ==> (#[trigger] entries[i]).0 != (#[trigger] entries[j]).0
}

/// Whether the ledger has an entry for `asset`.
pub open spec fn holds(entries: Entries, asset: Seq<u8>) -> bool {
    exists|i: int| 0 <= i < entries.len() && (#[trigger] entries[i]).0 == asset
}

/// The place of the entry for `asset`, when the ledger holds one.
pub open spec fn slot(entries: Entries, asset: Seq<u8>) -> int
    recommends
        holds(entries, asset),
{
    choose|i: int| 0 <= i < entries.len() && (#[trigger] entries[i]).0 == asset
}

/// The amount recorded for `asset`: that of its entry, or zero without one.
pub open spec fn amount_of(entries: Entries, asset: Seq<u8>) -> int {
    if holds(entries, asset) {
        entries[slot(entries, asset)].1 as int
    } else {
        0
    }
}

/// `value`, or the bound of the 64-bit range that it lies beyond.
pub open spec fn clamp(value: int) -> i64 {
    if value > i64::MAX {
        i64::MAX
    } else if value < i64::MIN {
        i64::MIN
    } else {
        value as i64
    }
}

/// The ledger after `amount` of `asset` has been declared.
pub open spec fn declared(entries: Entries, asset: Seq<u8>, amount: i64) -> Entries {
    if holds(entries, asset) {
        let at = slot(entries, asset);
        entries.update(at, (asset, clamp(entries[at].1 + amount)))
    } else {
        entries.push((asset, amount))
    }
}

/// The values of a list of payments.
pub open spec fn entries_of(payments: Seq<Payment>) -> Entries {
    Seq::new(payments.len(), |i: int| (payments[i].asset_id@, payments[i].amount))
}

/// In a ledger without duplicates the entry for an asset is where any
/// matching entry is.
pub proof fn lemma_slot_is_unique(entries: Entries, asset: Seq<u8>, at: int)
    requires
        distinct(entries),
        0 <= at < entries.len(),
        entries[at].0 == asset,
    ensures
        holds(entries, asset),
        slot(entries, asset) == at,
{
    let found = slot(entries, asset);
    if found < at {
        assert(entries[found].0 != entries[at].0);
    } else if at < found {
        assert(entries[at].0 != entries[found].0);
    }
}

/// Declaring a payment keeps the ledger free of duplicates.
pub proof fn lemma_declared_distinct(entries: Entries, asset: Seq<u8>, amount: i64)
    requires
        distinct(entries),
    ensures
        distinct(declared(entries, asset, amount)),
{
    let after = declared(entries, asset, amount);
    if holds(entries, asset) {
        let at = slot(entries, asset);
        assert forall|i: int, j: int| 0 <= i < j < after.len() implies (#[trigger] after[i]).0
            != (#[trigger] after[j]).0 by {
            assert(entries[i].0 != entries[j].0);
        }
    } else {
        assert forall|i: int, j: int| 0 <= i < j < after.len() implies (#[trigger] after[i]).0
            != (#[trigger] after[j]).0 by {
            if j < entries.len() {
                assert(entries[i].0 != entries[j].0);
            } else {
                assert(entries[i].0 != asset);
            }
        }
    }
}

/// Declaring a payment adds it to what was recorded for its asset, within
/// the 64-bit range, and changes the amount of no other asset.
pub proof fn lemma_declared_amount(entries: Entries, asset: Seq<u8>, amount: i64, other: Seq<u8>)
    requires
        distinct(entries),
    ensures
        amount_of(declared(entries, asset, amount), asset) == clamp(
            amount_of(entries, asset) + amount,
        ),
        other != asset ==> amount_of(declared(entries, asset, amount), other) == amount_of(
            entries,
            other,
        ),
{
    let after = declared(entries, asset, amount);
    lemma_declared_distinct(entries, asset, amount);
    if holds(entries, asset) {
        let at = slot(entries, asset);
        assert(after[at].0 == asset);
        lemma_slot_is_unique(after, asset, at);
        if other != asset {
            if holds(entries, other) {
                let there = slot(entries, other);
                assert(after[there] == entries[there]);
                lemma_slot_is_unique(after, other, there);
            } else {
                if holds(after, other) {
                    let there = slot(after, other);
                    assert(entries[there].0 == other);
                }
            }
        }
    } else {
        let at = entries.len() as int;
        assert(after[at].0 == asset);
        lemma_slot_is_unique(after, asset, at);
        if other != asset {
            if holds(entries, other) {
                let there = slot(entries, other);
                assert(after[there] == entries[there]);
                lemma_slot_is_unique(after, other, there);
            } else {
                if holds(after, other) {
                    let there = slot(after, other);
                    assert(entries[there].0 == other);
                }
            }
        }
    }
}

/// Two declarations for one asset accumulate: while the sums stay in the
/// 64-bit range, the asset's entry afterwards holds what it held before plus
/// both amounts.
pub proof fn lemma_declarations_accumulate(
    entries: Entries,
    asset: Seq<u8>,
    first: i64,
    second: i64,
)
    requires
        distinct(entries),
        i64::MIN <= amount_of(entries, asset) + first <= i64::MAX,
        i64::MIN <= amount_of(entries, asset) + first + second <= i64::MAX,
    ensures
        amount_of(declared(declared(entries, asset, first), asset, second), asset) == amount_of(
            entries,
            asset,
        ) + first + second,
{
    lemma_declared_amount(entries, asset, first, asset);
    lemma_declared_distinct(entries, asset, first);
    lemma_declared_amount(declared(entries, asset, first), asset, second, asset);
}

/// The sum of two amounts, kept within the 64-bit range.
pub fn saturating_sum(left: i64, right: i64) -> (sum: i64)
    ensures
        sum == clamp(left + right),
{
    if right > 0 && left > i64::MAX - right {
        i64::MAX
    } else if right < 0 && left < i64::MIN - right {
        i64::MIN
    } else {
        left + right
    }
}

/// The payments staged for one call.
#[derive(Debug)]
pub struct Payments {
    entries: Vec<Payment>,
}

impl Payments {
    #[verifier::type_invariant]
    spec fn inv(self) -> bool {
        distinct(entries_of(self.entries@))
    }

    /// The entries of the ledger, oldest first.
    pub closed spec fn view(&self) -> Entries {
        entries_of(self.entries@)
    }

    /// A ledger without entries.
    pub fn new() -> (ledger: Payments)
        ensures
            ledger@ == Entries::empty(),
    {
        let ledger = Payments { entries: Vec::new() };
        assert(ledger@ =~= Entries::empty());
        ledger
    }

    /// The number of entries.
    pub fn len(&self) -> (count: usize)
        ensures
            count == self@.len(),
            distinct(self@),
    {
        proof {
            use_type_invariant(self);
        }
        self.entries.len()
    }

    /// Tells whether the ledger has no entry.
    pub fn is_empty(&self) -> (empty: bool)
        ensures
            empty == (self@.len() == 0),
    {
        self.entries.len() == 0
    }

    /// The entry at place `index`, or nothing beyond the last entry.
    pub fn get(&self, index: usize) -> (entry: Option<&Payment>)
        ensures
            distinct(self@),
            match entry {
                Some(payment) => index < self@.len() && (payment.asset_id@, payment.amount)
                    == self@[index as int],
                None => index >= self@.len(),
            },
    {
        proof {
            use_type_invariant(self);
        }
        if index < self.entries.len() {
            Some(&self.entries[index])
        } else {
            None
        }
    }

    /// The amount recorded for an asset, zero where it has no entry.
    pub fn amount(&self, asset_id: &[u8]) -> (amount: i64)
        ensures
            amount == amount_of(self@, asset_id@),
    {
        proof {
            use_type_invariant(self);
        }
        let mut i: usize = 0;
        while i < self.entries.len()
            invariant
                i <= self.entries@.len(),
                forall|k: int| 0 <= k < i ==> (#[trigger] self@[k]).0 != asset_id@,
                self@ == entries_of(self.entries@),
                distinct(self@),
            decreases self.entries@.len() - i,
        {
            if equal(self.entries[i].asset_id.as_slice(), asset_id) {
                proof {
                    assert(self@[i as int].0 == asset_id@);
                    lemma_slot_is_unique(self@, asset_id@, i as int);
                }
                return self.entries[i].amount;
            }
            i += 1;
        }
        0
    }

    /// Declares `amount` of the asset `asset_id`: adds it to the asset's
    /// entry, or appends an entry where the asset has none.
    pub fn push(&mut self, asset_id: &[u8], amount: i64)
        ensures
            final(self)@ == declared(old(self)@, asset_id@, amount),
            distinct(final(self)@),
    {
        proof {
            use_type_invariant(&*self);
            lemma_declared_distinct(self@, asset_id@, amount);
        }
        let mut entries: Vec<Payment> = Vec::new();
        core::mem::swap(&mut self.entries, &mut entries);
        let ghost before = entries_of(entries@);
        let mut i: usize = 0;
        let mut merged: bool = false;
        while i < entries.len() && !merged
            invariant
                i <= entries@.len(),
                before == old(self)@,
                distinct(before),
                !merged ==> entries_of(entries@) == before,
                !merged ==> forall|k: int| 0 <= k < i ==> (#[trigger] before[k]).0 != asset_id@,
                merged ==> entries_of(entries@) == declared(before, asset_id@, amount),
            decreases entries@.len() - i + (if merged { 0int } else { 1int }),
        {
            if equal(entries[i].asset_id.as_slice(), asset_id) {
                proof {
                    assert(before[i as int].0 == asset_id@);
                    lemma_slot_is_unique(before, asset_id@, i as int);
                }
                let sum: i64 = saturating_sum(entries[i].amount, amount);
                let entry = Payment { asset_id: to_vec(asset_id), amount: sum };
                proof {
                    assert(entries_of(entries@.update(i as int, entry)) =~= declared(
                        before,
                        asset_id@,
                        amount,
                    ));
                }
                entries.set(i, entry);
                merged = true;
            } else {
                i += 1;
            }
        }
        if !merged {
            let entry = Payment { asset_id: to_vec(asset_id), amount };
            proof {
                assert(!holds(before, asset_id@));
                assert(entries_of(entries@.push(entry)) =~= declared(before, asset_id@, amount));
            }
            entries.push(entry);
        }
        self.entries = entries;
    }

    /// Hands the ledger over and consumes it.
    pub fn into_entries(self) -> (entries: Vec<Payment>)
        ensures
            entries_of(entries@) == self@,
            distinct(self@),
    {
        proof {
            use_type_invariant(&self);
        }
        self.entries
    }
}

} // verus!
