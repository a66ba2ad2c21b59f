use vstd::prelude::*;

use crate::trade::{EnergyTrade, TradeSide};

verus! {

/// One ledger row: a participant identity (raw account address bytes) and
/// that participant's current trade.
#[derive(Debug, PartialEq, Eq)]
pub struct LedgerEntry {
    pub participant: Vec<u8>,
    pub trade: EnergyTrade,
}

impl View for LedgerEntry {
    type V = (Seq<u8>, EnergyTrade);

    open spec fn view(&self) -> (Seq<u8>, EnergyTrade) {
        (self.participant@, self.trade)
    }
}

/// Does some row of `s` carry the key `k`?
pub open spec fn contains_key(s: Seq<(Seq<u8>, EnergyTrade)>, k: Seq<u8>) -> bool {
    exists|i: int| 0 <= i < s.len() && #[trigger] s[i].0 == k
}

/// The index of the row carrying `k`; meaningful only under `unique_keys`
/// when `contains_key(s, k)` holds.
pub open spec fn index_of_key(s: Seq<(Seq<u8>, EnergyTrade)>, k: Seq<u8>) -> int {
    choose|i: int| 0 <= i < s.len() && #[trigger] s[i].0 == k
}

/// No two rows carry the same participant key.
pub open spec fn unique_keys(s: Seq<(Seq<u8>, EnergyTrade)>) -> bool {
    forall|i: int, j: int|
        0 <= i < s.len() && 0 <= j < s.len() && i != j ==> (#[trigger] s[i].0) != (#[trigger] s[j].0)
}

/// The volume a single row contributes to the `side` total.
pub open spec fn side_volume(e: (Seq<u8>, EnergyTrade), side: TradeSide) -> int {
    if e.1.side == side {
        e.1.energy_amount as int
    } else {
        0
    }
}

/// Total energy volume of all rows on `side`.
pub open spec fn sum_side(s: Seq<(Seq<u8>, EnergyTrade)>, side: TradeSide) -> int
    decreases s.len(),
{
    if s.len() == 0 {
        0
    } else {
        sum_side(s.drop_last(), side) + side_volume(s.last(), side)
    }
}

pub proof fn lemma_sum_side_nonneg(s: Seq<(Seq<u8>, EnergyTrade)>, side: TradeSide)
    ensures
        sum_side(s, side) >= 0,
    decreases s.len(),
{
    if s.len() > 0 {
        lemma_sum_side_nonneg(s.drop_last(), side);
    }
}

/// Appending a row raises a side total by exactly that row's contribution.
pub proof fn lemma_sum_side_push(s: Seq<(Seq<u8>, EnergyTrade)>, e: (Seq<u8>, EnergyTrade), side: TradeSide)
    ensures
        sum_side(s.push(e), side) == sum_side(s, side) + side_volume(e, side),
{
    assert(s.push(e).drop_last() =~= s);
}

/// Overwriting a row moves a side total by the difference of the new and old
/// contributions.
pub proof fn lemma_sum_side_update(
    s: Seq<(Seq<u8>, EnergyTrade)>,
    i: int,
    e: (Seq<u8>, EnergyTrade),
    side: TradeSide,
)
    requires
        0 <= i < s.len(),
    ensures
        sum_side(s.update(i, e), side) == sum_side(s, side) - side_volume(s[i], side) + side_volume(
            e,
            side,
        ),
    decreases s.len(),
{
    if i == s.len() - 1 {
        assert(s.update(i, e).drop_last() =~= s.drop_last());
        assert(s.update(i, e).last() == e);
    } else {
        assert(s.update(i, e).drop_last() =~= s.drop_last().update(i, e));
        assert(s.update(i, e).last() == s.last());
        lemma_sum_side_update(s.drop_last(), i, e, side);
    }
}

/// A side total over a prefix never exceeds the total over the whole.
pub proof fn lemma_sum_side_prefix_le(s: Seq<(Seq<u8>, EnergyTrade)>, i: int, side: TradeSide)
    requires
        0 <= i <= s.len(),
    ensures
        sum_side(s.take(i), side) <= sum_side(s, side),
    decreases s.len() - i,
{
    if i < s.len() {
        lemma_sum_side_push(s.take(i), s[i], side);
        assert(s.take(i + 1) =~= s.take(i).push(s[i]));
        lemma_sum_side_prefix_le(s, i + 1, side);
    } else {
        assert(s.take(i) =~= s);
    }
}

/// No single row contributes more than the whole side total.
pub proof fn lemma_side_volume_le_sum(s: Seq<(Seq<u8>, EnergyTrade)>, i: int, side: TradeSide)
    requires
        0 <= i < s.len(),
    ensures
        side_volume(s[i], side) <= sum_side(s, side),
    decreases s.len(),
{
    lemma_sum_side_nonneg(s.drop_last(), side);
    if i < s.len() - 1 {
        lemma_side_volume_le_sum(s.drop_last(), i, side);
    }
}

/// Byte-string equality, the comparison under ledger keys.
pub fn bytes_eq(a: &[u8], b: &[u8]) -> (r: bool)
    ensures
        r == (a@ == b@),
{
    if a.len() != b.len() {
        return false;
    }
    let mut i: usize = 0;
    while i < a.len()
        invariant
            0 <= i <= a@.len(),
            a@.len() == b@.len(),
            forall|k: int| 0 <= k < i ==> a@[k] == b@[k],
        decreases a@.len() - i,
    {
        if a[i] != b[i] {
            return false;
        }
        i = i + 1;
    }
    proof {
        assert(a@ =~= b@);
    }
    true
}

/// Copies raw participant bytes into an owned key.
pub fn copy_bytes(v: &[u8]) -> (r: Vec<u8>)
    ensures
        r@ == v@,
{
    let mut out: Vec<u8> = Vec::new();
    let mut i: usize = 0;
    while i < v.len()
        invariant
            0 <= i <= v@.len(),
            out@ =~= v@.take(i as int),
        decreases v@.len() - i,
    {
        out.push(v[i]);
        i = i + 1;
    }
    proof {
        assert(v@.take(v@.len() as int) =~= v@);
    }
    out
}

/// The append/overwrite map from participant identity to that participant's
/// single current trade. Keys are unique by construction.
#[derive(Debug, PartialEq, Eq)]
pub struct TradeLedger {
    entries: Vec<LedgerEntry>,
}

impl View for TradeLedger {
    type V = Seq<(Seq<u8>, EnergyTrade)>;

    closed spec fn view(&self) -> Seq<(Seq<u8>, EnergyTrade)> {
        self.entries@.map_values(|e: LedgerEntry| e@)
    }
}

impl TradeLedger {
    /// The ledger's internal invariant: one row per participant.
    pub open spec fn wf(&self) -> bool {
        unique_keys(self@)
    }

    pub fn new() -> (r: TradeLedger)
        ensures
            r@ =~= Seq::<(Seq<u8>, EnergyTrade)>::empty(),
            r.wf(),
    {
        TradeLedger { entries: Vec::new() }
    }

    pub fn len(&self) -> (r: usize)
        ensures
            r == self@.len(),
    {
        self.entries.len()
    }

    pub fn entry_at(&self, i: usize) -> (r: &LedgerEntry)
        requires
            i < self@.len(),
        ensures
            r@ == self@[i as int],
    {
        &self.entries[i]
    }

    /// The row index currently holding `participant`, if any.
    fn find_index(&self, participant: &[u8]) -> (r: Option<usize>)
        ensures
            r is Some <==> contains_key(self@, participant@),
            r matches Some(i) ==> i < self@.len() && self@[i as int].0 == participant@,
    {
        let n = self.entries.len();
        let mut i: usize = 0;
        while i < n
            invariant
                0 <= i <= n,
                n == self@.len(),
                forall|k: int| 0 <= k < i ==> (#[trigger] self@[k].0) != participant@,
            decreases n - i,
        {
            proof {
                assert(self@[i as int] == self.entries@[i as int]@);
            }
            if bytes_eq(self.entries[i].participant.as_slice(), participant) {
                proof {
                    assert(self@[i as int].0 == participant@);
                }
                return Some(i);
            }
            i = i + 1;
        }
        None
    }

    /// Looks up a participant's current trade.
    pub fn get(&self, participant: &[u8]) -> (r: Option<&EnergyTrade>)
        ensures
            r is Some <==> contains_key(self@, participant@),
            r matches Some(t) ==> exists|i: int|
                0 <= i < self@.len() && #[trigger] self@[i].0 == participant@ && self@[i].1 == *t,
    {
        match self.find_index(participant) {
            Some(i) => Some(&self.entries[i].trade),
            None => None,
        }
    }

    /// The total energy volume of this ledger's rows on `side`, or `None`
    /// where it exceeds the machine range.
    pub fn side_total(&self, side: TradeSide) -> (r: Option<u64>)
        ensures
            r is Some <==> sum_side(self@, side) <= u64::MAX,
            r matches Some(v) ==> v == sum_side(self@, side),
    {
        let n = self.entries.len();
        let mut acc: u64 = 0;
        let mut i: usize = 0;
        proof {
            assert(self@.take(0) =~= Seq::<(Seq<u8>, EnergyTrade)>::empty());
        }
        while i < n
            invariant
                0 <= i <= n,
                n == self@.len(),
                acc == sum_side(self@.take(i as int), side),
            decreases n - i,
        {
            proof {
                assert(self@[i as int] == self.entries@[i as int]@);
                lemma_sum_side_push(self@.take(i as int), self@[i as int], side);
                assert(self@.take(i + 1) =~= self@.take(i as int).push(self@[i as int]));
            }
            let e = &self.entries[i];
            let vol: u64 = if e.trade.side == side {
                e.trade.energy_amount
            } else {
                0
            };
            acc = match acc.checked_add(vol) {
                Some(v) => v,
                None => {
                    proof {
                        lemma_sum_side_prefix_le(self@, i + 1, side);
                    }
                    return None;
                },
            };
            i = i + 1;
        }
        proof {
            assert(self@.take(n as int) =~= self@);
        }
        Some(acc)
    }

    /// Inserts the trade for `participant`, replacing any existing row, and
    /// returns the replaced trade so its volume can be reversed out of the
    /// running totals.
    pub fn upsert(&mut self, participant: Vec<u8>, t: EnergyTrade) -> (prev: Option<EnergyTrade>)
        requires
            old(self).wf(),
        ensures
            final(self).wf(),
            prev is Some <==> contains_key(old(self)@, participant@),
            (match prev {
                Some(p) => {
                    let i = index_of_key(old(self)@, participant@);
                    &&& 0 <= i < old(self)@.len()
                    &&& old(self)@[i].0 == participant@
                    &&& p == old(self)@[i].1
                    &&& final(self)@ =~= old(self)@.update(i, (participant@, t))
                },
                None => final(self)@ =~= old(self)@.push((participant@, t)),
            }),
    {
        let found = self.find_index(participant.as_slice());
        match found {
            Some(i) => {
                let prev_trade = self.entries[i].trade;
                proof {
                    let j = index_of_key(old(self)@, participant@);
                    assert(old(self)@[j].0 == participant@);
                    assert(j == i as int);
                }
                self.entries[i] = LedgerEntry { participant, trade: t };
                proof {
                    assert(self@ =~= old(self)@.update(i as int, (participant@, t)));
                }
                Some(prev_trade)
            },
            None => {
                self.entries.push(LedgerEntry { participant, trade: t });
                proof {
                    assert(self@ =~= old(self)@.push((participant@, t)));
                }
                None
            },
        }
    }
}

} // verus!
