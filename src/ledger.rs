//! The ledger's cells: lookup with a zero default, overwrite, checked credit and
//! debit, and the wholesale merge of a final state.
use vstd::prelude::*;
use crate::types::{AccountId, Balance, BalanceState, Entry, Key, State, zero_balance};

verus! {

broadcast use vstd::array::group_array_axioms;

/// The index of the first entry with key `k`, or -1.
pub open spec fn first_index(e: Seq<Entry>, k: Key) -> int
    decreases e.len(),
{
    if e.len() == 0 {
        -1
    } else if e[0].0 == k {
        0
    } else {
        let r = first_index(e.drop_first(), k);
        if r < 0 { -1 } else { r + 1 }
    }
}

/// The cell at `k`: the first entry with that key, or zero.
pub open spec fn cell(e: Seq<Entry>, k: Key) -> BalanceState {
    let i = first_index(e, k);
    if i >= 0 { e[i].1 } else { zero_balance() }
}

/// The cells with the one at `k` replaced by `v`.
pub open spec fn put(e: Seq<Entry>, k: Key, v: BalanceState) -> Seq<Entry> {
    let i = first_index(e, k);
    if i >= 0 { e.update(i, (k, v)) } else { e.push((k, v)) }
}

/// Whether no two entries share a key.
pub open spec fn keys_unique(e: Seq<Entry>) -> bool {
    forall|i: int, j: int| 0 <= i < j < e.len() ==> #[trigger] e[i].0 != #[trigger] e[j].0
}

/// `amt` added to the confirmed balance at `k`, if the sum fits.
pub open spec fn credit(e: Seq<Entry>, k: Key, amt: int) -> Option<Seq<Entry>> {
    let c = cell(e, k);
    if c.confirmed_balance + amt <= u128::MAX {
        Some(put(e, k, BalanceState { confirmed_balance: (c.confirmed_balance + amt) as u128, ..c }))
    } else {
        None
    }
}

/// `amt` taken from the confirmed balance at `k`, if it is covered.
pub open spec fn debit(e: Seq<Entry>, k: Key, amt: int) -> Option<Seq<Entry>> {
    let c = cell(e, k);
    if amt <= c.confirmed_balance {
        Some(put(e, k, BalanceState { confirmed_balance: (c.confirmed_balance - amt) as u128, ..c }))
    } else {
        None
    }
}

/// The entries of `f` written over `e` in order.
pub open spec fn merge(e: Seq<Entry>, f: Seq<Entry>) -> Seq<Entry>
    decreases f.len(),
{
    if f.len() == 0 {
        e
    } else {
        put(merge(e, f.drop_last()), f.last().0, f.last().1)
    }
}

pub proof fn lemma_first_index_at(e: Seq<Entry>, k: Key, i: int)
    requires
        0 <= i < e.len(),
        e[i].0 == k,
        forall|j: int| 0 <= j < i ==> e[j].0 != k,
    ensures
        first_index(e, k) == i,
    decreases e.len(),
{
    if i > 0 {
        assert forall|j: int| 0 <= j < i - 1 implies e.drop_first()[j].0 != k by {
            assert(e.drop_first()[j] == e[j + 1]);
        }
        lemma_first_index_at(e.drop_first(), k, i - 1);
    }
}

pub proof fn lemma_first_index_absent(e: Seq<Entry>, k: Key)
    requires
        forall|j: int| 0 <= j < e.len() ==> e[j].0 != k,
    ensures
        first_index(e, k) == -1,
    decreases e.len(),
{
    if e.len() > 0 {
        assert forall|j: int| 0 <= j < e.len() - 1 implies e.drop_first()[j].0 != k by {
            assert(e.drop_first()[j] == e[j + 1]);
        }
        lemma_first_index_absent(e.drop_first(), k);
    }
}

pub proof fn lemma_first_index_bounds(e: Seq<Entry>, k: Key)
    ensures
        -1 <= first_index(e, k) < e.len(),
        first_index(e, k) >= 0 ==> e[first_index(e, k)].0 == k,
        first_index(e, k) >= 0 ==> forall|j: int| 0 <= j < first_index(e, k) ==> e[j].0 != k,
        first_index(e, k) < 0 ==> forall|j: int| 0 <= j < e.len() ==> e[j].0 != k,
    decreases e.len(),
{
    if e.len() > 0 {
        lemma_first_index_bounds(e.drop_first(), k);
        assert forall|j: int| 1 <= j < e.len() implies e[j] == e.drop_first()[j - 1] by {}
    }
}

/// What `put` does to every cell.
pub proof fn lemma_put_cell(e: Seq<Entry>, k: Key, v: BalanceState, q: Key)
    ensures
        cell(put(e, k, v), q) == (if q == k { v } else { cell(e, q) }),
{
    let p = put(e, k, v);
    lemma_first_index_bounds(e, k);
    lemma_first_index_bounds(e, q);
    let i = first_index(e, k);
    let iq = first_index(e, q);
    if q == k {
        if i >= 0 {
            lemma_first_index_at(p, k, i);
        } else {
            lemma_first_index_at(p, k, e.len() as int);
        }
    } else {
        if iq >= 0 {
            lemma_first_index_at(p, q, iq);
        } else {
            lemma_first_index_absent(p, q);
        }
    }
}

/// Overwriting a cell keeps keys unique.
pub proof fn lemma_put_keeps_unique(e: Seq<Entry>, k: Key, v: BalanceState)
    ensures
        keys_unique(e) ==> keys_unique(put(e, k, v)),
{
    lemma_first_index_bounds(e, k);
    let p = put(e, k, v);
    if keys_unique(e) {
        assert forall|i: int, j: int| 0 <= i < j < p.len() implies #[trigger] p[i].0 != #[trigger] p[j].0 by {
            if j < e.len() {
                assert(p[i].0 == e[i].0 && p[j].0 == e[j].0);
            } else {
                assert(p[i].0 == e[i].0);
            }
        }
    }
}

/// What `put` does to every cell, for all cells at once.
pub proof fn lemma_put_cells(e: Seq<Entry>, k: Key, v: BalanceState)
    ensures
        forall|q: Key| #[trigger] cell(put(e, k, v), q) == (if q == k { v } else { cell(e, q) }),
{
    assert forall|q: Key| #[trigger] cell(put(e, k, v), q) == (if q == k { v } else { cell(e, q) }) by {
        lemma_put_cell(e, k, v, q);
    }
}

/// Whether two cell addresses are the same.
pub fn key_eq(a: &Key, b: &Key) -> (r: bool)
    ensures
        r == (*a == *b),
{
    if a.1 != b.1 {
        return false;
    }
    account_eq(&a.0, &b.0)
}

/// Whether two accounts are the same.
pub fn account_eq(a: &AccountId, b: &AccountId) -> (r: bool)
    ensures
        r == (*a == *b),
{
    let mut i: usize = 0;
    while i < 32
        invariant
            i <= 32,
            a@.len() == 32,
            b@.len() == 32,
            forall|j: int| 0 <= j < i ==> a@[j] == b@[j],
        decreases 32 - i,
    {
        if a[i] != b[i] {
            assert(a@[i as int] != b@[i as int]);
            return false;
        }
        i = i + 1;
    }
    assert(*a =~= *b);
    true
}

/// The index of the first entry with key `k`, if any.
pub fn find_key(e: &Vec<Entry>, k: &Key) -> (r: Option<usize>)
    ensures
        r.is_some() ==> r.unwrap() as int == first_index(e@, *k) && r.unwrap() < e@.len(),
        r.is_none() ==> first_index(e@, *k) == -1,
{
    let mut i: usize = 0;
    while i < e.len()
        invariant
            i <= e@.len(),
            forall|j: int| 0 <= j < i ==> e@[j].0 != *k,
        decreases e@.len() - i,
    {
        if key_eq(&e[i].0, k) {
            proof { lemma_first_index_at(e@, *k, i as int); }
            return Some(i);
        }
        i = i + 1;
    }
    proof { lemma_first_index_absent(e@, *k); }
    None
}

/// The cell at `k`, zero where the ledger has none.
pub fn get_cell(e: &Vec<Entry>, k: &Key) -> (r: BalanceState)
    ensures
        r == cell(e@, *k),
{
    match find_key(e, k) {
        Some(i) => e[i].1,
        None => BalanceState { unconfirmed_balance: 0, confirmed_balance: 0 },
    }
}

/// Overwrites the cell at `k` with `v`.
pub fn put_cell(e: &mut Vec<Entry>, k: Key, v: BalanceState)
    ensures
        final(e)@ == put(old(e)@, k, v),
        keys_unique(old(e)@) ==> keys_unique(final(e)@),
{
    proof { lemma_put_keeps_unique(old(e)@, k, v); }
    match find_key(e, &k) {
        Some(i) => {
            e.set(i, (k, v));
        },
        None => {
            e.push((k, v));
        },
    }
}

/// Adds `amt` to the confirmed balance at `k`; `false` and no change where the sum overflows.
pub fn credit_cell(e: &mut Vec<Entry>, k: Key, amt: Balance) -> (r: bool)
    ensures
        r == credit(old(e)@, k, amt as int).is_some(),
        r ==> final(e)@ == credit(old(e)@, k, amt as int).unwrap(),
        !r ==> final(e)@ == old(e)@,
        keys_unique(old(e)@) ==> keys_unique(final(e)@),
{
    let c = get_cell(e, &k);
    match c.confirmed_balance.checked_add(amt) {
        Some(n) => {
            put_cell(e, k, BalanceState { confirmed_balance: n, ..c });
            true
        },
        None => false,
    }
}

/// Takes `amt` from the confirmed balance at `k`; `false` and no change where it is not covered.
pub fn debit_cell(e: &mut Vec<Entry>, k: Key, amt: Balance) -> (r: bool)
    ensures
        r == debit(old(e)@, k, amt as int).is_some(),
        r ==> final(e)@ == debit(old(e)@, k, amt as int).unwrap(),
        !r ==> final(e)@ == old(e)@,
        keys_unique(old(e)@) ==> keys_unique(final(e)@),
{
    let c = get_cell(e, &k);
    if amt <= c.confirmed_balance {
        put_cell(e, k, BalanceState { confirmed_balance: c.confirmed_balance - amt, ..c });
        true
    } else {
        false
    }
}

/// Writes every entry of `f` over the ledger cells, in order.
pub fn merge_final_state(e: &mut Vec<Entry>, f: &Vec<Entry>)
    ensures
        final(e)@ == merge(old(e)@, f@),
        keys_unique(old(e)@) ==> keys_unique(final(e)@),
{
    let mut i: usize = 0;
    while i < f.len()
        invariant
            i <= f@.len(),
            e@ == merge(old(e)@, f@.subrange(0, i as int)),
            keys_unique(old(e)@) ==> keys_unique(e@),
        decreases f@.len() - i,
    {
        proof {
            assert(f@.subrange(0, i as int + 1).drop_last() =~= f@.subrange(0, i as int));
        }
        put_cell(e, f[i].0, f[i].1);
        i = i + 1;
    }
    assert(f@.subrange(0, f@.len() as int) =~= f@);
}

/// A copy of the cells.
pub fn copy_entries(e: &Vec<Entry>) -> (r: Vec<Entry>)
    ensures
        r@ == e@,
{
    let mut r: Vec<Entry> = Vec::new();
    let mut i: usize = 0;
    while i < e.len()
        invariant
            i <= e@.len(),
            r@ == e@.subrange(0, i as int),
        decreases e@.len() - i,
    {
        r.push(e[i]);
        i = i + 1;
    }
    assert(r@ =~= e@);
    r
}

impl State {
    /// An independent copy of the ledger.
    pub fn copy(&self) -> (r: State)
        ensures
            r.balances@ == self.balances@,
            r.nonce == self.nonce,
            r.nonces@ == self.nonces@,
    {
        let balances = copy_entries(&self.balances);
        let mut nonces: Vec<(AccountId, u128)> = Vec::new();
        let mut j: usize = 0;
        while j < self.nonces.len()
            invariant
                j <= self.nonces@.len(),
                nonces@ == self.nonces@.subrange(0, j as int),
            decreases self.nonces@.len() - j,
        {
            nonces.push(self.nonces[j]);
            j = j + 1;
        }
        assert(nonces@ =~= self.nonces@);
        State { balances, nonce: self.nonce, nonces }
    }

    /// The cell at (`account`, `asset`), zero where the ledger has none.
    pub fn get(&self, account: &AccountId, asset: u128) -> (r: BalanceState)
        ensures
            r == cell(self.balances@, (*account, asset)),
    {
        get_cell(&self.balances, &(*account, asset))
    }
}

} // verus!
