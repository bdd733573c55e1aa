//! Settlement arithmetic of a matched maker/taker spot-trade pair.
use vstd::prelude::*;
use crate::ledger::{cell, copy_entries, keys_unique, credit, debit, get_cell, key_eq, lemma_put_cells, put_cell};
use crate::types::{AccountId, Balance, BalanceState, Entry, Key, OrderType, SpotTrade, UNIT, VerificationErrors};

verus! {

/// The exchange's fee-collection account: the tag `modl` followed by `exchange`,
/// padded with zeros.
pub const EXCHANGE_ACCOUNT: AccountId = [
    109, 111, 100, 108, 101, 120, 99, 104, 97, 110, 103, 101, 0, 0, 0, 0,
    0, 0, 0, 0, 0, 0, 0, 0, 0, 0, 0, 0, 0, 0, 0, 0,
];

/// A signed change of the confirmed balance at `k`, on a ledger that may already have failed.
pub open spec fn adjust(e: Option<Seq<Entry>>, k: Key, delta: int) -> Option<Seq<Entry>> {
    match e {
        None => None,
        Some(s) => if delta >= 0 { credit(s, k, delta) } else { debit(s, k, -delta) },
    }
}

/// Which side buys and at what price, or why the pair does not match.
/// `Ok((true, p))`: the maker buys at `p`; `Ok((false, p))`: the maker sells at `p`.
pub open spec fn trade_roles(maker: SpotTrade, taker: SpotTrade) -> Result<(bool, u128), VerificationErrors> {
    match (maker.order_type, taker.order_type) {
        (OrderType::BidLimit, OrderType::AskLimit) => {
            if taker.price <= maker.price && taker.amount <= maker.amount {
                Ok((true, taker.price))
            } else {
                Err(VerificationErrors::OrderParamCheckFailed)
            }
        },
        (OrderType::AskLimit, OrderType::BidLimit) => {
            if maker.price <= taker.price && taker.amount <= maker.amount {
                Ok((false, maker.price))
            } else {
                Err(VerificationErrors::OrderParamCheckFailed)
            }
        },
        (OrderType::BidLimit, OrderType::AskMarket) => {
            if taker.amount <= maker.amount {
                Ok((true, maker.price))
            } else {
                Err(VerificationErrors::OrderAmountFailure)
            }
        },
        (OrderType::AskLimit, OrderType::BidMarket) => {
            if taker.amount <= maker.amount {
                Ok((false, maker.price))
            } else {
                Err(VerificationErrors::OrderAmountFailure)
            }
        },
        _ => Err(VerificationErrors::InvalidOrderCombination),
    }
}

/// The quote value of `amount` at `price`, both fixed-point: `price * amount / UNIT`.
pub open spec fn trade_quote(price: int, amount: int) -> int {
    (price * amount) / (UNIT as int)
}

/// The exchange's share of a quote value `tq` at fee fraction `fee`: `tq * fee / UNIT`.
pub open spec fn fee_amount(tq: int, fee: int) -> int {
    (tq * fee) / (UNIT as int)
}

/// Whether the products of a trade fit a balance and the fee does not exceed the trade.
pub open spec fn transfer_in_range(price: int, amount: int, fee: int) -> bool {
    &&& price * amount <= u128::MAX
    &&& trade_quote(price, amount) * fee <= u128::MAX
    &&& fee_amount(trade_quote(price, amount), fee) <= trade_quote(price, amount)
}

/// A change of one cell's confirmed balance: the cell, whether it is a decrease,
/// and its size.
pub type Delta = (Key, bool, u128);

/// The signed size of a change.
pub open spec fn signed(d: Delta) -> int {
    if d.1 { -(d.2 as int) } else { d.2 as int }
}

/// The sum of the changes to cell `k` among the first `n` changes.
pub open spec fn net_change(ds: Seq<Delta>, k: Key, n: int) -> int
    decreases n,
{
    if n <= 0 {
        0
    } else {
        net_change(ds, k, n - 1) + if ds[n - 1].0 == k { signed(ds[n - 1]) } else { 0 }
    }
}

/// Whether one of the first `n` changes is to cell `k`.
pub open spec fn seen_before(ds: Seq<Delta>, n: int, k: Key) -> bool {
    exists|j: int| 0 <= j < n && ds[j].0 == k
}

/// The cells after each distinct cell among the first `n` changes has received the
/// sum of all its changes, in order of first appearance; `None` once a sum would
/// take a balance below zero or past the largest balance.
pub open spec fn apply_deltas(e: Seq<Entry>, ds: Seq<Delta>, n: int) -> Option<Seq<Entry>>
    decreases n,
{
    if n <= 0 {
        Some(e)
    } else {
        let prev = apply_deltas(e, ds, n - 1);
        let k = ds[n - 1].0;
        if seen_before(ds, n - 1, k) { prev } else { adjust(prev, k, net_change(ds, k, ds.len() as int)) }
    }
}

/// The five changes of a trade of quote value `tq` with fee `fa`:
/// the buyer pays the quote value, the buyer receives `amount` of base,
/// the seller gives `amount` of base, the seller receives the quote value less the fee,
/// the exchange receives the fee in the seller's quote asset.
pub open spec fn trade_deltas(buyer: SpotTrade, seller: SpotTrade, tq: u128, fa: u128, amount: u128) -> Seq<Delta> {
    seq![
        ((buyer.trader, buyer.quote_asset), true, tq),
        ((buyer.trader, buyer.base_asset), false, amount),
        ((seller.trader, seller.base_asset), true, amount),
        ((seller.trader, seller.quote_asset), false, (tq - fa) as u128),
        ((EXCHANGE_ACCOUNT, seller.quote_asset), false, fa),
    ]
}

/// The changes of a trade of `amount` base at `price` with fee fraction `fee`.
pub open spec fn transfer_deltas(buyer: SpotTrade, seller: SpotTrade, price: u128, amount: u128, fee: u128) -> Seq<Delta> {
    let tq = trade_quote(price as int, amount as int);
    trade_deltas(buyer, seller, tq as u128, fee_amount(tq, fee as int) as u128, amount)
}

/// A trade settled on the cells: every touched cell moves by the sum of its changes,
/// and the trade fails where a product does not fit or a sum would take a balance
/// below zero or past the largest balance.
pub open spec fn transfer(e: Seq<Entry>, buyer: SpotTrade, seller: SpotTrade, price: u128, amount: u128, fee: u128) -> Result<Seq<Entry>, VerificationErrors> {
    if !transfer_in_range(price as int, amount as int, fee as int) {
        Err(VerificationErrors::OrderParamCheckFailed)
    } else {
        match apply_deltas(e, transfer_deltas(buyer, seller, price, amount, fee), 5) {
            Some(s) => Ok(s),
            None => Err(VerificationErrors::OrderParamCheckFailed),
        }
    }
}

/// Whether maker and taker name the same base and quote assets.
pub open spec fn same_market(maker: SpotTrade, taker: SpotTrade) -> bool {
    maker.base_asset == taker.base_asset && maker.quote_asset == taker.quote_asset
}

/// The changes that settling the pair makes, where the pair matches.
pub open spec fn settlement_deltas(maker: SpotTrade, taker: SpotTrade, fee: u128) -> Seq<Delta> {
    match trade_roles(maker, taker) {
        Err(_) => Seq::empty(),
        Ok((maker_buys, price)) => if maker_buys {
            transfer_deltas(maker, taker, price, taker.amount, fee)
        } else {
            transfer_deltas(taker, maker, price, taker.amount, fee)
        },
    }
}

/// The cells after settling `maker` against `taker` with fee fraction `fee`.
pub open spec fn settle_spec(e: Seq<Entry>, maker: SpotTrade, taker: SpotTrade, fee: u128, max_fee: u128) -> Result<Seq<Entry>, VerificationErrors> {
    if fee > max_fee {
        Err(VerificationErrors::InvalidFee)
    } else {
        match trade_roles(maker, taker) {
            Err(x) => Err(x),
            Ok((maker_buys, price)) => if !same_market(maker, taker) {
                Err(VerificationErrors::OrderParamCheckFailed)
            } else if maker_buys {
                transfer(e, maker, taker, price, taker.amount, fee)
            } else {
                transfer(e, taker, maker, price, taker.amount, fee)
            },
        }
    }
}

/// The cells that settling the pair touches, in the order of `trade_deltas`.
pub open spec fn settlement_keys(maker: SpotTrade, taker: SpotTrade) -> Seq<Key> {
    match trade_roles(maker, taker) {
        Err(_) => Seq::empty(),
        Ok((maker_buys, _)) => {
            let buyer = if maker_buys { maker } else { taker };
            let seller = if maker_buys { taker } else { maker };
            seq![
                (buyer.trader, buyer.quote_asset),
                (buyer.trader, buyer.base_asset),
                (seller.trader, seller.base_asset),
                (seller.trader, seller.quote_asset),
                (EXCHANGE_ACCOUNT, seller.quote_asset),
            ]
        },
    }
}

/// The exchange's fee-collection account.
pub fn exchange_account() -> (r: AccountId)
    ensures
        r == EXCHANGE_ACCOUNT,
{
    EXCHANGE_ACCOUNT
}

pub(crate) fn checked_roles(maker: &SpotTrade, taker: &SpotTrade) -> (r: Result<(bool, u128), VerificationErrors>)
    ensures
        r == trade_roles(*maker, *taker),
{
    match (maker.order_type, taker.order_type) {
        (OrderType::BidLimit, OrderType::AskLimit) => {
            if taker.price <= maker.price && taker.amount <= maker.amount {
                Ok((true, taker.price))
            } else {
                Err(VerificationErrors::OrderParamCheckFailed)
            }
        },
        (OrderType::AskLimit, OrderType::BidLimit) => {
            if maker.price <= taker.price && taker.amount <= maker.amount {
                Ok((false, maker.price))
            } else {
                Err(VerificationErrors::OrderParamCheckFailed)
            }
        },
        (OrderType::BidLimit, OrderType::AskMarket) => {
            if taker.amount <= maker.amount {
                Ok((true, maker.price))
            } else {
                Err(VerificationErrors::OrderAmountFailure)
            }
        },
        (OrderType::AskLimit, OrderType::BidMarket) => {
            if taker.amount <= maker.amount {
                Ok((false, maker.price))
            } else {
                Err(VerificationErrors::OrderAmountFailure)
            }
        },
        _ => Err(VerificationErrors::InvalidOrderCombination),
    }
}

/// A number below 256 * 2^128, as a count of 2^128 and a remainder.
pub open spec fn wide(w: (u8, u128)) -> int {
    w.0 as int * 0x1_0000_0000_0000_0000_0000_0000_0000_0000int + w.1 as int
}

fn wide_add(a: (u8, u128), m: u128) -> (r: (u8, u128))
    requires
        a.0 < 255,
    ensures
        wide(r) == wide(a) + m,
        r.0 <= a.0 + 1,
{
    match a.1.checked_add(m) {
        Some(s) => (a.0, s),
        None => (a.0 + 1, m - (u128::MAX - a.1) - 1),
    }
}

/// The balance `old` moved by the sum of the changes to cell `k`, if that stays
/// between zero and the largest balance.
fn moved_balance(old: u128, ds: &Vec<Delta>, k: &Key) -> (r: Option<u128>)
    requires
        ds@.len() < 100,
    ensures
        r.is_some() <==> 0 <= old + net_change(ds@, *k, ds@.len() as int) <= u128::MAX,
        r.is_some() ==> r.unwrap() == old + net_change(ds@, *k, ds@.len() as int),
{
    let mut up: (u8, u128) = (0, old);
    let mut down: (u8, u128) = (0, 0);
    let mut j: usize = 0;
    while j < ds.len()
        invariant
            j <= ds@.len() < 100,
            up.0 <= j,
            down.0 <= j,
            wide(up) - wide(down) == old + net_change(ds@, *k, j as int),
        decreases ds@.len() - j,
    {
        if key_eq(&ds[j].0, k) {
            if ds[j].1 {
                down = wide_add(down, ds[j].2);
            } else {
                up = wide_add(up, ds[j].2);
            }
        }
        j = j + 1;
    }
    if up.0 < down.0 || (up.0 == down.0 && up.1 < down.1) {
        return None;
    }
    let hi: u8 = if up.1 >= down.1 { up.0 - down.0 } else { up.0 - down.0 - 1 };
    let lo: u128 = if up.1 >= down.1 { up.1 - down.1 } else { up.1 + (u128::MAX - down.1) + 1 };
    assert(wide((hi, lo)) == wide(up) - wide(down));
    if hi != 0 {
        None
    } else {
        Some(lo)
    }
}

fn seen(ds: &Vec<Delta>, n: usize, k: &Key) -> (r: bool)
    requires
        n <= ds@.len(),
    ensures
        r == seen_before(ds@, n as int, *k),
{
    let mut j: usize = 0;
    while j < n
        invariant
            j <= n <= ds@.len(),
            forall|m: int| 0 <= m < j ==> ds@[m].0 != *k,
        decreases n - j,
    {
        if key_eq(&ds[j].0, k) {
            return true;
        }
        j = j + 1;
    }
    false
}

/// A signed change of one cell's confirmed balance leaves every other cell as it was.
pub proof fn lemma_adjust(e: Seq<Entry>, k: Key, delta: int)
    ensures
        adjust(Some(e), k, delta).is_some() <==> 0 <= cell(e, k).confirmed_balance + delta <= u128::MAX,
        adjust(Some(e), k, delta).is_some() ==> forall|q: Key| #[trigger] cell(adjust(Some(e), k, delta).unwrap(), q).confirmed_balance
            == if q == k { cell(e, k).confirmed_balance + delta } else { cell(e, q).confirmed_balance as int },
{
    let c = cell(e, k);
    lemma_put_cells(e, k, BalanceState { confirmed_balance: (c.confirmed_balance + delta) as u128, ..c });
}

/// A cell that no change names has a sum of changes of zero.
pub proof fn lemma_net_unseen(ds: Seq<Delta>, k: Key, n: int)
    requires
        0 <= n <= ds.len(),
        !seen_before(ds, n, k),
    ensures
        net_change(ds, k, n) == 0,
    decreases n,
{
    if n > 0 {
        assert(!seen_before(ds, n - 1, k)) by {
            if seen_before(ds, n - 1, k) {
                let j = choose|j: int| 0 <= j < n - 1 && ds[j].0 == k;
                assert(0 <= j < n && ds[j].0 == k);
            }
        }
        lemma_net_unseen(ds, k, n - 1);
    }
}

/// Applying the first `n` changes succeeds exactly when every named cell's sum stays
/// in range, and then moves each named cell by its sum and leaves the others.
pub proof fn lemma_apply_deltas(e: Seq<Entry>, ds: Seq<Delta>, n: int)
    requires
        0 <= n <= ds.len(),
    ensures
        apply_deltas(e, ds, n).is_some() <==> forall|j: int| 0 <= j < n ==>
            0 <= #[trigger] cell(e, ds[j].0).confirmed_balance + net_change(ds, ds[j].0, ds.len() as int) <= u128::MAX,
        apply_deltas(e, ds, n).is_some() ==> forall|q: Key| #[trigger] cell(apply_deltas(e, ds, n).unwrap(), q).confirmed_balance
            == cell(e, q).confirmed_balance + if seen_before(ds, n, q) { net_change(ds, q, ds.len() as int) } else { 0 },
    decreases n,
{
    if n > 0 {
        lemma_apply_deltas(e, ds, n - 1);
        let k = ds[n - 1].0;
        let prev = apply_deltas(e, ds, n - 1);
        assert forall|q: Key| seen_before(ds, n, q) == (seen_before(ds, n - 1, q) || q == k) by {
            if seen_before(ds, n, q) && q != k {
                let j = choose|j: int| 0 <= j < n && ds[j].0 == q;
                assert(j < n - 1);
            }
            if q == k {
                assert(ds[n - 1].0 == q);
            }
        }
        if seen_before(ds, n - 1, k) {
            let j0 = choose|j: int| 0 <= j < n - 1 && ds[j].0 == k;
            assert(cell(e, ds[j0].0) == cell(e, k));
        } else if prev.is_some() {
            lemma_adjust(prev.unwrap(), k, net_change(ds, k, ds.len() as int));
        }
    }
}

/// Once a step fails, the whole application fails.
pub proof fn lemma_apply_deltas_stops(e: Seq<Entry>, ds: Seq<Delta>, n: int, m: int)
    requires
        0 <= n <= m,
        apply_deltas(e, ds, n).is_none(),
    ensures
        apply_deltas(e, ds, m).is_none(),
    decreases m,
{
    if m > n {
        lemma_apply_deltas_stops(e, ds, n, m - 1);
    }
}

/// Moves the value of a trade of `amount` base at `price` from `buyer` to `seller`,
/// with the fee to the exchange; on failure the cells are unchanged.
pub fn transfer_trade(e: &mut Vec<Entry>, buyer: &SpotTrade, seller: &SpotTrade, price: Balance, amount: Balance, fee: Balance) -> (r: Result<(), VerificationErrors>)
    ensures
        r.is_ok() ==> transfer(old(e)@, *buyer, *seller, price, amount, fee) == Ok::<Seq<Entry>, VerificationErrors>(final(e)@),
        r.is_err() ==> transfer(old(e)@, *buyer, *seller, price, amount, fee) == Err::<Seq<Entry>, VerificationErrors>(r.unwrap_err()),
        r.is_err() ==> final(e)@ == old(e)@,
        keys_unique(old(e)@) ==> keys_unique(final(e)@),
{
    let gross = match price.checked_mul(amount) {
        Some(g) => g,
        None => return Err(VerificationErrors::OrderParamCheckFailed),
    };
    let tq = gross / UNIT;
    let fee_gross = match tq.checked_mul(fee) {
        Some(g) => g,
        None => return Err(VerificationErrors::OrderParamCheckFailed),
    };
    let fa = fee_gross / UNIT;
    if fa > tq {
        return Err(VerificationErrors::OrderParamCheckFailed);
    }
    let mut ds: Vec<Delta> = Vec::new();
    ds.push(((buyer.trader, buyer.quote_asset), true, tq));
    ds.push(((buyer.trader, buyer.base_asset), false, amount));
    ds.push(((seller.trader, seller.base_asset), true, amount));
    ds.push(((seller.trader, seller.quote_asset), false, tq - fa));
    ds.push(((exchange_account(), seller.quote_asset), false, fa));
    assert(ds@ =~= transfer_deltas(*buyer, *seller, price, amount, fee));
    let ghost e0 = e@;
    let mut w = copy_entries(e);
    let mut i: usize = 0;
    while i < ds.len()
        invariant
            i <= ds@.len() == 5,
            apply_deltas(e0, ds@, i as int) == Some(w@),
            ds@ == transfer_deltas(*buyer, *seller, price, amount, fee),
            transfer_in_range(price as int, amount as int, fee as int),
            e0 == old(e)@,
            keys_unique(e0) ==> keys_unique(w@),
        decreases ds@.len() - i,
    {
        let k = ds[i].0;
        if !seen(&ds, i, &k) {
            let c = get_cell(&w, &k);
            match moved_balance(c.confirmed_balance, &ds, &k) {
                Some(v) => {
                    put_cell(&mut w, k, BalanceState { confirmed_balance: v, ..c });
                },
                None => {
                    proof {
                        lemma_adjust(w@, k, net_change(ds@, k, 5));
                        assert(apply_deltas(e0, ds@, i as int + 1).is_none());
                        lemma_apply_deltas_stops(e0, ds@, i as int + 1, 5);
                    }
                    return Err(VerificationErrors::OrderParamCheckFailed);
                },
            }
        }
        i = i + 1;
    }
    *e = w;
    Ok(())
}

/// Settles `maker` against `taker` with fee fraction `fee` on the cells.
/// On failure the cells are unchanged.
pub fn settle(e: &mut Vec<Entry>, maker: &SpotTrade, taker: &SpotTrade, fee: Balance, max_fee: Balance) -> (r: Result<(), VerificationErrors>)
    ensures
        r.is_ok() ==> settle_spec(old(e)@, *maker, *taker, fee, max_fee) == Ok::<Seq<Entry>, VerificationErrors>(final(e)@),
        r.is_err() ==> settle_spec(old(e)@, *maker, *taker, fee, max_fee) == Err::<Seq<Entry>, VerificationErrors>(r.unwrap_err()),
        r.is_err() ==> final(e)@ == old(e)@,
        keys_unique(old(e)@) ==> keys_unique(final(e)@),
{
    if fee > max_fee {
        return Err(VerificationErrors::InvalidFee);
    }
    match checked_roles(maker, taker) {
        Err(x) => Err(x),
        Ok((maker_buys, price)) => {
            if maker.base_asset != taker.base_asset || maker.quote_asset != taker.quote_asset {
                Err(VerificationErrors::OrderParamCheckFailed)
            } else if maker_buys {
                transfer_trade(e, maker, taker, price, taker.amount, fee)
            } else {
                transfer_trade(e, taker, maker, price, taker.amount, fee)
            }
        },
    }
}

} // verus!
