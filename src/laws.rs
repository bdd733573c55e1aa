//! Properties of the replay, the matching arithmetic and the lifecycle, each proved
//! over the spec functions that the executable contracts use.
use vstd::prelude::*;
use crate::ledger::{cell, credit, debit, lemma_put_cells};
use crate::lifecycle::{finalizes, has_period, oldest, submit_spec, Config};
use crate::matching::{lemma_apply_deltas, lemma_net_unseen, net_change, seen_before, settle_spec, settlement_deltas, trade_roles, EXCHANGE_ACCOUNT};
use crate::replay::{apply_log_spec, log_nonce, replay, verify_spec};
use crate::types::{AccountId, AssetId, Balance, BlockNumber, Commitment, Entry, FraudProof, Key, Log, SpotTrade, VerificationErrors};

verus! {

/// Nonces advance by exactly one per log: in a replay that succeeds, the log at
/// position `i` carries nonce `nonce + i + 1` and the replay ends at
/// `nonce + logs.len()`.
pub proof fn nonce_monotonicity(e: Seq<Entry>, nonce: u128, logs: Seq<Log>, max_fee: u128)
    requires
        replay(e, nonce, logs, max_fee).is_ok(),
    ensures
        replay(e, nonce, logs, max_fee).unwrap().1 == nonce + logs.len(),
        forall|i: int| 0 <= i < logs.len() ==> log_nonce(#[trigger] logs[i]) == nonce + i + 1,
    decreases logs.len(),
{
    if logs.len() > 0 {
        let prefix = logs.drop_last();
        nonce_monotonicity(e, nonce, prefix, max_fee);
        assert forall|i: int| 0 <= i < logs.len() implies log_nonce(#[trigger] logs[i]) == nonce + i + 1 by {
            if i < logs.len() - 1 {
                assert(logs[i] == prefix[i]);
            }
        }
    }
}

/// A log whose nonce does not follow its predecessor's makes the replay, and so the
/// commitment, disputed.
pub proof fn nonce_gap_disputes(e: Seq<Entry>, nonce: u128, c: Commitment, max_fee: u128, i: int)
    requires
        0 <= i < c.logs@.len(),
        log_nonce(c.logs@[i]) != nonce + i + 1,
    ensures
        replay(e, nonce, c.logs@, max_fee).is_err(),
        verify_spec(e, nonce, c, max_fee).is_err(),
{
    if replay(e, nonce, c.logs@, max_fee).is_ok() {
        nonce_monotonicity(e, nonce, c.logs@, max_fee);
    }
}

/// A withdrawal larger than the confirmed balance is a dispute, never a negative or
/// wrapped balance; one that is covered lowers the balance by exactly its amount.
pub proof fn withdrawal_is_covered(e: Seq<Entry>, nonce: u128, account: AccountId, asset: AssetId, amount: Balance, n: u128, max_fee: u128)
    ensures
        amount > cell(e, (account, asset)).confirmed_balance ==>
            apply_log_spec(e, nonce, Log::Withdrawal(account, asset, amount, n), true, max_fee).is_err(),
        apply_log_spec(e, nonce, Log::Withdrawal(account, asset, amount, n), true, max_fee).is_ok() ==>
            cell(apply_log_spec(e, nonce, Log::Withdrawal(account, asset, amount, n), true, max_fee).unwrap().0, (account, asset)).confirmed_balance
                == cell(e, (account, asset)).confirmed_balance - amount,
{
    let k = (account, asset);
    let c = cell(e, k);
    lemma_put_cells(e, k, crate::types::BalanceState { confirmed_balance: (c.confirmed_balance - amount) as u128, ..c });
}

/// Determinism: the verdict on a commitment depends on the ledger and the commitment
/// alone, so equal inputs give equal verdicts and equal resulting ledgers.
pub proof fn determinism(e1: Seq<Entry>, n1: u128, c1: Commitment, e2: Seq<Entry>, n2: u128, c2: Commitment, max_fee: u128)
    requires
        e1 == e2,
        n1 == n2,
        c1 == c2,
    ensures
        verify_spec(e1, n1, c1, max_fee) == verify_spec(e2, n2, c2, max_fee),
{
}

/// Settlement never overdraws: after a settled trade every cell's confirmed balance
/// is its old balance plus the sum of the trade's changes to it, and that sum never
/// takes a balance below zero. A trade that would is refused.
pub proof fn settlement_never_overdraws(e: Seq<Entry>, maker: SpotTrade, taker: SpotTrade, fee: u128, max_fee: u128, q: Key)
    requires
        settle_spec(e, maker, taker, fee, max_fee).is_ok(),
    ensures
        cell(settle_spec(e, maker, taker, fee, max_fee).unwrap(), q).confirmed_balance
            == cell(e, q).confirmed_balance + net_change(settlement_deltas(maker, taker, fee), q, 5),
        cell(e, q).confirmed_balance + net_change(settlement_deltas(maker, taker, fee), q, 5) >= 0,
{
    let ds = settlement_deltas(maker, taker, fee);
    lemma_apply_deltas(e, ds, 5);
    if !seen_before(ds, 5, q) {
        lemma_net_unseen(ds, q, 5);
    } else {
        let j = choose|j: int| 0 <= j < 5 && ds[j].0 == q;
        assert(ds[j].0 == q);
    }
}

/// The five cells of a trade between `buyer` and `seller` are pairwise distinct.
pub open spec fn distinct_trade_cells(buyer: SpotTrade, seller: SpotTrade) -> bool {
    let k1 = (buyer.trader, buyer.quote_asset);
    let k2 = (buyer.trader, buyer.base_asset);
    let k3 = (seller.trader, seller.base_asset);
    let k4 = (seller.trader, seller.quote_asset);
    let k5 = (EXCHANGE_ACCOUNT, seller.quote_asset);
    &&& k1 != k2 && k1 != k3 && k1 != k4 && k1 != k5
    &&& k2 != k3 && k2 != k4 && k2 != k5
    &&& k3 != k4 && k3 != k5
    &&& k4 != k5
}

/// Conservation: in a settled trade whose cells are distinct, what the buyer loses
/// in quote equals what the seller gains in quote plus the exchange's fee, and what
/// the seller loses in base the buyer gains. The maker is the buyer when it bids.
pub proof fn conservation(e: Seq<Entry>, maker: SpotTrade, taker: SpotTrade, fee: u128, max_fee: u128)
    requires
        settle_spec(e, maker, taker, fee, max_fee).is_ok(),
        ({
            let maker_buys = trade_roles(maker, taker).unwrap().0;
            if maker_buys { distinct_trade_cells(maker, taker) } else { distinct_trade_cells(taker, maker) }
        }),
    ensures
        ({
            let e2 = settle_spec(e, maker, taker, fee, max_fee).unwrap();
            let maker_buys = trade_roles(maker, taker).unwrap().0;
            let buyer = if maker_buys { maker } else { taker };
            let seller = if maker_buys { taker } else { maker };
            let fee_cell = (EXCHANGE_ACCOUNT, seller.quote_asset);
            let buyer_quote_loss = cell(e, (buyer.trader, buyer.quote_asset)).confirmed_balance - cell(e2, (buyer.trader, buyer.quote_asset)).confirmed_balance;
            let seller_quote_gain = cell(e2, (seller.trader, seller.quote_asset)).confirmed_balance - cell(e, (seller.trader, seller.quote_asset)).confirmed_balance;
            let fee_gain = cell(e2, fee_cell).confirmed_balance - cell(e, fee_cell).confirmed_balance;
            let seller_base_loss = cell(e, (seller.trader, seller.base_asset)).confirmed_balance - cell(e2, (seller.trader, seller.base_asset)).confirmed_balance;
            let buyer_base_gain = cell(e2, (buyer.trader, buyer.base_asset)).confirmed_balance - cell(e, (buyer.trader, buyer.base_asset)).confirmed_balance;
            &&& buyer_quote_loss == seller_quote_gain + fee_gain
            &&& seller_base_loss == buyer_base_gain
        }),
{
    let ds = settlement_deltas(maker, taker, fee);
    reveal_with_fuel(net_change, 6);
    settlement_never_overdraws(e, maker, taker, fee, max_fee, ds[0].0);
    settlement_never_overdraws(e, maker, taker, fee, max_fee, ds[1].0);
    settlement_never_overdraws(e, maker, taker, fee, max_fee, ds[2].0);
    settlement_never_overdraws(e, maker, taker, fee, max_fee, ds[3].0);
    settlement_never_overdraws(e, maker, taker, fee, max_fee, ds[4].0);
}

/// At most one commitment per period: once a period has a commitment, offering
/// another for it leaves the stored commitments as they were.
pub proof fn at_most_one_commitment(cs: Seq<(BlockNumber, Commitment)>, now: BlockNumber, first: Commitment, second: Commitment)
    ensures
        submit_spec(submit_spec(cs, now, first), now, second) == submit_spec(cs, now, first),
{
    let s1 = submit_spec(cs, now, first);
    if !has_period(cs, now) {
        assert(s1[cs.len() as int].0 == now);
    }
}

/// Dispute precedence: a period with a recorded fraud proof is never finalized, at
/// any period advance and whatever the ledger; the hook finalizes only the oldest
/// pending commitment, and only where its period has no fraud proof.
pub proof fn dispute_precedence(cs: Seq<(BlockNumber, Commitment)>, fps: Seq<(BlockNumber, FraudProof)>, e: Seq<Entry>, nonce: u128, config: Config, now: BlockNumber, period: BlockNumber)
    requires
        has_period(fps, period),
        finalizes(cs, fps, e, nonce, config, now),
    ensures
        cs[oldest(cs)].0 != period,
{
}

} // verus!
