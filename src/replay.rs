//! Replay of a commitment's logs on the ledger and the check of its claimed final state.
use vstd::prelude::*;
use crate::crypto::{signature_valid, verify_signatures};
use crate::lifecycle::Module;
use crate::ledger::{cell, keys_unique, credit, credit_cell, debit, debit_cell, get_cell, key_eq};
use crate::matching::{checked_roles, settle, settle_spec, settlement_keys, EXCHANGE_ACCOUNT};
use crate::types::{Balance, Commitment, Entry, Key, Log, SpotTrade, State, VerificationErrors};

verus! {

/// The nonce that a log carries.
pub open spec fn log_nonce(l: Log) -> u128 {
    match l {
        Log::SpotSettlement(_, _, _, n) => n,
        Log::Withdrawal(_, _, _, n) => n,
        Log::Deposit(_, _, _, n) => n,
    }
}

/// Whether the signatures that a log carries are valid (a transfer carries none).
pub open spec fn log_signatures_ok(l: Log) -> bool {
    match l {
        Log::SpotSettlement(maker, taker, _, _) => signature_valid(maker) && signature_valid(taker),
        _ => true,
    }
}

/// The cells that a log touches.
pub open spec fn log_keys(l: Log) -> Seq<Key> {
    match l {
        Log::SpotSettlement(maker, taker, _, _) => settlement_keys(maker, taker),
        Log::Withdrawal(account, asset, _, _) => seq![(account, asset)],
        Log::Deposit(account, asset, _, _) => seq![(account, asset)],
    }
}

/// One log applied to cells `e` at global nonce `nonce`, given the verdict on its
/// signatures: the new cells and nonce, or the dispute it raises.
pub open spec fn apply_log_spec(e: Seq<Entry>, nonce: u128, l: Log, signatures_ok: bool, max_fee: u128) -> Result<(Seq<Entry>, u128), VerificationErrors> {
    match l {
        Log::SpotSettlement(maker, taker, fee, n) => {
            if !(signatures_ok && n == nonce + 1) {
                Err(VerificationErrors::OrderSignatureFailure)
            } else {
                match settle_spec(e, maker, taker, fee, max_fee) {
                    Ok(e2) => Ok((e2, n)),
                    Err(x) => Err(x),
                }
            }
        },
        Log::Deposit(account, asset, amount, n) => {
            if n != nonce + 1 {
                Err(VerificationErrors::NonceAlreadyUsed)
            } else {
                match credit(e, (account, asset), amount as int) {
                    Some(e2) => Ok((e2, n)),
                    None => Err(VerificationErrors::BalanceOutOfRange),
                }
            }
        },
        Log::Withdrawal(account, asset, amount, n) => {
            if n != nonce + 1 {
                Err(VerificationErrors::NonceAlreadyUsed)
            } else {
                match debit(e, (account, asset), amount as int) {
                    Some(e2) => Ok((e2, n)),
                    None => Err(VerificationErrors::BalanceOutOfRange),
                }
            }
        },
    }
}

/// The logs replayed in order on cells `e` at nonce `nonce`: the resulting cells,
/// nonce and touched cells, or the first dispute.
pub open spec fn replay(e: Seq<Entry>, nonce: u128, logs: Seq<Log>, max_fee: u128) -> Result<(Seq<Entry>, u128, Seq<Key>), VerificationErrors>
    decreases logs.len(),
{
    if logs.len() == 0 {
        Ok((e, nonce, Seq::empty()))
    } else {
        match replay(e, nonce, logs.drop_last(), max_fee) {
            Err(x) => Err(x),
            Ok((e2, n2, ks)) => match apply_log_spec(e2, n2, logs.last(), log_signatures_ok(logs.last()), max_fee) {
                Err(x) => Err(x),
                Ok((e3, n3)) => Ok((e3, n3, ks + log_keys(logs.last()))),
            },
        }
    }
}

/// Whether some entry of `f` has key `k`.
pub open spec fn listed(f: Seq<Entry>, k: Key) -> bool {
    exists|i: int| 0 <= i < f.len() && f[i].0 == k
}

/// Whether the claimed entries `f` list exactly the touched cells `keys`, once each,
/// with the values that the cells `e` hold.
pub open spec fn final_state_matches(e: Seq<Entry>, keys: Seq<Key>, f: Seq<Entry>) -> bool {
    &&& forall|i: int| #![trigger f[i]] 0 <= i < f.len() ==> keys.contains(f[i].0) && f[i].1 == cell(e, f[i].0)
    &&& forall|j: int| 0 <= j < keys.len() ==> #[trigger] listed(f, keys[j])
    &&& forall|i: int, i2: int| 0 <= i < i2 < f.len() ==> #[trigger] f[i].0 != #[trigger] f[i2].0
}

/// The verdict on a commitment over cells `e` at nonce `nonce`: the replayed cells
/// and nonce, or the dispute.
pub open spec fn verify_spec(e: Seq<Entry>, nonce: u128, c: Commitment, max_fee: u128) -> Result<(Seq<Entry>, u128), VerificationErrors> {
    match replay(e, nonce, c.logs@, max_fee) {
        Err(x) => Err(x),
        Ok((e2, n2, ks)) => if final_state_matches(e2, ks, c.final_state@) && c.nonce == n2 {
            Ok((e2, n2))
        } else {
            Err(VerificationErrors::InvalidFinalState)
        },
    }
}

/// Whether two trades carry the same fields and signature bytes.
pub open spec fn same_trade(a: SpotTrade, b: SpotTrade) -> bool {
    &&& a.trader == b.trader
    &&& a.price == b.price
    &&& a.amount == b.amount
    &&& a.order_type == b.order_type
    &&& a.base_asset == b.base_asset
    &&& a.quote_asset == b.quote_asset
    &&& a.nonce == b.nonce
    &&& a.signature@ == b.signature@
}

/// Whether two logs record the same transition.
pub open spec fn same_log(a: Log, b: Log) -> bool {
    match (a, b) {
        (Log::SpotSettlement(m1, t1, f1, n1), Log::SpotSettlement(m2, t2, f2, n2)) =>
            same_trade(m1, m2) && same_trade(t1, t2) && f1 == f2 && n1 == n2,
        (Log::Withdrawal(a1, s1, v1, n1), Log::Withdrawal(a2, s2, v2, n2)) => a1 == a2 && s1 == s2 && v1 == v2 && n1 == n2,
        (Log::Deposit(a1, s1, v1, n1), Log::Deposit(a2, s2, v2, n2)) => a1 == a2 && s1 == s2 && v1 == v2 && n1 == n2,
        _ => false,
    }
}

/// Whether two sequences of logs record the same transitions in the same order.
pub open spec fn same_logs(a: Seq<Log>, b: Seq<Log>) -> bool {
    a.len() == b.len() && forall|i: int| 0 <= i < a.len() ==> #[trigger] same_log(a[i], b[i])
}

fn copy_trade(t: &SpotTrade) -> (r: SpotTrade)
    ensures
        same_trade(r, *t),
{
    let mut signature: Vec<u8> = Vec::new();
    let mut i: usize = 0;
    while i < t.signature.len()
        invariant
            i <= t.signature@.len(),
            signature@ == t.signature@.subrange(0, i as int),
        decreases t.signature@.len() - i,
    {
        signature.push(t.signature[i]);
        i = i + 1;
    }
    assert(signature@ =~= t.signature@);
    SpotTrade {
        trader: t.trader,
        price: t.price,
        amount: t.amount,
        order_type: t.order_type,
        base_asset: t.base_asset,
        quote_asset: t.quote_asset,
        nonce: t.nonce,
        signature,
    }
}

fn copy_log(l: &Log) -> (r: Log)
    ensures
        same_log(r, *l),
{
    match l {
        Log::SpotSettlement(m, t, f, n) => Log::SpotSettlement(copy_trade(m), copy_trade(t), *f, *n),
        Log::Withdrawal(a, s, v, n) => Log::Withdrawal(*a, *s, *v, *n),
        Log::Deposit(a, s, v, n) => Log::Deposit(*a, *s, *v, *n),
    }
}

/// A copy of the logs.
pub fn copy_logs(logs: &Vec<Log>) -> (r: Vec<Log>)
    ensures
        same_logs(r@, logs@),
{
    let mut r: Vec<Log> = Vec::new();
    let mut i: usize = 0;
    while i < logs.len()
        invariant
            i <= logs@.len(),
            r@.len() == i,
            forall|j: int| 0 <= j < i ==> #[trigger] same_log(r@[j], logs@[j]),
        decreases logs@.len() - i,
    {
        r.push(copy_log(&logs[i]));
        i = i + 1;
    }
    r
}

/// A dispute in a prefix of the logs is the dispute of the whole replay.
pub proof fn lemma_replay_stops(e: Seq<Entry>, nonce: u128, logs: Seq<Log>, i: int, max_fee: u128)
    requires
        0 <= i <= logs.len(),
        replay(e, nonce, logs.subrange(0, i), max_fee).is_err(),
    ensures
        replay(e, nonce, logs, max_fee) == replay(e, nonce, logs.subrange(0, i), max_fee),
    decreases logs.len(),
{
    if i == logs.len() {
        assert(logs.subrange(0, i) =~= logs);
    } else {
        assert(logs.drop_last().subrange(0, i) =~= logs.subrange(0, i));
        lemma_replay_stops(e, nonce, logs.drop_last(), i, max_fee);
    }
}

/// Applies one log to the ledger, given the verdict on its signatures.
/// On a dispute the ledger is unchanged.
pub fn apply_log(state: &mut State, log: &Log, signatures_ok: bool, max_fee: Balance) -> (r: Result<(), VerificationErrors>)
    ensures
        r.is_ok() ==> apply_log_spec(old(state).balances@, old(state).nonce, *log, signatures_ok, max_fee)
            == Ok::<(Seq<Entry>, u128), VerificationErrors>((final(state).balances@, final(state).nonce)),
        r.is_err() ==> apply_log_spec(old(state).balances@, old(state).nonce, *log, signatures_ok, max_fee)
            == Err::<(Seq<Entry>, u128), VerificationErrors>(r.unwrap_err()),
        r.is_err() ==> final(state).balances@ == old(state).balances@ && final(state).nonce == old(state).nonce,
        final(state).nonces@ == old(state).nonces@,
        keys_unique(old(state).balances@) ==> keys_unique(final(state).balances@),
{
    match log {
        Log::SpotSettlement(maker, taker, fee, n) => {
            if !(signatures_ok && Module::verify_nonce(*n, state.nonce)) {
                return Err(VerificationErrors::OrderSignatureFailure);
            }
            match settle(&mut state.balances, maker, taker, *fee, max_fee) {
                Ok(()) => {
                    state.nonce = *n;
                    Ok(())
                },
                Err(x) => Err(x),
            }
        },
        Log::Deposit(account, asset, amount, n) => {
            if !Module::verify_nonce(*n, state.nonce) {
                return Err(VerificationErrors::NonceAlreadyUsed);
            }
            if credit_cell(&mut state.balances, (*account, *asset), *amount) {
                state.nonce = *n;
                Ok(())
            } else {
                Err(VerificationErrors::BalanceOutOfRange)
            }
        },
        Log::Withdrawal(account, asset, amount, n) => {
            if !Module::verify_nonce(*n, state.nonce) {
                return Err(VerificationErrors::NonceAlreadyUsed);
            }
            if debit_cell(&mut state.balances, (*account, *asset), *amount) {
                state.nonce = *n;
                Ok(())
            } else {
                Err(VerificationErrors::BalanceOutOfRange)
            }
        },
    }
}

fn push_log_keys(keys: &mut Vec<Key>, log: &Log)
    ensures
        final(keys)@ == old(keys)@ + log_keys(*log),
{
    match log {
        Log::SpotSettlement(maker, taker, _, _) => {
            match checked_roles(maker, taker) {
                Err(_) => {
                    assert(log_keys(*log) =~= Seq::<Key>::empty());
                },
                Ok((maker_buys, _)) => {
                    let buyer: &SpotTrade = if maker_buys { maker } else { taker };
                    let seller: &SpotTrade = if maker_buys { taker } else { maker };
                    keys.push((buyer.trader, buyer.quote_asset));
                    keys.push((buyer.trader, buyer.base_asset));
                    keys.push((seller.trader, seller.base_asset));
                    keys.push((seller.trader, seller.quote_asset));
                    keys.push((EXCHANGE_ACCOUNT, seller.quote_asset));
                    assert(keys@ =~= old(keys)@ + log_keys(*log));
                },
            }
        },
        Log::Withdrawal(account, asset, _, _) => {
            keys.push((*account, *asset));
            assert(keys@ =~= old(keys)@ + log_keys(*log));
        },
        Log::Deposit(account, asset, _, _) => {
            keys.push((*account, *asset));
            assert(keys@ =~= old(keys)@ + log_keys(*log));
        },
    }
}

fn contains_key(keys: &Vec<Key>, k: &Key) -> (r: bool)
    ensures
        r == keys@.contains(*k),
{
    let mut j: usize = 0;
    while j < keys.len()
        invariant
            j <= keys@.len(),
            forall|m: int| 0 <= m < j ==> keys@[m] != *k,
        decreases keys@.len() - j,
    {
        if key_eq(&keys[j], k) {
            return true;
        }
        j = j + 1;
    }
    false
}

fn lists_key(f: &Vec<Entry>, k: &Key) -> (r: bool)
    ensures
        r == listed(f@, *k),
{
    let mut i: usize = 0;
    while i < f.len()
        invariant
            i <= f@.len(),
            forall|m: int| 0 <= m < i ==> f@[m].0 != *k,
        decreases f@.len() - i,
    {
        if key_eq(&f[i].0, k) {
            return true;
        }
        i = i + 1;
    }
    false
}

fn listed_before(f: &Vec<Entry>, i: usize, k: &Key) -> (r: bool)
    requires
        i <= f@.len(),
    ensures
        r == exists|p: int| 0 <= p < i && f@[p].0 == *k,
{
    let mut p: usize = 0;
    while p < i
        invariant
            p <= i <= f@.len(),
            forall|m: int| 0 <= m < p ==> f@[m].0 != *k,
        decreases i - p,
    {
        if key_eq(&f[p].0, k) {
            return true;
        }
        p = p + 1;
    }
    false
}

/// Whether the claimed entries `given_state` list exactly the touched cells `touched`,
/// once each, with the values that `computed_state` holds.
pub fn verify_state(computed_state: &Vec<Entry>, touched: &Vec<Key>, given_state: &Vec<Entry>) -> (r: bool)
    ensures
        r == final_state_matches(computed_state@, touched@, given_state@),
{
    let ghost e = computed_state@;
    let ghost keys = touched@;
    let ghost f = given_state@;
    let mut i: usize = 0;
    while i < given_state.len()
        invariant
            i <= f.len(),
            f == given_state@,
            keys == touched@,
            e == computed_state@,
            forall|m: int| #![trigger f[m]] 0 <= m < i ==> keys.contains(f[m].0) && f[m].1 == cell(e, f[m].0),
            forall|m: int, m2: int| 0 <= m < m2 < i ==> #[trigger] f[m].0 != #[trigger] f[m2].0,
        decreases f.len() - i,
    {
        let k = given_state[i].0;
        if !contains_key(touched, &k) {
            return false;
        }
        if get_cell(computed_state, &k) != given_state[i].1 {
            return false;
        }
        if listed_before(given_state, i, &k) {
            return false;
        }
        i = i + 1;
    }
    let mut j: usize = 0;
    while j < touched.len()
        invariant
            j <= keys.len(),
            keys == touched@,
            f == given_state@,
            e == computed_state@,
            forall|m: int| #![trigger f[m]] 0 <= m < f.len() ==> keys.contains(f[m].0) && f[m].1 == cell(e, f[m].0),
            forall|m: int, m2: int| 0 <= m < m2 < f.len() ==> #[trigger] f[m].0 != #[trigger] f[m2].0,
            forall|m: int| 0 <= m < j ==> #[trigger] listed(f, keys[m]),
        decreases keys.len() - j,
    {
        if !lists_key(given_state, &touched[j]) {
            return false;
        }
        j = j + 1;
    }
    true
}

/// Replays `logs` in order on a copy of the ledger: the resulting ledger and the
/// cells the logs touched, or the first dispute.
pub fn replay_logs(prior_state: &State, logs: &Vec<Log>, max_fee: Balance) -> (r: Result<(State, Vec<Key>), VerificationErrors>)
    ensures
        r.is_ok() ==> replay(prior_state.balances@, prior_state.nonce, logs@, max_fee)
            == Ok::<(Seq<Entry>, u128, Seq<Key>), VerificationErrors>((r.unwrap().0.balances@, r.unwrap().0.nonce, r.unwrap().1@)),
        r.is_ok() ==> r.unwrap().0.nonces@ == prior_state.nonces@,
        r.is_ok() && keys_unique(prior_state.balances@) ==> keys_unique(r.unwrap().0.balances@),
        r.is_err() ==> replay(prior_state.balances@, prior_state.nonce, logs@, max_fee)
            == Err::<(Seq<Entry>, u128, Seq<Key>), VerificationErrors>(r.unwrap_err()),
{
    let mut working = prior_state.copy();
    let mut touched: Vec<Key> = Vec::new();
    let ghost e0 = prior_state.balances@;
    let ghost n0 = prior_state.nonce;
    let ghost ls = logs@;
    let mut i: usize = 0;
    while i < logs.len()
        invariant
            i <= ls.len(),
            ls == logs@,
            e0 == prior_state.balances@,
            n0 == prior_state.nonce,
            working.nonces@ == prior_state.nonces@,
            keys_unique(e0) ==> keys_unique(working.balances@),
            replay(e0, n0, ls.subrange(0, i as int), max_fee)
                == Ok::<(Seq<Entry>, u128, Seq<Key>), VerificationErrors>((working.balances@, working.nonce, touched@)),
        decreases ls.len() - i,
    {
        let log = &logs[i];
        let signatures_ok = match log {
            Log::SpotSettlement(maker, taker, _, _) => verify_signatures(maker, taker),
            _ => true,
        };
        proof {
            assert(ls.subrange(0, i as int + 1).drop_last() =~= ls.subrange(0, i as int));
            assert(ls.subrange(0, i as int + 1).last() == ls[i as int]);
        }
        match apply_log(&mut working, log, signatures_ok, max_fee) {
            Err(x) => {
                proof {
                    assert(replay(e0, n0, ls.subrange(0, i as int + 1), max_fee)
                        == Err::<(Seq<Entry>, u128, Seq<Key>), VerificationErrors>(x));
                    lemma_replay_stops(e0, n0, ls, i as int + 1, max_fee);
                }
                return Err(x);
            },
            Ok(()) => {},
        }
        push_log_keys(&mut touched, log);
        i = i + 1;
    }
    assert(ls.subrange(0, ls.len() as int) =~= ls);
    Ok((working, touched))
}

/// The entries an honest commitment would claim: each touched cell once, in the
/// order first touched, with its value in `computed_state`.
pub fn corrected_final_state(computed_state: &Vec<Entry>, touched: &Vec<Key>) -> (r: Vec<Entry>)
    ensures
        final_state_matches(computed_state@, touched@, r@),
{
    let ghost e = computed_state@;
    let ghost keys = touched@;
    let mut r: Vec<Entry> = Vec::new();
    let mut j: usize = 0;
    while j < touched.len()
        invariant
            j <= keys.len(),
            keys == touched@,
            e == computed_state@,
            forall|m: int| #![trigger r@[m]] 0 <= m < r@.len() ==> keys.contains(r@[m].0) && r@[m].1 == cell(e, r@[m].0),
            forall|m: int| 0 <= m < j ==> #[trigger] listed(r@, keys[m]),
            forall|m: int, m2: int| 0 <= m < m2 < r@.len() ==> #[trigger] r@[m].0 != #[trigger] r@[m2].0,
        decreases keys.len() - j,
    {
        let k = touched[j];
        if !lists_key(&r, &k) {
            let ghost r0 = r@;
            r.push((k, get_cell(computed_state, &k)));
            proof {
                assert(keys[j as int] == k);
                assert forall|m: int| 0 <= m < j + 1 implies #[trigger] listed(r@, keys[m]) by {
                    if m < j {
                        assert(listed(r0, keys[m]));
                        let p = choose|p: int| 0 <= p < r0.len() && r0[p].0 == keys[m];
                        assert(r@[p] == r0[p]);
                    } else {
                        assert(r@[r0.len() as int].0 == keys[m]);
                    }
                }
                assert forall|m: int, m2: int| 0 <= m < m2 < r@.len() implies #[trigger] r@[m].0 != #[trigger] r@[m2].0 by {
                    if m2 == r0.len() {
                        assert(r@[m] == r0[m]);
                    } else {
                        assert(r@[m] == r0[m]);
                        assert(r@[m2] == r0[m2]);
                    }
                }
            }
        }
        j = j + 1;
    }
    r
}

/// Replays the commitment's logs on a copy of the ledger and checks the claimed
/// final state and nonce; the replayed ledger, or the dispute.
pub fn verify_commitment(prior_state: &State, commitment: &Commitment, max_fee: Balance) -> (r: Result<State, VerificationErrors>)
    ensures
        r.is_ok() ==> verify_spec(prior_state.balances@, prior_state.nonce, *commitment, max_fee)
            == Ok::<(Seq<Entry>, u128), VerificationErrors>((r.unwrap().balances@, r.unwrap().nonce)),
        r.is_ok() ==> r.unwrap().nonces@ == prior_state.nonces@,
        r.is_err() ==> verify_spec(prior_state.balances@, prior_state.nonce, *commitment, max_fee)
            == Err::<(Seq<Entry>, u128), VerificationErrors>(r.unwrap_err()),
{
    let (working, touched) = match replay_logs(prior_state, &commitment.logs, max_fee) {
        Ok(x) => x,
        Err(x) => return Err(x),
    };
    if verify_state(&working.balances, &touched, &commitment.final_state) && commitment.nonce == working.nonce {
        Ok(working)
    } else {
        Err(VerificationErrors::InvalidFinalState)
    }
}

} // verus!
