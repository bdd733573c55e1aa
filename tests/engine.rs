use pallet_engine::crypto::{message_bytes, trade_hash, verify_signatures};
use pallet_engine::lifecycle::{Config, Module};
use pallet_engine::matching::settle;
use pallet_engine::replay::{apply_log, corrected_final_state, replay_logs, verify_commitment, verify_state};
use pallet_engine::types::{
    AccountData, AccountId, BalanceState, Commitment, Entry, Error, FraudProof, Log, OrderType, SpotTrade, State,
    TradeStatus, VerificationErrors, UNIT,
};
use sp_core::Pair;

const USD: u128 = 1;
const BTC: u128 = 2;

fn pair(seed: u8) -> sp_core::sr25519::Pair {
    sp_core::sr25519::Pair::from_seed(&[seed; 32])
}

fn account(seed: u8) -> AccountId {
    pair(seed).public().0
}

fn trade(seed: u8, order_type: OrderType, price: u128, amount: u128, nonce: u128) -> SpotTrade {
    let mut t = SpotTrade {
        trader: account(seed),
        price,
        amount,
        order_type,
        base_asset: BTC,
        quote_asset: USD,
        nonce,
        signature: Vec::new(),
    };
    let digest = trade_hash(&t);
    t.signature = pair(seed).sign(&digest).0.to_vec();
    t
}

fn bal(confirmed: u128) -> BalanceState {
    BalanceState { unconfirmed_balance: 0, confirmed_balance: confirmed }
}

fn confirmed(e: &Vec<Entry>, who: AccountId, asset: u128) -> u128 {
    let s = State { balances: e.clone(), nonce: 0, nonces: Vec::new() };
    s.get(&who, asset).confirmed_balance
}

fn exchange() -> AccountId {
    Module::get_exchange_account()
}

fn funded() -> Vec<Entry> {
    vec![((account(1), USD), bal(1000 * UNIT)), ((account(2), BTC), bal(10 * UNIT))]
}

#[test]
fn bid_limit_against_ask_limit_moves_exact_amounts() {
    let maker = trade(1, OrderType::BidLimit, 100 * UNIT, 5 * UNIT, 1);
    let taker = trade(2, OrderType::AskLimit, 90 * UNIT, 5 * UNIT, 1);
    let mut e = funded();
    assert_eq!(settle(&mut e, &maker, &taker, UNIT / 100, UNIT / 10), Ok(()));
    assert_eq!(confirmed(&e, account(1), USD), 550 * UNIT);
    assert_eq!(confirmed(&e, account(1), BTC), 5 * UNIT);
    assert_eq!(confirmed(&e, account(2), BTC), 5 * UNIT);
    assert_eq!(confirmed(&e, account(2), USD), 445 * UNIT + UNIT / 2);
    assert_eq!(confirmed(&e, exchange(), USD), 4 * UNIT + UNIT / 2);
}

#[test]
fn taker_amount_above_maker_amount_fails_without_change() {
    let maker = trade(1, OrderType::BidLimit, 100 * UNIT, 5 * UNIT, 1);
    let taker = trade(2, OrderType::AskLimit, 90 * UNIT, 6 * UNIT, 1);
    let mut e = funded();
    assert_eq!(settle(&mut e, &maker, &taker, UNIT / 100, UNIT / 10), Err(VerificationErrors::OrderParamCheckFailed));
    assert_eq!(e, funded());
}

#[test]
fn ask_price_above_bid_fails() {
    let maker = trade(1, OrderType::BidLimit, 80 * UNIT, 5 * UNIT, 1);
    let taker = trade(2, OrderType::AskLimit, 90 * UNIT, 5 * UNIT, 1);
    let mut e = funded();
    assert_eq!(settle(&mut e, &maker, &taker, 0, 0), Err(VerificationErrors::OrderParamCheckFailed));
}

#[test]
fn ask_limit_maker_sells_at_maker_price() {
    let maker = trade(2, OrderType::AskLimit, 90 * UNIT, 5 * UNIT, 1);
    let taker = trade(1, OrderType::BidLimit, 100 * UNIT, 2 * UNIT, 1);
    let mut e = funded();
    assert_eq!(settle(&mut e, &maker, &taker, UNIT / 100, UNIT / 10), Ok(()));
    assert_eq!(confirmed(&e, account(1), USD), 820 * UNIT);
    assert_eq!(confirmed(&e, account(1), BTC), 2 * UNIT);
    assert_eq!(confirmed(&e, account(2), BTC), 8 * UNIT);
    assert_eq!(confirmed(&e, account(2), USD), 178 * UNIT + UNIT / 5);
    assert_eq!(confirmed(&e, exchange(), USD), UNIT + UNIT * 8 / 10);
}

#[test]
fn market_taker_trades_at_maker_price() {
    let maker = trade(1, OrderType::BidLimit, 100 * UNIT, 5 * UNIT, 1);
    let taker = trade(2, OrderType::AskMarket, 1, 3 * UNIT, 1);
    let mut e = funded();
    assert_eq!(settle(&mut e, &maker, &taker, 0, 0), Ok(()));
    assert_eq!(confirmed(&e, account(1), USD), 700 * UNIT);
    assert_eq!(confirmed(&e, account(2), USD), 300 * UNIT);
    assert_eq!(confirmed(&e, exchange(), USD), 0);
}

#[test]
fn market_taker_amount_above_maker_fails() {
    let maker = trade(2, OrderType::AskLimit, 100 * UNIT, 5 * UNIT, 1);
    let taker = trade(1, OrderType::BidMarket, 0, 6 * UNIT, 1);
    let mut e = funded();
    assert_eq!(settle(&mut e, &maker, &taker, 0, 0), Err(VerificationErrors::OrderAmountFailure));
}

#[test]
fn two_bids_are_no_combination() {
    let maker = trade(1, OrderType::BidLimit, 100 * UNIT, 5 * UNIT, 1);
    let taker = trade(2, OrderType::BidMarket, 100 * UNIT, 5 * UNIT, 1);
    let mut e = funded();
    assert_eq!(settle(&mut e, &maker, &taker, 0, 0), Err(VerificationErrors::InvalidOrderCombination));
}

#[test]
fn fee_above_maximum_fails() {
    let maker = trade(1, OrderType::BidLimit, 100 * UNIT, 5 * UNIT, 1);
    let taker = trade(2, OrderType::AskLimit, 90 * UNIT, 5 * UNIT, 1);
    let mut e = funded();
    assert_eq!(settle(&mut e, &maker, &taker, UNIT / 5, UNIT / 10), Err(VerificationErrors::InvalidFee));
    assert_eq!(e, funded());
}

#[test]
fn buyer_short_of_quote_fails() {
    let maker = trade(1, OrderType::BidLimit, 300 * UNIT, 5 * UNIT, 1);
    let taker = trade(2, OrderType::AskLimit, 300 * UNIT, 5 * UNIT, 1);
    let mut e = funded();
    assert_eq!(settle(&mut e, &maker, &taker, 0, 0), Err(VerificationErrors::OrderParamCheckFailed));
    assert_eq!(e, funded());
}

#[test]
fn conservation_of_a_trade() {
    let maker = trade(1, OrderType::BidLimit, 37 * UNIT, 3 * UNIT, 1);
    let taker = trade(2, OrderType::AskLimit, 33 * UNIT, 3 * UNIT, 1);
    let before = funded();
    let mut e = funded();
    assert_eq!(settle(&mut e, &maker, &taker, UNIT / 300, UNIT / 10), Ok(()));
    let maker_quote_loss = confirmed(&before, account(1), USD) - confirmed(&e, account(1), USD);
    let taker_quote_gain = confirmed(&e, account(2), USD) - confirmed(&before, account(2), USD);
    let fee = confirmed(&e, exchange(), USD);
    assert_eq!(maker_quote_loss, taker_quote_gain + fee);
    let taker_base_loss = confirmed(&before, account(2), BTC) - confirmed(&e, account(2), BTC);
    let maker_base_gain = confirmed(&e, account(1), BTC) - confirmed(&before, account(1), BTC);
    assert_eq!(taker_base_loss, maker_base_gain);
}

#[test]
fn signatures_are_checked() {
    let maker = trade(1, OrderType::BidLimit, 100 * UNIT, 5 * UNIT, 1);
    let taker = trade(2, OrderType::AskLimit, 90 * UNIT, 5 * UNIT, 1);
    assert!(verify_signatures(&maker, &taker));
    let mut forged = taker.clone();
    forged.amount = 4 * UNIT;
    assert!(!verify_signatures(&maker, &forged));
    let mut short = maker.clone();
    short.signature.truncate(10);
    assert!(!verify_signatures(&short, &taker));
}

#[test]
fn message_layout() {
    let t = SpotTrade {
        trader: [0; 32],
        price: 1,
        amount: 258,
        order_type: OrderType::AskLimit,
        base_asset: 3,
        quote_asset: 4,
        nonce: 5,
        signature: Vec::new(),
    };
    let m = message_bytes(&t);
    assert_eq!(m.len(), 81);
    assert_eq!(m[0], 1);
    assert_eq!(&m[16..18], &[2, 1]);
    assert_eq!(m[32], 1);
    assert_eq!(m[33], 3);
    assert_eq!(m[49], 4);
    assert_eq!(m[65], 5);
    let h = trade_hash(&t);
    assert_ne!(&h[..], &m[..32]);
    let mut u = t.clone();
    u.nonce = 6;
    assert_ne!(trade_hash(&u), h);
}

#[test]
fn exchange_account_is_tagged() {
    let a = Module::get_exchange_account();
    assert_eq!(&a[..12], b"modlexchange");
    assert!(a[12..].iter().all(|b| *b == 0));
}

#[test]
fn nonce_follows() {
    assert!(Module::verify_nonce(1, 0));
    assert!(!Module::verify_nonce(2, 0));
    assert!(!Module::verify_nonce(0, 0));
    assert!(Module::verify_nonce(u128::MAX, u128::MAX - 1));
}

fn good_commitment() -> Commitment {
    let maker = trade(1, OrderType::BidLimit, 100 * UNIT, 5 * UNIT, 1);
    let taker = trade(2, OrderType::AskLimit, 90 * UNIT, 5 * UNIT, 1);
    Commitment {
        logs: vec![
            Log::Deposit(account(1), USD, 1000 * UNIT, 1),
            Log::Deposit(account(2), BTC, 10 * UNIT, 2),
            Log::SpotSettlement(maker, taker, UNIT / 100, 3),
        ],
        final_state: vec![
            ((account(1), USD), bal(550 * UNIT)),
            ((account(2), BTC), bal(5 * UNIT)),
            ((account(1), BTC), bal(5 * UNIT)),
            ((account(2), USD), bal(445 * UNIT + UNIT / 2)),
            ((exchange(), USD), bal(4 * UNIT + UNIT / 2)),
        ],
        nonce: 3,
    }
}

#[test]
fn commitment_replays_to_claimed_state() {
    let s = State::default();
    let r = verify_commitment(&s, &good_commitment(), UNIT / 10).unwrap();
    assert_eq!(r.nonce, 3);
    assert_eq!(r.get(&exchange(), USD).confirmed_balance, 4 * UNIT + UNIT / 2);
    assert_eq!(r.get(&account(2), USD).confirmed_balance, 445 * UNIT + UNIT / 2);
}

#[test]
fn missing_fee_cell_is_invalid_final_state() {
    let mut c = good_commitment();
    c.final_state.pop();
    assert_eq!(verify_commitment(&State::default(), &c, UNIT / 10).err(), Some(VerificationErrors::InvalidFinalState));
}

#[test]
fn wrong_claimed_value_or_nonce_is_invalid_final_state() {
    let mut c = good_commitment();
    c.final_state[0].1 = bal(551 * UNIT);
    assert_eq!(verify_commitment(&State::default(), &c, UNIT / 10).err(), Some(VerificationErrors::InvalidFinalState));
    let mut d = good_commitment();
    d.nonce = 4;
    assert_eq!(verify_commitment(&State::default(), &d, UNIT / 10).err(), Some(VerificationErrors::InvalidFinalState));
    let mut f = good_commitment();
    f.final_state.push(((account(1), USD), bal(550 * UNIT)));
    assert_eq!(verify_commitment(&State::default(), &f, UNIT / 10).err(), Some(VerificationErrors::InvalidFinalState));
}

#[test]
fn verification_is_deterministic() {
    let s = State::default();
    let c = good_commitment();
    let a = verify_commitment(&s, &c, UNIT / 10).unwrap();
    let b = verify_commitment(&s, &c, UNIT / 10).unwrap();
    assert_eq!(a.balances, b.balances);
    assert_eq!(a.nonce, b.nonce);
    let mut bad = good_commitment();
    bad.final_state.clear();
    assert_eq!(verify_commitment(&s, &bad, UNIT / 10).err(), verify_commitment(&s, &bad, UNIT / 10).err());
}

#[test]
fn nonce_gap_disputes() {
    let mut c = good_commitment();
    c.logs[1] = Log::Deposit(account(2), BTC, 10 * UNIT, 3);
    assert_eq!(verify_commitment(&State::default(), &c, UNIT / 10).err(), Some(VerificationErrors::NonceAlreadyUsed));
    let mut d = good_commitment();
    if let Log::SpotSettlement(m, t, f, _) = d.logs[2].clone() {
        d.logs[2] = Log::SpotSettlement(m, t, f, 2);
    }
    assert_eq!(verify_commitment(&State::default(), &d, UNIT / 10).err(), Some(VerificationErrors::OrderSignatureFailure));
}

#[test]
fn bad_signature_disputes() {
    let mut c = good_commitment();
    if let Log::SpotSettlement(m, mut t, f, n) = c.logs[2].clone() {
        t.signature[0] ^= 1;
        c.logs[2] = Log::SpotSettlement(m, t, f, n);
    }
    assert_eq!(verify_commitment(&State::default(), &c, UNIT / 10).err(), Some(VerificationErrors::OrderSignatureFailure));
}

#[test]
fn apply_log_steps() {
    let mut s = State::default();
    assert_eq!(apply_log(&mut s, &Log::Deposit(account(1), USD, 7, 1), true, 0), Ok(()));
    assert_eq!(s.nonce, 1);
    assert_eq!(apply_log(&mut s, &Log::Withdrawal(account(1), USD, 8, 2), true, 0), Err(VerificationErrors::BalanceOutOfRange));
    assert_eq!(s.get(&account(1), USD).confirmed_balance, 7);
    assert_eq!(apply_log(&mut s, &Log::Withdrawal(account(1), USD, 7, 2), true, 0), Ok(()));
    assert_eq!(s.get(&account(1), USD).confirmed_balance, 0);
    assert_eq!(apply_log(&mut s, &Log::Deposit(account(1), USD, u128::MAX, 3), true, 0), Ok(()));
    assert_eq!(apply_log(&mut s, &Log::Deposit(account(1), USD, 1, 4), true, 0), Err(VerificationErrors::BalanceOutOfRange));
    let maker = trade(1, OrderType::BidLimit, UNIT, UNIT, 1);
    let taker = trade(2, OrderType::AskLimit, UNIT, UNIT, 1);
    assert_eq!(
        apply_log(&mut s, &Log::SpotSettlement(maker, taker, 0, 4), false, 0),
        Err(VerificationErrors::OrderSignatureFailure)
    );
    assert_eq!(s.nonce, 3);
}

#[test]
fn state_check_by_hand() {
    let computed = vec![((account(1), USD), bal(5)), ((account(2), USD), bal(6))];
    let touched = vec![(account(2), USD)];
    assert!(verify_state(&computed, &touched, &vec![((account(2), USD), bal(6))]));
    assert!(!verify_state(&computed, &touched, &vec![((account(2), USD), bal(5))]));
    assert!(!verify_state(&computed, &touched, &vec![]));
    assert!(!verify_state(&computed, &touched, &vec![((account(2), USD), bal(6)), ((account(1), USD), bal(5))]));
}

fn engine() -> Module {
    let mut m = Module::new(Config { dispute_period: 2, max_trading_fee: UNIT / 10 });
    m.providers.push(account(9));
    m
}

#[test]
fn only_providers_submit() {
    let mut m = engine();
    assert_eq!(m.submit_commitment(&account(1), 5, good_commitment()), Err(Error::CallerNotARegisteredProvider));
    assert!(m.commitments.is_empty());
    assert_eq!(m.submit_commitment(&account(9), 5, good_commitment()), Ok(()));
    assert_eq!(m.commitments.len(), 1);
}

#[test]
fn second_submission_is_a_no_op() {
    let mut m = engine();
    assert_eq!(m.submit_commitment(&account(9), 5, good_commitment()), Ok(()));
    let mut other = good_commitment();
    other.nonce = 99;
    assert_eq!(m.submit_commitment(&account(9), 5, other), Ok(()));
    assert_eq!(m.commitments.len(), 1);
    assert_eq!(m.commitments[0].1.nonce, 3);
}

#[test]
fn commitment_finalizes_after_dispute_period() {
    let mut m = engine();
    m.submit_commitment(&account(9), 5, good_commitment()).unwrap();
    assert!(!m.finalize_commitment(6));
    assert_eq!(m.balances.nonce, 0);
    assert!(m.finalize_commitment(7));
    assert_eq!(m.balances.nonce, 3);
    assert_eq!(m.balances.get(&exchange(), USD).confirmed_balance, 4 * UNIT + UNIT / 2);
    assert!(m.commitments.is_empty());
    assert!(!m.finalize_commitment(7));
}

#[test]
fn fraud_proof_prevents_finalization() {
    let mut m = engine();
    m.submit_commitment(&account(9), 5, good_commitment()).unwrap();
    assert!(!m.submit_fraud_proof(4, FraudProof::default()));
    assert!(m.submit_fraud_proof(5, FraudProof::default()));
    assert!(!m.submit_fraud_proof(5, FraudProof::default()));
    assert!(!m.finalize_commitment(7));
    assert_eq!(m.balances.nonce, 0);
    assert!(m.balances.balances.is_empty());
    assert!(m.commitments.is_empty());
    assert!(!m.finalize_commitment(8));
}

#[test]
fn periods_finalize_oldest_first() {
    let mut m = engine();
    m.submit_commitment(&account(9), 5, good_commitment()).unwrap();
    m.submit_commitment(&account(9), 4, good_commitment()).unwrap();
    assert!(m.finalize_commitment(7));
    assert_eq!(m.commitments.len(), 1);
    assert_eq!(m.commitments[0].0, 5);
    assert_eq!(m.balances.nonce, 3);
    // The second commitment restarts at nonce 1 over a ledger at nonce 3: disputed.
    assert!(!m.finalize_commitment(8));
    assert!(m.commitments.is_empty());
    assert_eq!(m.balances.nonce, 3);
}

#[test]
fn stale_nonce_never_moves_ledger_back() {
    let mut m = engine();
    m.balances.nonce = 5;
    let empty = Commitment { logs: Vec::new(), final_state: Vec::new(), nonce: 0 };
    m.submit_commitment(&account(9), 1, empty).unwrap();
    assert!(!m.finalize_commitment(3));
    assert_eq!(m.balances.nonce, 5);
    assert!(m.commitments.is_empty());
    let next = Commitment { logs: Vec::new(), final_state: Vec::new(), nonce: 5 };
    m.submit_commitment(&account(9), 2, next).unwrap();
    assert!(m.finalize_commitment(4));
    assert_eq!(m.balances.nonce, 5);
}

#[test]
fn self_trade_with_zero_net_succeeds() {
    let maker = trade(1, OrderType::BidLimit, UNIT, UNIT, 1);
    let taker = trade(1, OrderType::AskLimit, UNIT, UNIT, 1);
    let mut e: Vec<Entry> = Vec::new();
    assert_eq!(settle(&mut e, &maker, &taker, 0, 0), Ok(()));
    assert_eq!(confirmed(&e, account(1), USD), 0);
    assert_eq!(confirmed(&e, account(1), BTC), 0);
    assert_eq!(confirmed(&e, exchange(), USD), 0);
}

#[test]
fn self_trade_pays_only_the_fee() {
    let maker = trade(1, OrderType::BidLimit, UNIT, UNIT, 1);
    let taker = trade(1, OrderType::AskLimit, UNIT, UNIT, 1);
    let mut e: Vec<Entry> = vec![((account(1), USD), bal(UNIT / 100))];
    assert_eq!(settle(&mut e, &maker, &taker, UNIT / 100, UNIT / 10), Ok(()));
    assert_eq!(confirmed(&e, account(1), USD), 0);
    assert_eq!(confirmed(&e, exchange(), USD), UNIT / 100);
    let mut short: Vec<Entry> = Vec::new();
    assert_eq!(settle(&mut short, &maker, &taker, UNIT / 100, UNIT / 10), Err(VerificationErrors::OrderParamCheckFailed));
    assert!(short.is_empty());
}

#[test]
fn mismatched_assets_fail() {
    let maker = trade(1, OrderType::BidLimit, 100 * UNIT, 5 * UNIT, 1);
    let mut taker = trade(2, OrderType::AskLimit, 90 * UNIT, 5 * UNIT, 1);
    taker.quote_asset = 7;
    let mut e = funded();
    assert_eq!(settle(&mut e, &maker, &taker, 0, 0), Err(VerificationErrors::OrderParamCheckFailed));
    assert_eq!(e, funded());
}

#[test]
fn offchain_worker_records_dispute() {
    let mut m = engine();
    let mut c = good_commitment();
    c.final_state.pop();
    m.submit_commitment(&account(9), 5, c).unwrap();
    assert_eq!(m.execute_offchain_worker(4, account(3)), None);
    assert!(m.fraud_proofs.is_empty());
    assert_eq!(m.execute_offchain_worker(6, account(3)), Some(VerificationErrors::InvalidFinalState));
    assert_eq!(m.fraud_proofs.len(), 1);
    assert_eq!(m.fraud_proofs[0].0, 5);
    assert_eq!(m.fraud_proofs[0].1.fisherman, account(3));
    assert_eq!(m.fraud_proofs[0].1.final_state_should_be, good_commitment().final_state);
    assert_eq!(m.fraud_proofs[0].1.invalid_transitions.len(), 3);
    assert_eq!(m.execute_offchain_worker(6, account(3)), None);
    assert!(!m.finalize_commitment(7));
    assert_eq!(m.balances.nonce, 0);
}

#[test]
fn offchain_worker_accepts_good_commitment() {
    let mut m = engine();
    m.submit_commitment(&account(9), 5, good_commitment()).unwrap();
    assert_eq!(m.execute_offchain_worker(7, account(3)), None);
    assert!(m.fraud_proofs.is_empty());
    assert!(m.finalize_commitment(7));
}

#[test]
fn defaults() {
    assert_eq!(TradeStatus::default(), TradeStatus::Unfilled);
    let a = AccountData::default();
    assert_eq!(a.nonce, 0);
    assert!(a.assets.is_empty());
    let c = Commitment::default();
    assert!(c.logs.is_empty() && c.final_state.is_empty() && c.nonce == 0);
    let f = FraudProof::default();
    assert_eq!(f.fisherman, [0u8; 32]);
    let s = State::default();
    assert_eq!(s.get(&account(1), USD), bal(0));
}

#[test]
fn replay_reports_touched_cells() {
    let (s, touched) = replay_logs(&State::default(), &good_commitment().logs, UNIT / 10).unwrap();
    assert_eq!(s.nonce, 3);
    assert_eq!(touched.len(), 7);
    assert_eq!(corrected_final_state(&s.balances, &touched), good_commitment().final_state);
    let mut bad = good_commitment().logs;
    bad.swap(0, 1);
    assert_eq!(replay_logs(&State::default(), &bad, UNIT / 10).err(), Some(VerificationErrors::NonceAlreadyUsed));
}

#[test]
fn offchain_worker_on_failed_replay_records_empty_snapshot() {
    let mut m = engine();
    let mut c = good_commitment();
    c.logs[0] = Log::Withdrawal(account(1), USD, 1, 1);
    m.submit_commitment(&account(9), 5, c).unwrap();
    assert_eq!(m.execute_offchain_worker(7, account(3)), Some(VerificationErrors::BalanceOutOfRange));
    assert!(m.fraud_proofs[0].1.final_state_should_be.is_empty());
    assert_eq!(m.execute_offchain_worker(7, account(3)), None);
}
