use vstd::prelude::*;

verus! {

/// A participant: its 32-byte sr25519 public key.
pub type AccountId = [u8; 32];

/// An opaque, totally ordered asset identifier.
pub type AssetId = u128;

/// A non-negative fixed-point quantity with `UNIT` as one whole.
pub type Balance = u128;

/// A period number of the host ledger.
pub type BlockNumber = u64;

/// A ledger cell address.
pub type Key = (AccountId, AssetId);

/// A ledger cell with its content.
pub type Entry = (Key, BalanceState);

/// The fixed-point scale of `Balance`: `UNIT` stands for 1.
pub const UNIT: u128 = 1_000_000_000_000;

#[derive(Clone, Copy, Debug, PartialEq, Eq, Structural)]
pub enum OrderType {
    BidLimit,
    AskLimit,
    BidMarket,
    AskMarket,
}

/// Why a commitment's replay fails; each one makes the commitment disputable.
#[derive(Clone, Copy, Debug, PartialEq, Eq, Structural)]
pub enum VerificationErrors {
    OrderAmountFailure,
    OrderPriceFailure,
    InvalidOrderCombination,
    OrderParamCheckFailed,
    OrderSignatureFailure,
    InvalidFinalState,
    InvalidFee,
    /// A deposit or withdrawal whose nonce is not the next one.
    NonceAlreadyUsed,
    /// A withdrawal larger than the balance, or a deposit past the largest balance.
    BalanceOutOfRange,
}

/// Errors of the submission entry point.
#[derive(Clone, Copy, Debug, PartialEq, Eq, Structural)]
pub enum Error {
    CallerNotARegisteredProvider,
    TraderSignatureMismatch,
    NonceAlreadyUsed,
    InvalidOrderTypeCombination,
    InvalidSignature,
}

/// One side of a matched spot trade, signed by its trader.
#[derive(Clone, Debug)]
pub struct SpotTrade {
    pub trader: AccountId,
    pub price: Balance,
    pub amount: Balance,
    pub order_type: OrderType,
    pub base_asset: AssetId,
    pub quote_asset: AssetId,
    pub nonce: u128,
    pub signature: Vec<u8>,
}

/// A state transition recorded in a commitment.
#[derive(Clone, Debug)]
pub enum Log {
    /// (maker, taker, fee as a fixed-point fraction, nonce)
    SpotSettlement(SpotTrade, SpotTrade, Balance, u128),
    /// (account, asset, amount, nonce)
    Withdrawal(AccountId, AssetId, Balance, u128),
    /// (account, asset, amount, nonce)
    Deposit(AccountId, AssetId, Balance, u128),
}

/// A ledger cell. Replay and matching work on `confirmed_balance`;
/// `unconfirmed_balance` is carried along and only replaced by a finalized
/// commitment's final state.
#[derive(Clone, Copy, Debug, PartialEq, Eq, Structural)]
pub struct BalanceState {
    pub unconfirmed_balance: Balance,
    pub confirmed_balance: Balance,
}

/// The ledger: cells, the global nonce, and per-account nonces. Every operation of
/// the library keeps the cells' keys unique (`ledger::keys_unique`); on a ledger
/// built otherwise, the first entry of a key is the one that counts.
#[derive(Clone, Debug)]
pub struct State {
    pub balances: Vec<Entry>,
    pub nonce: u128,
    pub nonces: Vec<(AccountId, u128)>,
}

/// A provider's batch of logs with the cells it claims they produce.
#[derive(Clone, Debug)]
pub struct Commitment {
    pub logs: Vec<Log>,
    pub final_state: Vec<Entry>,
    pub nonce: u128,
}

/// A fisherman's claim that a pending commitment is wrong.
#[derive(Clone, Debug)]
pub struct FraudProof {
    pub fisherman: AccountId,
    pub invalid_transitions: Vec<Log>,
    pub final_state_should_be: Vec<Entry>,
}

/// Fill status of an order.
#[derive(Clone, Copy, Debug, PartialEq, Eq, Structural)]
pub enum TradeStatus {
    Unfilled,
    PartialFill(Balance),
    Filled,
    Cancelled,
}

/// A signed order of a trader.
#[derive(Clone, Debug)]
pub struct Order {
    pub price: Balance,
    pub quantity: Balance,
    pub order_type: OrderType,
    pub trader: AccountId,
    pub nonce: u64,
    pub asset_id: AssetId,
    pub signature: Vec<u8>,
}

/// A trader's nonce and holdings.
#[derive(Clone, Debug)]
pub struct AccountData {
    pub nonce: u64,
    pub assets: Vec<(AssetId, Balance)>,
}

pub open spec fn zero_balance() -> BalanceState {
    BalanceState { unconfirmed_balance: 0, confirmed_balance: 0 }
}

impl Default for TradeStatus {
    fn default() -> (r: Self)
        ensures
            r == TradeStatus::Unfilled,
    {
        TradeStatus::Unfilled
    }
}

impl Default for AccountData {
    fn default() -> (r: Self)
        ensures
            r.nonce == 0,
            r.assets@.len() == 0,
    {
        AccountData { nonce: 0, assets: Vec::new() }
    }
}

impl Default for State {
    fn default() -> (r: Self)
        ensures
            r.balances@.len() == 0,
            r.nonce == 0,
            r.nonces@.len() == 0,
    {
        State { balances: Vec::new(), nonce: 0, nonces: Vec::new() }
    }
}

impl Default for Commitment {
    fn default() -> (r: Self)
        ensures
            r.logs@.len() == 0,
            r.final_state@.len() == 0,
            r.nonce == 0,
    {
        Commitment { logs: Vec::new(), final_state: Vec::new(), nonce: 0 }
    }
}

impl Default for FraudProof {
    fn default() -> (r: Self)
        ensures
            r.fisherman@ == Seq::new(32, |i: int| 0u8),
            r.invalid_transitions@.len() == 0,
            r.final_state_should_be@.len() == 0,
    {
        let r = FraudProof {
            fisherman: [0u8; 32],
            invalid_transitions: Vec::new(),
            final_state_should_be: Vec::new(),
        };
        assert(r.fisherman@ =~= Seq::new(32, |i: int| 0u8));
        r
    }
}

} // verus!
