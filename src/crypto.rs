//! What a trader signs and how a trade's signatures are checked.
use vstd::prelude::*;
use vstd::arithmetic::power::pow;
use crate::types::{AccountId, OrderType, SpotTrade};
use parity_scale_codec::Encode;
use sp_core::Pair;
use sp_core::Hasher;

verus! {

/// The sixteen little-endian bytes of `x`.
pub open spec fn le_bytes_u128(x: u128) -> Seq<u8> {
    Seq::new(16, |i: int| ((x as int / pow(256, i as nat)) % 256) as u8)
}

/// The 32-byte BLAKE2b-256 digest of `data`.
pub uninterp spec fn blake2_256_of(data: Seq<u8>) -> Seq<u8>;

/// Whether `sig` is a valid sr25519 signature of `msg` under public key `pk`.
pub uninterp spec fn sr25519_valid(sig: Seq<u8>, msg: Seq<u8>, pk: Seq<u8>) -> bool;

/// Relies on parity-scale-codec's `Encode` for `u128`: the value's `to_le_bytes`.
#[verifier::external_body]
fn encode_u128(x: u128) -> (r: Vec<u8>)
    ensures
        r@ == le_bytes_u128(x),
{
    x.encode()
}

/// Relies on sp-core's `Blake2Hasher::hash`: the BLAKE2b-256 digest of the bytes.
#[verifier::external_body]
fn blake2_256(data: &Vec<u8>) -> (r: [u8; 32])
    ensures
        r@ == blake2_256_of(data@),
{
    <sp_core::Blake2Hasher as Hasher>::hash(&data[..]).0
}

/// Relies on sp-core's `sr25519::Signature::try_from`, which refuses a slice that is
/// not 64 bytes long, and `sr25519::Pair::verify`, which checks the signature of the
/// message under the public key.
#[verifier::external_body]
fn sr25519_verify(sig: &Vec<u8>, msg: &[u8; 32], pk: &AccountId) -> (r: bool)
    ensures
        r == sr25519_valid(sig@, msg@, pk@),
        sig@.len() != 64 ==> !r,
{
    match sp_core::sr25519::Signature::try_from(&sig[..]) {
        Ok(s) => sp_core::sr25519::Pair::verify(&s, &msg[..], &sp_core::sr25519::Public::from_raw(*pk)),
        Err(_) => false,
    }
}

/// The one-byte code of an order type: its position in the declaration.
pub open spec fn order_type_code(t: OrderType) -> u8 {
    match t {
        OrderType::BidLimit => 0,
        OrderType::AskLimit => 1,
        OrderType::BidMarket => 2,
        OrderType::AskMarket => 3,
    }
}

/// The bytes a trader signs the digest of: price, amount, order type, base asset,
/// quote asset and nonce, in that order.
pub open spec fn trade_message(t: SpotTrade) -> Seq<u8> {
    le_bytes_u128(t.price) + le_bytes_u128(t.amount) + seq![order_type_code(t.order_type)]
        + le_bytes_u128(t.base_asset) + le_bytes_u128(t.quote_asset) + le_bytes_u128(t.nonce)
}

/// The digest that a trader signs.
pub open spec fn trade_digest(t: SpotTrade) -> Seq<u8> {
    blake2_256_of(trade_message(t))
}

/// Whether the trade carries its trader's signature of its digest.
pub open spec fn signature_valid(t: SpotTrade) -> bool {
    sr25519_valid(t.signature@, trade_digest(t), t.trader@)
}

fn encode_order_type(t: OrderType) -> (r: u8)
    ensures
        r == order_type_code(t),
{
    match t {
        OrderType::BidLimit => 0,
        OrderType::AskLimit => 1,
        OrderType::BidMarket => 2,
        OrderType::AskMarket => 3,
    }
}

/// The bytes that the trader of `t` signs the digest of.
pub fn message_bytes(t: &SpotTrade) -> (r: Vec<u8>)
    ensures
        r@ == trade_message(*t),
{
    let mut m = encode_u128(t.price);
    let mut a = encode_u128(t.amount);
    m.append(&mut a);
    m.push(encode_order_type(t.order_type));
    let mut b = encode_u128(t.base_asset);
    m.append(&mut b);
    let mut q = encode_u128(t.quote_asset);
    m.append(&mut q);
    let mut n = encode_u128(t.nonce);
    m.append(&mut n);
    m
}

/// The digest that the trader of `t` signs.
pub fn trade_hash(t: &SpotTrade) -> (r: [u8; 32])
    ensures
        r@ == trade_digest(*t),
{
    blake2_256(&message_bytes(t))
}

/// Whether both sides of a trade carry their trader's signature.
pub fn verify_signatures(maker: &SpotTrade, taker: &SpotTrade) -> (r: bool)
    ensures
        r == (signature_valid(*maker) && signature_valid(*taker)),
        maker.signature@.len() != 64 || taker.signature@.len() != 64 ==> !r,
{
    let maker_msg = trade_hash(maker);
    let taker_msg = trade_hash(taker);
    sr25519_verify(&taker.signature, &taker_msg, &taker.trader) && sr25519_verify(&maker.signature, &maker_msg, &maker.trader)
}

} // verus!
