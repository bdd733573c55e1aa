//! The commitment lifecycle: submission, background verification, fraud proofs and
//! finalization after the dispute period.
use vstd::prelude::*;
use crate::ledger::{account_eq, keys_unique, merge, merge_final_state};
use crate::matching::{exchange_account, EXCHANGE_ACCOUNT};
use crate::laws::nonce_monotonicity;
use crate::replay::{copy_logs, corrected_final_state, final_state_matches, replay, replay_logs, same_logs, verify_commitment, verify_spec, verify_state};
use crate::types::{AccountId, Balance, BlockNumber, Commitment, Entry, Error, FraudProof, State, VerificationErrors};

verus! {

/// Protocol constants set by the host.
#[derive(Clone, Copy, Debug)]
pub struct Config {
    /// Periods a commitment waits before it can be finalized.
    pub dispute_period: BlockNumber,
    /// The largest fee fraction a trade may carry.
    pub max_trading_fee: Balance,
}

/// The engine's storage: the ledger, pending commitments and fraud proofs by period,
/// and the registered providers. Submission keeps one commitment per period
/// (`periods_unique`), and finalization keeps it so.
pub struct Module {
    pub config: Config,
    pub balances: State,
    pub commitments: Vec<(BlockNumber, Commitment)>,
    pub fraud_proofs: Vec<(BlockNumber, FraudProof)>,
    pub providers: Vec<AccountId>,
}

/// The index of the first record of period `p`, or -1.
pub open spec fn period_index<T>(s: Seq<(BlockNumber, T)>, p: BlockNumber) -> int
    decreases s.len(),
{
    if s.len() == 0 {
        -1
    } else if s[0].0 == p {
        0
    } else {
        let r = period_index(s.drop_first(), p);
        if r < 0 { -1 } else { r + 1 }
    }
}

/// Whether a record of period `p` is stored.
pub open spec fn has_period<T>(s: Seq<(BlockNumber, T)>, p: BlockNumber) -> bool {
    exists|i: int| 0 <= i < s.len() && s[i].0 == p
}

/// The commitments after one for period `now` is offered by a provider:
/// the first one for a period stays, later ones are dropped.
pub open spec fn submit_spec(cs: Seq<(BlockNumber, Commitment)>, now: BlockNumber, c: Commitment) -> Seq<(BlockNumber, Commitment)> {
    if has_period(cs, now) { cs } else { cs.push((now, c)) }
}

/// Whether every period is stored at most once.
pub open spec fn periods_unique<T>(s: Seq<(BlockNumber, T)>) -> bool {
    forall|i: int, j: int| 0 <= i < j < s.len() ==> #[trigger] s[i].0 != #[trigger] s[j].0
}

/// Whether index `i` holds the first of the records with the earliest period.
pub open spec fn is_oldest<T>(s: Seq<(BlockNumber, T)>, i: int) -> bool {
    &&& 0 <= i < s.len()
    &&& forall|j: int| 0 <= j < s.len() ==> s[i].0 <= #[trigger] s[j].0
    &&& forall|j: int| 0 <= j < i ==> s[i].0 < #[trigger] s[j].0
}

/// The index of the first record with the earliest period.
pub open spec fn oldest<T>(s: Seq<(BlockNumber, T)>) -> int {
    choose|i: int| is_oldest(s, i)
}

/// Whether the period-advance hook at `now` merges the oldest pending commitment:
/// it has no fraud proof, its dispute period has elapsed, and its replay on the
/// ledger (`e`, `nonce`) is accepted.
pub open spec fn finalizes(cs: Seq<(BlockNumber, Commitment)>, fps: Seq<(BlockNumber, FraudProof)>, e: Seq<Entry>, nonce: u128, config: Config, now: BlockNumber) -> bool {
    let c = cs[oldest(cs)];
    &&& cs.len() > 0
    &&& !has_period(fps, c.0)
    &&& now as int >= c.0 + config.dispute_period
    &&& verify_spec(e, nonce, c.1, config.max_trading_fee).is_ok()
}

/// Whether the period-advance hook at `now` discards the oldest pending commitment:
/// it has a fraud proof, or its dispute period has elapsed and its replay is disputed.
pub open spec fn discards(cs: Seq<(BlockNumber, Commitment)>, fps: Seq<(BlockNumber, FraudProof)>, e: Seq<Entry>, nonce: u128, config: Config, now: BlockNumber) -> bool {
    let c = cs[oldest(cs)];
    &&& cs.len() > 0
    &&& (has_period(fps, c.0) || (now as int >= c.0 + config.dispute_period
        && verify_spec(e, nonce, c.1, config.max_trading_fee).is_err()))
}

pub proof fn lemma_period_index<T>(s: Seq<(BlockNumber, T)>, p: BlockNumber)
    ensures
        -1 <= period_index(s, p) < s.len(),
        period_index(s, p) >= 0 ==> s[period_index(s, p)].0 == p,
        period_index(s, p) >= 0 ==> forall|j: int| 0 <= j < period_index(s, p) ==> s[j].0 != p,
        period_index(s, p) < 0 <==> !has_period(s, p),
    decreases s.len(),
{
    if s.len() > 0 {
        lemma_period_index(s.drop_first(), p);
        assert forall|j: int| 1 <= j < s.len() implies s[j] == s.drop_first()[j - 1] by {}
        if period_index(s, p) < 0 {
            assert forall|j: int| 0 <= j < s.len() implies s[j].0 != p by {
                if j > 0 {
                    assert(s[j] == s.drop_first()[j - 1]);
                }
            }
        } else if s[0].0 != p {
            assert(s[period_index(s, p)] == s.drop_first()[period_index(s, p) - 1]);
        }
    }
}

/// The index of the first record of period `p`, if any.
fn find_period<T>(s: &Vec<(BlockNumber, T)>, p: BlockNumber) -> (r: Option<usize>)
    ensures
        r.is_some() ==> r.unwrap() as int == period_index(s@, p) && r.unwrap() < s@.len(),
        r.is_none() <==> !has_period(s@, p),
{
    proof { lemma_period_index(s@, p); }
    let mut i: usize = 0;
    while i < s.len()
        invariant
            i <= s@.len(),
            forall|j: int| 0 <= j < i ==> s@[j].0 != p,
            -1 <= period_index(s@, p) < s@.len(),
            period_index(s@, p) >= 0 ==> s@[period_index(s@, p)].0 == p,
            period_index(s@, p) >= 0 ==> forall|j: int| 0 <= j < period_index(s@, p) ==> s@[j].0 != p,
            period_index(s@, p) < 0 <==> !has_period(s@, p),
        decreases s@.len() - i,
    {
        if s[i].0 == p {
            proof {
                if period_index(s@, p) < i {
                    assert(s@[period_index(s@, p)].0 == p);
                }
            }
            return Some(i);
        }
        i = i + 1;
    }
    None
}

fn is_provider(providers: &Vec<AccountId>, a: &AccountId) -> (r: bool)
    ensures
        r == providers@.contains(*a),
{
    let mut i: usize = 0;
    while i < providers.len()
        invariant
            i <= providers@.len(),
            forall|j: int| 0 <= j < i ==> providers@[j] != *a,
        decreases providers@.len() - i,
    {
        if account_eq(&providers[i], a) {
            return true;
        }
        i = i + 1;
    }
    false
}

/// Removing a record keeps periods unique.
pub proof fn lemma_remove_keeps_unique<T>(s: Seq<(BlockNumber, T)>, i: int)
    requires
        0 <= i < s.len(),
    ensures
        periods_unique(s) ==> periods_unique(s.remove(i)),
{
    if periods_unique(s) {
        let r = s.remove(i);
        assert forall|a: int, b: int| 0 <= a < b < r.len() implies #[trigger] r[a].0 != #[trigger] r[b].0 by {
            let a2 = if a < i { a } else { a + 1 };
            let b2 = if b < i { b } else { b + 1 };
            assert(r[a] == s[a2]);
            assert(r[b] == s[b2]);
        }
    }
}

/// The index of the first record with the earliest period, if any.
fn find_oldest<T>(s: &Vec<(BlockNumber, T)>) -> (r: Option<usize>)
    ensures
        r.is_none() <==> s@.len() == 0,
        r.is_some() ==> r.unwrap() as int == oldest(s@) && is_oldest(s@, oldest(s@)),
{
    if s.len() == 0 {
        return None;
    }
    let mut best: usize = 0;
    let mut i: usize = 1;
    while i < s.len()
        invariant
            1 <= i <= s@.len(),
            best < i,
            forall|j: int| 0 <= j < i ==> s@[best as int].0 <= #[trigger] s@[j].0,
            forall|j: int| 0 <= j < best ==> s@[best as int].0 < #[trigger] s@[j].0,
        decreases s@.len() - i,
    {
        if s[i].0 < s[best].0 {
            best = i;
        }
        i = i + 1;
    }
    proof {
        assert(is_oldest(s@, best as int));
        let o = oldest(s@);
        assert(is_oldest(s@, o));
        if o < best {
            assert(s@[best as int].0 < s@[o].0);
        } else if o > best {
            assert(s@[o].0 < s@[best as int].0);
        }
    }
    Some(best)
}

impl Module {
    /// An engine with an empty ledger and no providers.
    pub fn new(config: Config) -> (r: Module)
        ensures
            r.config == config,
            r.balances.balances@.len() == 0,
            r.balances.nonce == 0,
            r.balances.nonces@.len() == 0,
            r.commitments@.len() == 0,
            r.fraud_proofs@.len() == 0,
            r.providers@.len() == 0,
    {
        Module {
            config,
            balances: State { balances: Vec::new(), nonce: 0, nonces: Vec::new() },
            commitments: Vec::new(),
            fraud_proofs: Vec::new(),
            providers: Vec::new(),
        }
    }

    /// Whether `nonce` is the one after `prev_nonce`.
    pub fn verify_nonce(nonce: u128, prev_nonce: u128) -> (r: bool)
        ensures
            r == (nonce == prev_nonce + 1),
    {
        nonce > 0 && nonce - 1 == prev_nonce
    }

    /// The account that collects trading fees.
    pub fn get_exchange_account() -> (r: AccountId)
        ensures
            r == EXCHANGE_ACCOUNT,
    {
        exchange_account()
    }

    /// Stores `commitment` for period `now` if `caller` is a registered provider and
    /// the period has none yet; a second one for the same period changes nothing.
    pub fn submit_commitment(&mut self, caller: &AccountId, now: BlockNumber, commitment: Commitment) -> (r: Result<(), Error>)
        ensures
            old(self).providers@.contains(*caller) <==> r.is_ok(),
            r.is_err() ==> r.unwrap_err() == Error::CallerNotARegisteredProvider,
            r.is_ok() ==> final(self).commitments@ == submit_spec(old(self).commitments@, now, commitment),
            periods_unique(old(self).commitments@) ==> periods_unique(final(self).commitments@),
            r.is_err() ==> final(self).commitments@ == old(self).commitments@,
            final(self).balances == old(self).balances,
            final(self).fraud_proofs@ == old(self).fraud_proofs@,
            final(self).providers@ == old(self).providers@,
            final(self).config == old(self).config,
    {
        if !is_provider(&self.providers, caller) {
            return Err(Error::CallerNotARegisteredProvider);
        }
        if find_period(&self.commitments, now).is_none() {
            self.commitments.push((now, commitment));
            proof {
                if periods_unique(old(self).commitments@) {
                    assert forall|i: int, j: int| 0 <= i < j < self.commitments@.len() implies
                        #[trigger] self.commitments@[i].0 != #[trigger] self.commitments@[j].0 by {
                        assert(self.commitments@[i] == old(self).commitments@[i]);
                        if j == old(self).commitments@.len() {
                            assert(old(self).commitments@[i].0 != now);
                        } else {
                            assert(self.commitments@[j] == old(self).commitments@[j]);
                        }
                    }
                }
            }
        }
        Ok(())
    }

    /// Records a fraud proof against the pending commitment of `period`; refused
    /// (`false`, nothing changes) where none is pending or one is already recorded.
    pub fn submit_fraud_proof(&mut self, period: BlockNumber, proof: FraudProof) -> (r: bool)
        ensures
            r == (has_period(old(self).commitments@, period) && !has_period(old(self).fraud_proofs@, period)),
            r ==> final(self).fraud_proofs@ == old(self).fraud_proofs@.push((period, proof)),
            !r ==> final(self).fraud_proofs@ == old(self).fraud_proofs@,
            final(self).commitments@ == old(self).commitments@,
            final(self).balances == old(self).balances,
            final(self).providers@ == old(self).providers@,
            final(self).config == old(self).config,
    {
        if find_period(&self.commitments, period).is_none() || find_period(&self.fraud_proofs, period).is_some() {
            return false;
        }
        self.fraud_proofs.push((period, proof));
        true
    }

    /// The period-advance hook, on the oldest pending commitment. With a fraud proof
    /// it is discarded. Once its dispute period has elapsed it is replayed on the
    /// ledger: if accepted, its final state is written over the cells and its nonce
    /// becomes the global nonce; if disputed, it is discarded. Returns whether it was
    /// merged.
    pub fn finalize_commitment(&mut self, now: BlockNumber) -> (r: bool)
        ensures
            ({
                let cs = old(self).commitments@;
                let i = oldest(cs);
                let c = cs[i].1;
                let fin = finalizes(cs, old(self).fraud_proofs@, old(self).balances.balances@, old(self).balances.nonce, old(self).config, now);
                let dis = discards(cs, old(self).fraud_proofs@, old(self).balances.balances@, old(self).balances.nonce, old(self).config, now);
                &&& r == fin
                &&& r ==> final(self).commitments@ == cs.remove(i)
                    && final(self).balances.balances@ == merge(old(self).balances.balances@, c.final_state@)
                    && final(self).balances.nonce == c.nonce
                    && c.nonce == old(self).balances.nonce + c.logs@.len()
                &&& dis ==> final(self).commitments@ == cs.remove(i)
                &&& !r ==> final(self).balances == old(self).balances
                &&& !r && !dis ==> final(self).commitments@ == cs
            }),
            periods_unique(old(self).commitments@) ==> periods_unique(final(self).commitments@),
            keys_unique(old(self).balances.balances@) ==> keys_unique(final(self).balances.balances@),
            final(self).balances.nonces@ == old(self).balances.nonces@,
            final(self).fraud_proofs@ == old(self).fraud_proofs@,
            final(self).providers@ == old(self).providers@,
            final(self).config == old(self).config,
    {
        let i = match find_oldest(&self.commitments) {
            Some(i) => i,
            None => return false,
        };
        let p = self.commitments[i].0;
        if find_period(&self.fraud_proofs, p).is_some() {
            let _ = self.commitments.remove(i);
            proof { lemma_remove_keeps_unique(old(self).commitments@, i as int); }
            return false;
        }
        if (now as u128) < (p as u128) + (self.config.dispute_period as u128) {
            return false;
        }
        match verify_commitment(&self.balances, &self.commitments[i].1, self.config.max_trading_fee) {
            Err(_) => {
                let _ = self.commitments.remove(i);
                proof { lemma_remove_keeps_unique(old(self).commitments@, i as int); }
                false
            },
            Ok(_replayed) => {
                proof {
                    let c = self.commitments@[i as int].1;
                    nonce_monotonicity(self.balances.balances@, self.balances.nonce, c.logs@, self.config.max_trading_fee);
                }
                let (_, c) = self.commitments.remove(i);
                proof { lemma_remove_keeps_unique(old(self).commitments@, i as int); }
                merge_final_state(&mut self.balances.balances, &c.final_state);
                self.balances.nonce = c.nonce;
                true
            },
        }
    }

    /// The background check of the oldest pending commitment, where it was submitted
    /// by period `now` and has no fraud proof: it is replayed on the ledger, and a
    /// dispute is returned and recorded as a fraud proof by `fisherman`, with the
    /// logs and, where the replay went through, the final state they produce.
    pub fn execute_offchain_worker(&mut self, now: BlockNumber, fisherman: AccountId) -> (r: Option<VerificationErrors>)
        ensures
            ({
                let cs = old(self).commitments@;
                let t = cs[oldest(cs)].0;
                let c = cs[oldest(cs)].1;
                let checked = cs.len() > 0 && t <= now && !has_period(old(self).fraud_proofs@, t);
                let verdict = verify_spec(old(self).balances.balances@, old(self).balances.nonce, c, old(self).config.max_trading_fee);
                let replayed = replay(old(self).balances.balances@, old(self).balances.nonce, c.logs@, old(self).config.max_trading_fee);
                &&& !checked ==> r.is_none() && final(self).fraud_proofs@ == old(self).fraud_proofs@
                &&& checked ==> (r.is_some() <==> verdict.is_err())
                &&& checked && r.is_some() ==> verdict == Err::<(Seq<Entry>, u128), VerificationErrors>(r.unwrap())
                    && final(self).fraud_proofs@.len() == old(self).fraud_proofs@.len() + 1
                    && final(self).fraud_proofs@.drop_last() == old(self).fraud_proofs@
                    && final(self).fraud_proofs@.last().0 == t
                    && final(self).fraud_proofs@.last().1.fisherman == fisherman
                    && same_logs(final(self).fraud_proofs@.last().1.invalid_transitions@, c.logs@)
                &&& checked && r.is_some() && replayed.is_ok() ==> r == Some(VerificationErrors::InvalidFinalState)
                    && final_state_matches(replayed.unwrap().0, replayed.unwrap().2, final(self).fraud_proofs@.last().1.final_state_should_be@)
                &&& checked && replayed.is_err() ==> final(self).fraud_proofs@.last().1.final_state_should_be@.len() == 0
                &&& r.is_none() ==> final(self).fraud_proofs@ == old(self).fraud_proofs@
            }),
            final(self).commitments@ == old(self).commitments@,
            final(self).balances == old(self).balances,
            final(self).providers@ == old(self).providers@,
            final(self).config == old(self).config,
    {
        let i = match find_oldest(&self.commitments) {
            Some(i) => i,
            None => return None,
        };
        let t = self.commitments[i].0;
        if t > now || find_period(&self.fraud_proofs, t).is_some() {
            return None;
        }
        let (x, snapshot) = match replay_logs(&self.balances, &self.commitments[i].1.logs, self.config.max_trading_fee) {
            Err(x) => (x, Vec::new()),
            Ok((working, touched)) => {
                let claimed = &self.commitments[i].1;
                if verify_state(&working.balances, &touched, &claimed.final_state) && claimed.nonce == working.nonce {
                    return None;
                }
                let snapshot = corrected_final_state(&working.balances, &touched);
                (VerificationErrors::InvalidFinalState, snapshot)
            },
        };
        let fraud_proof = FraudProof {
            fisherman,
            invalid_transitions: copy_logs(&self.commitments[i].1.logs),
            final_state_should_be: snapshot,
        };
        self.fraud_proofs.push((t, fraud_proof));
        proof {
            assert(self.fraud_proofs@.drop_last() =~= old(self).fraud_proofs@);
        }
        Some(x)
    }
}

} // verus!
