//! The persisted key-value layout: single-byte key prefixes, deterministic
//! binary encodings of every persisted entry, and their decoders.
//!
//! Every encoder is paired with a decoder and a proof that decoding an
//! encoding yields the encoded entry back.

use vstd::prelude::*;
use crate::account::AccountBalance;
use crate::account::LockedBalance;
use crate::action::Action;
use crate::action::ActionBody;
use crate::action::ActionStaged;
use crate::action::ProviderBid;
use crate::action::SeekerAction;
use crate::action::action_enc;
use crate::epoch::EpochEnd;
use crate::epoch::EpochOutcome;
use crate::epoch::Feerate;
use crate::words::AccountId;
use crate::words::Bytes32;
use crate::words::OutPoint;
use crate::words::bytes32_be;
use crate::words::u64_be;
use crate::words::u64_of_be;
use crate::words::lemma_u64_be_round_trip;

verus! {

/// The key prefixes of the store, one per kind of persisted entry.
#[derive(Clone, Copy, Debug, PartialEq, Eq, Structural, Hash)]
pub enum DbKeyPrefix {
    /// Account balances, keyed by x-only public key.
    Account,
    /// Deposit outcomes, keyed by transaction outpoint.
    DepositOutcome,
    /// Epoch outcomes, keyed by epoch id.
    EpochOutcome,
    /// The last epoch that ended.
    LastEpochEnded,
    /// The last epoch that settled.
    LastEpochSettled,
    /// The latest valid epoch-end vote of each peer.
    EpochEnd,
    /// The staged action of each account.
    ActionStaged,
}

impl DbKeyPrefix {
    /// The single prefix byte of each kind.
    pub open spec fn byte_spec(self) -> u8 {
        match self {
            DbKeyPrefix::Account => 0xE0u8,
            DbKeyPrefix::DepositOutcome => 0xE1u8,
            DbKeyPrefix::EpochOutcome => 0xE2u8,
            DbKeyPrefix::LastEpochEnded => 0xE3u8,
            DbKeyPrefix::LastEpochSettled => 0xE4u8,
            DbKeyPrefix::EpochEnd => 0xE5u8,
            DbKeyPrefix::ActionStaged => 0xE6u8,
        }
    }

    /// The single prefix byte of each kind.
    pub fn byte(self) -> (r: u8)
        ensures
            r == self.byte_spec(),
    {
        match self {
            DbKeyPrefix::Account => 0xE0,
            DbKeyPrefix::DepositOutcome => 0xE1,
            DbKeyPrefix::EpochOutcome => 0xE2,
            DbKeyPrefix::LastEpochEnded => 0xE3,
            DbKeyPrefix::LastEpochSettled => 0xE4,
            DbKeyPrefix::EpochEnd => 0xE5,
            DbKeyPrefix::ActionStaged => 0xE6,
        }
    }
}

/// The store key of an account's balance.
#[derive(Clone, Copy, Debug, PartialEq, Eq, Structural, Hash)]
pub struct AccountBalanceKey(pub AccountId);

/// The prefix covering every account balance.
#[derive(Clone, Copy, Debug, PartialEq, Eq, Structural, Hash)]
pub struct AccountBalanceKeyPrefix;

/// The store key of a deposit outcome.
#[derive(Clone, Copy, Debug, PartialEq, Eq, Structural, Hash)]
pub struct DepositOutcomeKey(pub OutPoint);

/// The prefix covering every deposit outcome.
#[derive(Clone, Copy, Debug, PartialEq, Eq, Structural, Hash)]
pub struct DepositOutcomePrefix;

/// The store key of an epoch outcome.
#[derive(Clone, Copy, Debug, PartialEq, Eq, Structural, Hash)]
pub struct EpochOutcomeKey(pub u64);

/// The prefix covering every epoch outcome.
#[derive(Clone, Copy, Debug, PartialEq, Eq, Structural, Hash)]
pub struct EpochOutcomeKeyPrefix;

/// The singleton key of the last settled epoch.
#[derive(Clone, Copy, Debug, PartialEq, Eq, Structural, Hash)]
pub struct LastEpochSettledKey;

/// The prefix of the last settled epoch singleton.
#[derive(Clone, Copy, Debug, PartialEq, Eq, Structural, Hash)]
pub struct LastEpochSettledPrefix;

/// The singleton key of the last ended epoch.
#[derive(Clone, Copy, Debug, PartialEq, Eq, Structural, Hash)]
pub struct LastEpochEndedKey;

/// The prefix of the last ended epoch singleton.
#[derive(Clone, Copy, Debug, PartialEq, Eq, Structural, Hash)]
pub struct LastEpochEndedPrefix;

/// The store key of one peer's epoch-end vote.
#[derive(Clone, Copy, Debug, PartialEq, Eq, Structural, Hash)]
pub struct EpochEndKey(pub u64);

/// The prefix covering every epoch-end vote.
#[derive(Clone, Copy, Debug, PartialEq, Eq, Structural, Hash)]
pub struct EpochEndKeyPrefix;

/// The store key of an account's staged action.
#[derive(Clone, Copy, Debug, PartialEq, Eq, Structural, Hash)]
pub struct ActionStagedKey(pub AccountId);

/// The prefix covering every staged action.
#[derive(Clone, Copy, Debug, PartialEq, Eq, Structural, Hash)]
pub struct ActionStagedKeyPrefix;

impl AccountBalanceKey {
    /// The stored key bytes: the prefix byte, then the account id.
    pub fn encode(&self) -> (r: Vec<u8>)
        ensures
            r@ == seq![DbKeyPrefix::Account.byte_spec()] + bytes32_be(self.0),
    {
        let mut out: Vec<u8> = Vec::new();
        out.push(DbKeyPrefix::Account.byte());
        self.0.write_bytes(&mut out);
        proof {
            assert(out@ =~= seq![DbKeyPrefix::Account.byte_spec()] + bytes32_be(self.0));
        }
        out
    }
}

impl DepositOutcomeKey {
    /// The stored key bytes: the prefix byte, the txid, the output index.
    pub fn encode(&self) -> (r: Vec<u8>)
        ensures
            r@ == seq![DbKeyPrefix::DepositOutcome.byte_spec()] + bytes32_be(self.0.txid) + u64_be(
                self.0.out_idx as u64,
            ),
    {
        let mut out: Vec<u8> = Vec::new();
        out.push(DbKeyPrefix::DepositOutcome.byte());
        self.0.txid.write_bytes(&mut out);
        crate::words::u64_write_be(self.0.out_idx as u64, &mut out);
        proof {
            assert(out@ =~= seq![DbKeyPrefix::DepositOutcome.byte_spec()] + bytes32_be(self.0.txid)
                + u64_be(self.0.out_idx as u64));
        }
        out
    }
}

impl EpochOutcomeKey {
    /// The stored key bytes: the prefix byte, then the big-endian epoch id.
    pub fn encode(&self) -> (r: Vec<u8>)
        ensures
            r@ == seq![DbKeyPrefix::EpochOutcome.byte_spec()] + u64_be(self.0),
    {
        let mut out: Vec<u8> = Vec::new();
        out.push(DbKeyPrefix::EpochOutcome.byte());
        crate::words::u64_write_be(self.0, &mut out);
        proof {
            assert(out@ =~= seq![DbKeyPrefix::EpochOutcome.byte_spec()] + u64_be(self.0));
        }
        out
    }
}

impl EpochEndKey {
    /// The stored key bytes: the prefix byte, then the big-endian peer id.
    pub fn encode(&self) -> (r: Vec<u8>)
        ensures
            r@ == seq![DbKeyPrefix::EpochEnd.byte_spec()] + u64_be(self.0),
    {
        let mut out: Vec<u8> = Vec::new();
        out.push(DbKeyPrefix::EpochEnd.byte());
        crate::words::u64_write_be(self.0, &mut out);
        proof {
            assert(out@ =~= seq![DbKeyPrefix::EpochEnd.byte_spec()] + u64_be(self.0));
        }
        out
    }
}

impl ActionStagedKey {
    /// The stored key bytes: the prefix byte, then the account id.
    pub fn encode(&self) -> (r: Vec<u8>)
        ensures
            r@ == seq![DbKeyPrefix::ActionStaged.byte_spec()] + bytes32_be(self.0),
    {
        let mut out: Vec<u8> = Vec::new();
        out.push(DbKeyPrefix::ActionStaged.byte());
        self.0.write_bytes(&mut out);
        proof {
            assert(out@ =~= seq![DbKeyPrefix::ActionStaged.byte_spec()] + bytes32_be(self.0));
        }
        out
    }
}

/// Encoding of an account balance: the unlocked msats, then a side tag,
/// then the locked msats when a side is locked.
pub open spec fn balance_enc(b: AccountBalance) -> Seq<u8> {
    u64_be(b.unlocked) + (match b.locked {
        LockedBalance::Seeker(v) => seq![0u8] + u64_be(v),
        LockedBalance::Provider(v) => seq![1u8] + u64_be(v),
        LockedBalance::Vacant => seq![2u8],
    })
}

/// The balance read back from its encoding; `None` for malformed bytes.
pub open spec fn balance_dec(s: Seq<u8>) -> Option<AccountBalance> {
    if s.len() < 9 {
        None
    } else {
        let unlocked = u64_of_be(s.subrange(0, 8));
        if s[8] == 0u8 && s.len() == 17 {
            Some(
                AccountBalance {
                    unlocked,
                    locked: LockedBalance::Seeker(u64_of_be(s.subrange(9, 17))),
                },
            )
        } else if s[8] == 1u8 && s.len() == 17 {
            Some(
                AccountBalance {
                    unlocked,
                    locked: LockedBalance::Provider(u64_of_be(s.subrange(9, 17))),
                },
            )
        } else if s[8] == 2u8 && s.len() == 9 {
            Some(AccountBalance { unlocked, locked: LockedBalance::Vacant })
        } else {
            None
        }
    }
}

/// Decoding an encoded balance yields the balance.
pub proof fn lemma_balance_round_trip(b: AccountBalance)
    ensures
        balance_dec(balance_enc(b)) == Some(b),
{
    let s = balance_enc(b);
    lemma_u64_be_round_trip(b.unlocked);
    assert(s.subrange(0, 8) =~= u64_be(b.unlocked));
    match b.locked {
        LockedBalance::Seeker(v) => {
            lemma_u64_be_round_trip(v);
            assert(s.subrange(9, 17) =~= u64_be(v));
        },
        LockedBalance::Provider(v) => {
            lemma_u64_be_round_trip(v);
            assert(s.subrange(9, 17) =~= u64_be(v));
        },
        LockedBalance::Vacant => {},
    }
}

/// Writes [`balance_enc`].
pub fn balance_encode(b: &AccountBalance) -> (r: Vec<u8>)
    ensures
        r@ == balance_enc(*b),
{
    let mut out: Vec<u8> = Vec::new();
    crate::words::u64_write_be(b.unlocked, &mut out);
    match b.locked {
        LockedBalance::Seeker(v) => {
            out.push(0);
            crate::words::u64_write_be(v, &mut out);
        },
        LockedBalance::Provider(v) => {
            out.push(1);
            crate::words::u64_write_be(v, &mut out);
        },
        LockedBalance::Vacant => {
            out.push(2);
        },
    }
    proof {
        assert(out@ =~= balance_enc(*b));
    }
    out
}

/// Reads [`balance_dec`].
pub fn balance_decode(bytes: &Vec<u8>) -> (r: Option<AccountBalance>)
    ensures
        r == balance_dec(bytes@),
{
    let n = bytes.len();
    if n < 9 {
        return None;
    }
    let unlocked = crate::words::u64_read_be(bytes, 0);
    let tag = bytes[8];
    if tag == 0 && n == 17 {
        let v = crate::words::u64_read_be(bytes, 9);
        Some(AccountBalance { unlocked, locked: LockedBalance::Seeker(v) })
    } else if tag == 1 && n == 17 {
        let v = crate::words::u64_read_be(bytes, 9);
        Some(AccountBalance { unlocked, locked: LockedBalance::Provider(v) })
    } else if tag == 2 && n == 9 {
        Some(AccountBalance { unlocked, locked: LockedBalance::Vacant })
    } else {
        None
    }
}

/// Encoding of an epoch outcome: fee rate, both totals, then the settled
/// price behind a presence tag.
pub open spec fn outcome_enc(o: EpochOutcome) -> Seq<u8> {
    u64_be(o.feerate.ppm) + u64_be(o.seeker_total) + u64_be(o.provider_total) + (
    match o.settled_price {
        Some(p) => seq![1u8] + u64_be(p),
        None => seq![0u8],
    })
}

/// The outcome read back from its encoding; `None` for malformed bytes.
pub open spec fn outcome_dec(s: Seq<u8>) -> Option<EpochOutcome> {
    if s.len() < 25 {
        None
    } else {
        let feerate = Feerate { ppm: u64_of_be(s.subrange(0, 8)) };
        let seeker_total = u64_of_be(s.subrange(8, 16));
        let provider_total = u64_of_be(s.subrange(16, 24));
        if s[24] == 1u8 && s.len() == 33 {
            Some(
                EpochOutcome {
                    feerate,
                    seeker_total,
                    provider_total,
                    settled_price: Some(u64_of_be(s.subrange(25, 33))),
                },
            )
        } else if s[24] == 0u8 && s.len() == 25 {
            Some(EpochOutcome { feerate, seeker_total, provider_total, settled_price: None })
        } else {
            None
        }
    }
}

/// Decoding an encoded outcome yields the outcome.
pub proof fn lemma_outcome_round_trip(o: EpochOutcome)
    ensures
        outcome_dec(outcome_enc(o)) == Some(o),
{
    let s = outcome_enc(o);
    lemma_u64_be_round_trip(o.feerate.ppm);
    lemma_u64_be_round_trip(o.seeker_total);
    lemma_u64_be_round_trip(o.provider_total);
    assert(s.subrange(0, 8) =~= u64_be(o.feerate.ppm));
    assert(s.subrange(8, 16) =~= u64_be(o.seeker_total));
    assert(s.subrange(16, 24) =~= u64_be(o.provider_total));
    match o.settled_price {
        Some(p) => {
            lemma_u64_be_round_trip(p);
            assert(s.subrange(25, 33) =~= u64_be(p));
        },
        None => {},
    }
}

/// Writes [`outcome_enc`].
pub fn outcome_encode(o: &EpochOutcome) -> (r: Vec<u8>)
    ensures
        r@ == outcome_enc(*o),
{
    let mut out: Vec<u8> = Vec::new();
    crate::words::u64_write_be(o.feerate.ppm, &mut out);
    crate::words::u64_write_be(o.seeker_total, &mut out);
    crate::words::u64_write_be(o.provider_total, &mut out);
    match o.settled_price {
        Some(p) => {
            out.push(1);
            crate::words::u64_write_be(p, &mut out);
        },
        None => {
            out.push(0);
        },
    }
    proof {
        assert(out@ =~= outcome_enc(*o));
    }
    out
}

/// Reads [`outcome_dec`].
pub fn outcome_decode(bytes: &Vec<u8>) -> (r: Option<EpochOutcome>)
    ensures
        r == outcome_dec(bytes@),
{
    let n = bytes.len();
    if n < 25 {
        return None;
    }
    let feerate = Feerate { ppm: crate::words::u64_read_be(bytes, 0) };
    let seeker_total = crate::words::u64_read_be(bytes, 8);
    let provider_total = crate::words::u64_read_be(bytes, 16);
    let tag = bytes[24];
    if tag == 1 && n == 33 {
        let p = crate::words::u64_read_be(bytes, 25);
        Some(EpochOutcome { feerate, seeker_total, provider_total, settled_price: Some(p) })
    } else if tag == 0 && n == 25 {
        Some(EpochOutcome { feerate, seeker_total, provider_total, settled_price: None })
    } else {
        None
    }
}

/// Encoding of an epoch-end vote: the epoch id, then the price behind a
/// presence tag. Votes without a price are never emitted, so the tag is
/// always present on encoding.
pub open spec fn epoch_end_enc(e: EpochEnd) -> Seq<u8> {
    u64_be(e.epoch_id) + seq![1u8] + u64_be(e.price)
}

/// The vote read back from its encoding; a missing price is rejected.
pub open spec fn epoch_end_dec(s: Seq<u8>) -> Option<EpochEnd> {
    if s.len() == 17 && s[8] == 1u8 {
        Some(EpochEnd { epoch_id: u64_of_be(s.subrange(0, 8)), price: u64_of_be(s.subrange(9, 17)) })
    } else {
        None
    }
}

/// Decoding an encoded vote yields the vote.
pub proof fn lemma_epoch_end_round_trip(e: EpochEnd)
    ensures
        epoch_end_dec(epoch_end_enc(e)) == Some(e),
{
    let s = epoch_end_enc(e);
    lemma_u64_be_round_trip(e.epoch_id);
    lemma_u64_be_round_trip(e.price);
    assert(s.subrange(0, 8) =~= u64_be(e.epoch_id));
    assert(s.subrange(9, 17) =~= u64_be(e.price));
}

/// Writes [`epoch_end_enc`].
pub fn epoch_end_encode(e: &EpochEnd) -> (r: Vec<u8>)
    ensures
        r@ == epoch_end_enc(*e),
{
    let mut out: Vec<u8> = Vec::new();
    crate::words::u64_write_be(e.epoch_id, &mut out);
    out.push(1);
    crate::words::u64_write_be(e.price, &mut out);
    proof {
        assert(out@ =~= epoch_end_enc(*e));
    }
    out
}

/// Reads [`epoch_end_dec`].
pub fn epoch_end_decode(bytes: &Vec<u8>) -> (r: Option<EpochEnd>)
    ensures
        r == epoch_end_dec(bytes@),
{
    if bytes.len() == 17 {
        let tag = bytes[8];
        if tag == 1 {
            let epoch_id = crate::words::u64_read_be(bytes, 0);
            let price = crate::words::u64_read_be(bytes, 9);
            return Some(EpochEnd { epoch_id, price });
        }
    }
    None
}

/// The action read back from its canonical encoding; `None` for malformed
/// bytes.
pub open spec fn action_dec(s: Seq<u8>) -> Option<Action> {
    if s.len() < 49 {
        None
    } else {
        let epoch_id = u64_of_be(s.subrange(0, 8));
        let sequence = u64_of_be(s.subrange(8, 16));
        let account_id = Bytes32 {
            w0: u64_of_be(s.subrange(16, 24)),
            w1: u64_of_be(s.subrange(24, 32)),
            w2: u64_of_be(s.subrange(32, 40)),
            w3: u64_of_be(s.subrange(40, 48)),
        };
        if s[48] == 0u8 && s.len() == 57 {
            Some(
                Action {
                    epoch_id,
                    sequence,
                    account_id,
                    body: ActionBody::Seeker(
                        SeekerAction::Lock { amount: u64_of_be(s.subrange(49, 57)) },
                    ),
                },
            )
        } else if s[48] == 1u8 && s.len() == 57 {
            Some(
                Action {
                    epoch_id,
                    sequence,
                    account_id,
                    body: ActionBody::Seeker(
                        SeekerAction::Unlock { amount: u64_of_be(s.subrange(49, 57)) },
                    ),
                },
            )
        } else if s[48] == 2u8 && s.len() == 65 {
            Some(
                Action {
                    epoch_id,
                    sequence,
                    account_id,
                    body: ActionBody::Provider(
                        ProviderBid {
                            max_amount: u64_of_be(s.subrange(49, 57)),
                            min_feerate: u64_of_be(s.subrange(57, 65)),
                        },
                    ),
                },
            )
        } else {
            None
        }
    }
}

/// Decoding a canonically encoded action yields the action.
pub proof fn lemma_action_round_trip(a: Action)
    ensures
        action_dec(action_enc(a)) == Some(a),
{
    let s = action_enc(a);
    lemma_u64_be_round_trip(a.epoch_id);
    lemma_u64_be_round_trip(a.sequence);
    lemma_u64_be_round_trip(a.account_id.w0);
    lemma_u64_be_round_trip(a.account_id.w1);
    lemma_u64_be_round_trip(a.account_id.w2);
    lemma_u64_be_round_trip(a.account_id.w3);
    assert(s.subrange(0, 8) =~= u64_be(a.epoch_id));
    assert(s.subrange(8, 16) =~= u64_be(a.sequence));
    assert(s.subrange(16, 24) =~= u64_be(a.account_id.w0));
    assert(s.subrange(24, 32) =~= u64_be(a.account_id.w1));
    assert(s.subrange(32, 40) =~= u64_be(a.account_id.w2));
    assert(s.subrange(40, 48) =~= u64_be(a.account_id.w3));
    match a.body {
        ActionBody::Seeker(SeekerAction::Lock { amount }) => {
            lemma_u64_be_round_trip(amount);
            assert(s.subrange(49, 57) =~= u64_be(amount));
        },
        ActionBody::Seeker(SeekerAction::Unlock { amount }) => {
            lemma_u64_be_round_trip(amount);
            assert(s.subrange(49, 57) =~= u64_be(amount));
        },
        ActionBody::Provider(bid) => {
            lemma_u64_be_round_trip(bid.max_amount);
            lemma_u64_be_round_trip(bid.min_feerate);
            assert(s.subrange(49, 57) =~= u64_be(bid.max_amount));
            assert(s.subrange(57, 65) =~= u64_be(bid.min_feerate));
        },
    }
}

/// Reads [`action_dec`].
pub fn action_decode(bytes: &Vec<u8>) -> (r: Option<Action>)
    ensures
        r == action_dec(bytes@),
{
    let n = bytes.len();
    if n < 49 {
        return None;
    }
    let epoch_id = crate::words::u64_read_be(bytes, 0);
    let sequence = crate::words::u64_read_be(bytes, 8);
    let account_id = Bytes32 {
        w0: crate::words::u64_read_be(bytes, 16),
        w1: crate::words::u64_read_be(bytes, 24),
        w2: crate::words::u64_read_be(bytes, 32),
        w3: crate::words::u64_read_be(bytes, 40),
    };
    let tag = bytes[48];
    if tag == 0 && n == 57 {
        let amount = crate::words::u64_read_be(bytes, 49);
        Some(
            Action {
                epoch_id,
                sequence,
                account_id,
                body: ActionBody::Seeker(SeekerAction::Lock { amount }),
            },
        )
    } else if tag == 1 && n == 57 {
        let amount = crate::words::u64_read_be(bytes, 49);
        Some(
            Action {
                epoch_id,
                sequence,
                account_id,
                body: ActionBody::Seeker(SeekerAction::Unlock { amount }),
            },
        )
    } else if tag == 2 && n == 65 {
        let max_amount = crate::words::u64_read_be(bytes, 49);
        let min_feerate = crate::words::u64_read_be(bytes, 57);
        Some(
            Action {
                epoch_id,
                sequence,
                account_id,
                body: ActionBody::Provider(ProviderBid { max_amount, min_feerate }),
            },
        )
    } else {
        None
    }
}

/// Encoding of a staged action: the 64-byte signature, then the canonical
/// action encoding.
pub open spec fn staged_enc(st: ActionStaged) -> Seq<u8>
    recommends
        st.signature@.len() == 64,
{
    st.signature@ + action_enc(st.action)
}

/// The signature bytes and action read back from a staged-action encoding.
pub open spec fn staged_dec(s: Seq<u8>) -> Option<(Seq<u8>, Action)> {
    if s.len() < 64 {
        None
    } else {
        match action_dec(s.skip(64)) {
            Some(a) => Some((s.take(64), a)),
            None => None,
        }
    }
}

/// Decoding an encoded staged action yields its signature and action.
pub proof fn lemma_staged_round_trip(st: ActionStaged)
    requires
        st.signature@.len() == 64,
    ensures
        staged_dec(staged_enc(st)) == Some((st.signature@, st.action)),
{
    let s = staged_enc(st);
    assert(s.skip(64) =~= action_enc(st.action));
    lemma_action_round_trip(st.action);
    assert(s.take(64) =~= st.signature@);
}

/// Writes [`staged_enc`].
pub fn staged_encode(st: &ActionStaged) -> (r: Vec<u8>)
    ensures
        r@ == staged_enc(*st),
{
    let mut out: Vec<u8> = Vec::new();
    let nsig = st.signature.len();
    let mut i: usize = 0;
    while i < nsig
        invariant
            i <= nsig,
            nsig == st.signature@.len(),
            out@ == st.signature@.take(i as int),
        decreases nsig - i,
    {
        out.push(st.signature[i]);
        proof {
            assert(out@ =~= st.signature@.take(i as int + 1));
        }
        i = i + 1;
    }
    proof {
        assert(out@ =~= st.signature@);
    }
    st.action.write_enc(&mut out);
    out
}

/// Reads [`staged_dec`].
pub fn staged_decode(bytes: &Vec<u8>) -> (r: Option<ActionStaged>)
    ensures
        match r {
            Some(st) => staged_dec(bytes@) == Some((st.signature@, st.action)),
            None => staged_dec(bytes@) is None,
        },
{
    let n = bytes.len();
    if n < 64 {
        return None;
    }
    let mut tail: Vec<u8> = Vec::new();
    let mut i: usize = 64;
    while i < n
        invariant
            64 <= i <= n,
            n == bytes@.len(),
            tail@ == bytes@.subrange(64, i as int),
        decreases n - i,
    {
        tail.push(bytes[i]);
        proof {
            assert(tail@ =~= bytes@.subrange(64, i as int + 1));
        }
        i = i + 1;
    }
    proof {
        assert(tail@ =~= bytes@.skip(64));
    }
    let action = match action_decode(&tail) {
        Some(a) => a,
        None => {
            return None;
        },
    };
    let mut sig: Vec<u8> = Vec::new();
    let mut j: usize = 0;
    while j < 64
        invariant
            j <= 64,
            n == bytes@.len(),
            n >= 64,
            sig@ == bytes@.subrange(0, j as int),
        decreases 64 - j,
    {
        sig.push(bytes[j]);
        proof {
            assert(sig@ =~= bytes@.subrange(0, j as int + 1));
        }
        j = j + 1;
    }
    proof {
        assert(sig@ =~= bytes@.take(64));
    }
    Some(ActionStaged { signature: sig, action })
}

} // verus!
