//! Signed user actions staged for the next epoch.
//!
//! An account submits at most one action per staging epoch; resubmissions
//! must carry a strictly larger sequence number. Actions are Schnorr-signed
//! over the canonical binary encoding of the unsigned action.

use vstd::prelude::*;
use crate::words::AccountId;
use crate::words::bytes32_be;
use crate::words::u64_be;

verus! {

/// A seeker moves msats between the unlocked balance and a seeker position.
#[derive(Clone, Copy, Debug, PartialEq, Eq, Structural, Hash)]
pub enum SeekerAction {
    /// Move `amount` msats from unlocked into the seeker position.
    Lock { amount: u64 },
    /// Move `amount` msats from the seeker position back to unlocked.
    Unlock { amount: u64 },
}

/// A provider offers up to `max_amount` msats of collateral at any fee rate
/// of at least `min_feerate` parts per million per epoch.
#[derive(Clone, Copy, Debug, PartialEq, Eq, Structural, Hash)]
pub struct ProviderBid {
    pub max_amount: u64,
    pub min_feerate: u64,
}

/// What an action asks for: one of the two seeker moves, or a provider bid.
#[derive(Clone, Copy, Debug, PartialEq, Eq, Structural, Hash)]
pub enum ActionBody {
    Seeker(SeekerAction),
    Provider(ProviderBid),
}

/// An unsigned action: who asks for what, in which staging epoch, with a
/// per-epoch sequence number that orders resubmissions.
#[derive(Clone, Copy, Debug, PartialEq, Eq, Structural, Hash)]
pub struct Action {
    pub epoch_id: u64,
    pub sequence: u64,
    pub account_id: AccountId,
    pub body: ActionBody,
}

/// An action as submitted: the unsigned action plus a 64-byte Schnorr
/// signature over the canonical encoding of the action.
#[derive(Debug)]
pub struct ActionProposed {
    pub signature: Vec<u8>,
    pub action: Action,
}

/// An action accepted through consensus and persisted for the next epoch.
#[derive(Debug)]
pub struct ActionStaged {
    pub signature: Vec<u8>,
    pub action: Action,
}

impl Clone for ActionProposed {
    /// An exact copy.
    fn clone(&self) -> (r: Self)
        ensures
            r.signature@ == self.signature@,
            r.action == self.action,
    {
        ActionProposed { signature: self.signature.clone(), action: self.action }
    }
}

impl Clone for ActionStaged {
    /// An exact copy.
    fn clone(&self) -> (r: Self)
        ensures
            r.signature@ == self.signature@,
            r.action == self.action,
    {
        ActionStaged { signature: self.signature.clone(), action: self.action }
    }
}

impl ActionProposed {
    /// The signature is 64 bytes and verifies over the SHA-256 digest of
    /// the canonical action encoding, against the signer's x-only key.
    pub open spec fn sig_ok_spec(self) -> bool {
        &&& self.signature@.len() == 64
        &&& crate::crypto::schnorr_ok(
            self.signature@,
            crate::crypto::sha256_of(action_enc(self.action)),
            bytes32_be(self.action.account_id),
        )
    }

    /// Checks the action's Schnorr signature.
    pub fn verify_signature(&self) -> (r: bool)
        ensures
            r == self.sig_ok_spec(),
    {
        if self.signature.len() != 64 {
            return false;
        }
        let encoded = self.action.encode();
        let digest = crate::crypto::sha256(&encoded);
        let pk = self.action.account_id.to_bytes();
        crate::crypto::schnorr_verify(&self.signature, &digest, &pk)
    }

    /// The account that signed the action.
    pub fn account_id(&self) -> (r: AccountId)
        ensures
            r == self.action.account_id,
    {
        self.action.account_id
    }

    /// The staging epoch the action was submitted for.
    pub fn epoch_id(&self) -> (r: u64)
        ensures
            r == self.action.epoch_id,
    {
        self.action.epoch_id
    }

    /// The resubmission sequence number.
    pub fn sequence(&self) -> (r: u64)
        ensures
            r == self.action.sequence,
    {
        self.action.sequence
    }

    /// The persisted form of the proposal.
    pub fn to_staged(&self) -> (r: ActionStaged)
        ensures
            r.signature@ == self.signature@,
            r.action == self.action,
    {
        ActionStaged { signature: self.signature.clone(), action: self.action }
    }
}

impl ActionStaged {
    /// The account the staged action belongs to.
    pub fn account_id(&self) -> (r: AccountId)
        ensures
            r == self.action.account_id,
    {
        self.action.account_id
    }

    /// The staging epoch the action was accepted for.
    pub fn epoch_id(&self) -> (r: u64)
        ensures
            r == self.action.epoch_id,
    {
        self.action.epoch_id
    }

    /// The resubmission sequence number.
    pub fn sequence(&self) -> (r: u64)
        ensures
            r == self.action.sequence,
    {
        self.action.sequence
    }
}

/// The volatile pool of signed actions awaiting inclusion in consensus:
/// at most one per account, always the newest accepted submission.
pub struct ActionProposedDb {
    pub entries: Vec<(AccountId, ActionProposed)>,
}

impl ActionProposedDb {
    /// Keys are unique and each entry is filed under its signer.
    pub open spec fn wf(self) -> bool {
        &&& crate::table::tbl_wf(self.entries@)
        &&& forall|i: int|
            0 <= i < self.entries@.len() ==> (#[trigger] self.entries@[i]).1.action.account_id
                == self.entries@[i].0
    }

    /// An empty pool.
    pub fn new() -> (r: Self)
        ensures
            r.wf(),
            r.entries@.len() == 0,
    {
        ActionProposedDb { entries: Vec::new() }
    }

    /// The pending proposal of `account`, if any.
    pub fn get(&self, account: &AccountId) -> (r: Option<&ActionProposed>)
        requires
            self.wf(),
        ensures
            match r {
                Some(p) => crate::table::tbl_get(self.entries@, *account) == Some(*p),
                None => crate::table::tbl_get(self.entries@, *account) is None,
            },
    {
        crate::table::tbl_find(&self.entries, account)
    }

    /// Files `proposal` under its signer, replacing any earlier proposal.
    pub fn insert(&mut self, proposal: ActionProposed)
        requires
            old(self).wf(),
        ensures
            final(self).wf(),
            crate::table::tbl_get(final(self).entries@, proposal.action.account_id) == Some(
                proposal,
            ),
            forall|a: AccountId|
                a != proposal.action.account_id ==> crate::table::tbl_get(
                    final(self).entries@,
                    a,
                ) == crate::table::tbl_get(old(self).entries@, a),
    {
        let account = proposal.action.account_id;
        let ghost pre = self.entries@;
        crate::table::tbl_set(&mut self.entries, account, proposal);
        proof {
            assert forall|i: int| 0 <= i < self.entries@.len() implies (#[trigger] self.entries@[
            i]).1.action.account_id == self.entries@[i].0 by {
                if crate::table::tbl_has(pre, account) {
                    let j = crate::table::tbl_idx(pre, account);
                    if i != j {
                        assert(self.entries@[i] == pre[i]);
                    }
                } else {
                    if i < pre.len() {
                        assert(self.entries@[i] == pre[i]);
                    }
                }
            }
        }
    }

    /// Drops the pending proposal of `account`, if any.
    pub fn remove(&mut self, account: &AccountId)
        requires
            old(self).wf(),
        ensures
            final(self).wf(),
            crate::table::tbl_get(final(self).entries@, *account) is None,
            forall|a: AccountId|
                a != *account ==> crate::table::tbl_get(final(self).entries@, a)
                    == crate::table::tbl_get(old(self).entries@, a),
    {
        let ghost pre = self.entries@;
        crate::table::tbl_remove(&mut self.entries, account);
        proof {
            assert forall|i: int| 0 <= i < self.entries@.len() implies (#[trigger] self.entries@[
            i]).1.action.account_id == self.entries@[i].0 by {
                if crate::table::tbl_has(pre, *account) {
                    let j = crate::table::tbl_idx(pre, *account);
                    let i0 = if i < j {
                        i
                    } else {
                        i + 1
                    };
                    assert(self.entries@[i] == pre[i0]);
                } else {
                    assert(self.entries@[i] == pre[i]);
                }
            }
        }
    }

    /// A snapshot of all pending proposals, in table order.
    pub fn items(&self) -> (r: Vec<ActionProposed>)
        requires
            self.wf(),
        ensures
            r@.len() == self.entries@.len(),
            forall|i: int|
                0 <= i < r@.len() ==> (#[trigger] r@[i]).action == self.entries@[i].1.action
                    && r@[i].signature@ == self.entries@[i].1.signature@,
    {
        let n = self.entries.len();
        let mut out: Vec<ActionProposed> = Vec::new();
        let mut i: usize = 0;
        while i < n
            invariant
                n == self.entries@.len(),
                i <= n,
                out@.len() == i,
                forall|j: int|
                    0 <= j < i ==> (#[trigger] out@[j]).action == self.entries@[j].1.action
                        && out@[j].signature@ == self.entries@[j].1.signature@,
            decreases n - i,
        {
            out.push(self.entries[i].1.clone());
            i = i + 1;
        }
        out
    }
}

/// Whether any pending proposal is waiting for inclusion in consensus.
pub fn can_propose(proposed_db: &ActionProposedDb) -> (r: bool)
    ensures
        r == (proposed_db.entries@.len() > 0),
{
    proposed_db.entries.len() > 0
}

/// How one relayed action is classified at consensus time.
pub open spec fn process_action_outcome_spec(s: crate::state::PoolState, item: ActionProposed) -> crate::ConsensusItemOutcome {
    if !item.sig_ok_spec() {
        crate::ConsensusItemOutcome::Banned(crate::BanReason::BadSignature)
    } else if item.action.epoch_id != s.staging_spec() {
        crate::ConsensusItemOutcome::Ignored(crate::IgnoreReason::WrongEpoch)
    } else {
        match crate::table::tbl_get(s.staged@, item.action.account_id) {
            Some(prev) => if prev.action.epoch_id == item.action.epoch_id && prev.action.sequence
                >= item.action.sequence {
                crate::ConsensusItemOutcome::Ignored(crate::IgnoreReason::Superseded)
            } else {
                crate::ConsensusItemOutcome::Applied
            },
            None => crate::ConsensusItemOutcome::Applied,
        }
    }
}

/// Applies one relayed action at consensus time.
///
/// A bad signature is a protocol violation; an action for the wrong epoch
/// or one not beating the staged sequence number is ignored without any
/// state change; otherwise the action is persisted as the account's staged
/// action and the account's pending proposal, if any, is dropped.
pub fn process_action(
    state: &mut crate::state::PoolState,
    proposed_db: &mut ActionProposedDb,
    item: ActionProposed,
) -> (r: crate::ConsensusItemOutcome)
    requires
        old(state).wf(),
        old(proposed_db).wf(),
    ensures
        final(state).wf(),
        final(proposed_db).wf(),
        r == process_action_outcome_spec(*old(state), item),
        final(state).accounts@ == old(state).accounts@,
        final(state).deposits@ == old(state).deposits@,
        final(state).outcomes@ == old(state).outcomes@,
        final(state).last_ended == old(state).last_ended,
        final(state).last_settled == old(state).last_settled,
        final(state).votes@ == old(state).votes@,
        !(r is Applied) ==> final(state).staged@ == old(state).staged@
            && final(proposed_db).entries@ == old(proposed_db).entries@,
        r is Applied ==> {
            &&& crate::table::tbl_get(final(state).staged@, item.action.account_id) matches Some(
                st,
            ) && st.action == item.action && st.signature@ == item.signature@
            &&& forall|a: AccountId|
                a != item.action.account_id ==> crate::table::tbl_get(final(state).staged@, a)
                    == crate::table::tbl_get(old(state).staged@, a)
            &&& crate::table::tbl_get(final(proposed_db).entries@, item.action.account_id) is None
            &&& forall|a: AccountId|
                a != item.action.account_id ==> crate::table::tbl_get(
                    final(proposed_db).entries@,
                    a,
                ) == crate::table::tbl_get(old(proposed_db).entries@, a)
            &&& match crate::table::tbl_get(old(state).staged@, item.action.account_id) {
                Some(prev) => item.action.sequence > prev.action.sequence,
                None => true,
            }
        },
{
    if !item.verify_signature() {
        return crate::ConsensusItemOutcome::Banned(crate::BanReason::BadSignature);
    }
    let staging = state.staging_epoch_id();
    if item.action.epoch_id != staging {
        return crate::ConsensusItemOutcome::Ignored(crate::IgnoreReason::WrongEpoch);
    }
    let account = item.action.account_id;
    match crate::table::tbl_find(&state.staged, &account) {
        Some(prev) => {
            if prev.action.epoch_id == item.action.epoch_id && prev.action.sequence
                >= item.action.sequence {
                return crate::ConsensusItemOutcome::Ignored(crate::IgnoreReason::Superseded);
            }
        },
        None => (),
    }
    let ghost pre = state.staged@;
    crate::table::tbl_set(&mut state.staged, account, item.to_staged());
    proof {
        assert forall|i: int| 0 <= i < state.staged@.len() implies {
            &&& (#[trigger] state.staged@[i]).1.action.account_id == state.staged@[i].0
            &&& state.staged@[i].1.action.epoch_id == state.last_ended + 2
        } by {
            if crate::table::tbl_has(pre, account) {
                let j = crate::table::tbl_idx(pre, account);
                if i != j {
                    assert(state.staged@[i] == pre[i]);
                }
            } else {
                if i < pre.len() {
                    assert(state.staged@[i] == pre[i]);
                }
            }
        }
    }
    proposed_db.remove(&account);
    crate::ConsensusItemOutcome::Applied
}

/// Tag byte of each action body in the canonical encoding.
pub open spec fn body_tag(b: ActionBody) -> u8 {
    match b {
        ActionBody::Seeker(SeekerAction::Lock { .. }) => 0u8,
        ActionBody::Seeker(SeekerAction::Unlock { .. }) => 1u8,
        ActionBody::Provider(..) => 2u8,
    }
}

/// Canonical encoding of an action body: its tag byte, then its fields as
/// big-endian `u64`s (all fields are fixed width, so no length prefixes are
/// needed).
pub open spec fn body_enc(b: ActionBody) -> Seq<u8> {
    match b {
        ActionBody::Seeker(SeekerAction::Lock { amount }) => seq![0u8] + u64_be(amount),
        ActionBody::Seeker(SeekerAction::Unlock { amount }) => seq![1u8] + u64_be(amount),
        ActionBody::Provider(bid) => seq![2u8] + u64_be(bid.max_amount) + u64_be(bid.min_feerate),
    }
}

/// Canonical encoding of an unsigned action, the bytes that are signed:
/// epoch id, sequence, account id, then the body.
pub open spec fn action_enc(a: Action) -> Seq<u8> {
    u64_be(a.epoch_id) + u64_be(a.sequence) + bytes32_be(a.account_id) + body_enc(a.body)
}

impl Action {
    /// Appends the canonical encoding of the action to `out`.
    pub fn write_enc(&self, out: &mut Vec<u8>)
        ensures
            final(out)@ == old(out)@ + action_enc(*self),
    {
        crate::words::u64_write_be(self.epoch_id, out);
        crate::words::u64_write_be(self.sequence, out);
        self.account_id.write_bytes(out);
        match self.body {
            ActionBody::Seeker(SeekerAction::Lock { amount }) => {
                out.push(0u8);
                crate::words::u64_write_be(amount, out);
            },
            ActionBody::Seeker(SeekerAction::Unlock { amount }) => {
                out.push(1u8);
                crate::words::u64_write_be(amount, out);
            },
            ActionBody::Provider(bid) => {
                out.push(2u8);
                crate::words::u64_write_be(bid.max_amount, out);
                crate::words::u64_write_be(bid.min_feerate, out);
            },
        }
        proof {
            assert(out@ =~= old(out)@ + action_enc(*self));
        }
    }

    /// The canonical encoding as a fresh vector.
    pub fn encode(&self) -> (r: Vec<u8>)
        ensures
            r@ == action_enc(*self),
    {
        let mut out: Vec<u8> = Vec::new();
        self.write_enc(&mut out);
        out
    }
}

} // verus!
