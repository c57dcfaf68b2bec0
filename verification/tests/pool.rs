//! Scenario tests of the ledger, the epoch state machine, action staging
//! and a full settlement cycle, with real signatures.

use stabilitypool::account::AccountBalance;
use stabilitypool::account::AccountDeposit;
use stabilitypool::account::AccountWithdrawal;
use stabilitypool::account::LockedBalance;
use stabilitypool::action::Action;
use stabilitypool::action::ActionBody;
use stabilitypool::action::ActionProposed;
use stabilitypool::action::ActionProposedDb;
use stabilitypool::action::ProviderBid;
use stabilitypool::action::SeekerAction;
use stabilitypool::action::process_action;
use stabilitypool::api;
use stabilitypool::api::ApiError;
use stabilitypool::config::EpochConfig;
use stabilitypool::epoch::EpochEnd;
use stabilitypool::epoch::process_epoch_end;
use stabilitypool::stability_core::CollateralRatio;
use stabilitypool::state::PoolState;
use stabilitypool::words::Bytes32;
use stabilitypool::BanReason;
use stabilitypool::ConsensusItemOutcome;
use stabilitypool::IgnoreReason;
use stabilitypool::OutPoint;
use stabilitypool::PoolOutputOutcome;
use stabilitypool::StabilityPoolError;
use stabilitypool::WithdrawalError;

fn acct(n: u64) -> Bytes32 {
    Bytes32 { w0: 0, w1: 0, w2: 0, w3: n }
}

fn outpoint(n: u64) -> OutPoint {
    OutPoint { txid: acct(1000 + n), out_idx: 0 }
}

fn test_config() -> EpochConfig {
    EpochConfig {
        start_epoch_at: 0,
        epoch_length: 1_000_000,
        price_threshold: 3,
        max_feerate_ppm: 100_000,
        collateral_ratio: CollateralRatio { numer: 1, denom: 1 },
    }
}

/// A signing identity: a fixed secret key and the account id of its
/// x-only public key.
struct Signer {
    keypair: secp256k1::Keypair,
    account: Bytes32,
}

fn signer(seed: u8) -> Signer {
    let mut sk = [0u8; 32];
    sk[31] = seed;
    let keypair = secp256k1::Keypair::from_seckey_slice(&sk).expect("valid secret key");
    let (xonly, _) = keypair.x_only_public_key();
    let account = Bytes32::from_bytes(&xonly.serialize().to_vec());
    Signer { keypair, account }
}

fn sign_action(signer: &Signer, action: Action) -> ActionProposed {
    let encoded = action.encode();
    let digest = <bitcoin::hashes::sha256::Hash as bitcoin::hashes::Hash>::hash(&encoded);
    let digest_bytes =
        <bitcoin::hashes::sha256::Hash as bitcoin::hashes::Hash>::to_byte_array(digest);
    let sig = secp256k1::schnorr::sign_no_aux_rand(&digest_bytes, &signer.keypair);
    ActionProposed { signature: sig.to_byte_array().to_vec(), action }
}

#[test]
fn deposit_path() {
    let mut state = PoolState::new_empty();
    let a = acct(1);
    let o1 = outpoint(1);
    let r = state.apply_output(&AccountDeposit { account: a, amount: 1_000_000 }, o1);
    assert!(r.is_ok());
    let resp = api::account(&state, a);
    assert_eq!(resp.unlocked, 1_000_000);
    assert!(resp.locked.is_none());
    assert_eq!(state.output_status(o1), Some(PoolOutputOutcome(a)));
}

#[test]
fn deposit_overflow_guard() {
    let mut state = PoolState::new_empty();
    let a = acct(1);
    state
        .apply_output(&AccountDeposit { account: a, amount: u64::MAX - 5 }, outpoint(1))
        .expect("first deposit fits");
    let r = state.validate_output(&AccountDeposit { account: a, amount: 10 });
    assert_eq!(r, Err(StabilityPoolError::DepositTooLarge));
    // Nothing changed.
    assert_eq!(api::account(&state, a).unlocked, u64::MAX - 5);
}

#[test]
fn withdraw_gating() {
    let mut state = PoolState::new_empty();
    let a = acct(1);
    state
        .apply_output(&AccountDeposit { account: a, amount: 100 }, outpoint(1))
        .expect("deposit succeeds");
    let r = state.validate_input(&AccountWithdrawal { account: a, amount: 101 });
    assert_eq!(r, Err(WithdrawalError::UnavailableFunds { amount: 101, available: 100 }));
}

#[test]
fn deposit_then_equal_withdraw_restores_balance() {
    let mut state = PoolState::new_empty();
    let a = acct(1);
    state
        .apply_output(&AccountDeposit { account: a, amount: 700 }, outpoint(1))
        .expect("deposit succeeds");
    let before = api::account(&state, a);
    state
        .apply_output(&AccountDeposit { account: a, amount: 55 }, outpoint(2))
        .expect("deposit succeeds");
    state.apply_input(&AccountWithdrawal { account: a, amount: 55 }).expect("withdrawal succeeds");
    let after = api::account(&state, a);
    assert_eq!(before, after);
}

#[test]
fn epoch_finalization_uses_median() {
    let mut state = PoolState::new_empty();
    let cfg = test_config();
    let prices = [9_800u64, 10_000, 10_200];
    for (peer, price) in prices.iter().enumerate() {
        let r = process_epoch_end(
            &mut state,
            &cfg,
            peer as u64,
            EpochEnd { epoch_id: 1, price: *price },
        );
        assert_eq!(r, ConsensusItemOutcome::Applied);
    }
    let outcome = api::epoch_outcome(&state, 1).expect("epoch 1 settled");
    assert_eq!(outcome.settled_price, Some(10_000));
    assert_eq!(state.last_ended, 1);
    assert_eq!(state.last_settled, 1);
}

#[test]
fn even_vote_count_settles_on_lower_middle() {
    let mut state = PoolState::new_empty();
    let mut cfg = test_config();
    cfg.price_threshold = 4;
    for (peer, price) in [4u64, 1, 3, 2].iter().enumerate() {
        let r = process_epoch_end(
            &mut state,
            &cfg,
            peer as u64,
            EpochEnd { epoch_id: 1, price: *price },
        );
        assert_eq!(r, ConsensusItemOutcome::Applied);
    }
    let outcome = api::epoch_outcome(&state, 1).expect("epoch 1 settled");
    assert_eq!(outcome.settled_price, Some(2));
}

#[test]
fn double_vote_is_banned_and_first_vote_kept() {
    let mut state = PoolState::new_empty();
    let cfg = test_config();
    let p = 7u64;
    let r1 = process_epoch_end(&mut state, &cfg, p, EpochEnd { epoch_id: 1, price: 10_000 });
    assert_eq!(r1, ConsensusItemOutcome::Applied);
    let r2 = process_epoch_end(&mut state, &cfg, p, EpochEnd { epoch_id: 1, price: 10_500 });
    assert_eq!(r2, ConsensusItemOutcome::Banned(BanReason::DoubleVote));
    assert_eq!(state.votes.len(), 1);
    assert_eq!(state.votes[0].1.price, 10_000);
}

#[test]
fn stale_and_future_votes() {
    let mut state = PoolState::new_empty();
    let cfg = test_config();
    let stale = process_epoch_end(&mut state, &cfg, 0, EpochEnd { epoch_id: 0, price: 10 });
    assert_eq!(stale, ConsensusItemOutcome::Ignored(IgnoreReason::StaleEpoch));
    let future = process_epoch_end(&mut state, &cfg, 0, EpochEnd { epoch_id: 2, price: 10 });
    assert_eq!(future, ConsensusItemOutcome::Banned(BanReason::VoteFromFuture));
    assert_eq!(state.votes.len(), 0);
}

#[test]
fn action_sequencing() {
    let mut state = PoolState::new_empty();
    let mut pool = ActionProposedDb::new();
    let s = signer(1);
    let staging = state.staging_epoch_id();
    let mk = |seq: u64, amount: u64| -> ActionProposed {
        sign_action(
            &s,
            Action {
                epoch_id: staging,
                sequence: seq,
                account_id: s.account,
                body: ActionBody::Seeker(SeekerAction::Lock { amount }),
            },
        )
    };
    assert_eq!(api::propose_action(&state, &mut pool, mk(5, 500)), Ok(()));
    assert_eq!(api::propose_action(&state, &mut pool, mk(4, 600)), Err(ApiError::BadRequest));
    assert_eq!(api::propose_action(&state, &mut pool, mk(6, 700)), Ok(()));
    // The accepted resubmission reaches consensus and is persisted.
    let item = mk(6, 700);
    let r = process_action(&mut state, &mut pool, item);
    assert_eq!(r, ConsensusItemOutcome::Applied);
    assert_eq!(state.staged.len(), 1);
    assert_eq!(state.staged[0].0, s.account);
    assert_eq!(state.staged[0].1.action.sequence, 6);
    assert_eq!(
        state.staged[0].1.action.body,
        ActionBody::Seeker(SeekerAction::Lock { amount: 700 })
    );
    // A replay with the persisted sequence is ignored and changes nothing.
    let replay = process_action(&mut state, &mut pool, mk(6, 700));
    assert_eq!(replay, ConsensusItemOutcome::Ignored(IgnoreReason::Superseded));
    assert_eq!(state.staged.len(), 1);
}

#[test]
fn tampered_signature_is_banned() {
    let mut state = PoolState::new_empty();
    let mut pool = ActionProposedDb::new();
    let s = signer(1);
    let mut item = sign_action(
        &s,
        Action {
            epoch_id: state.staging_epoch_id(),
            sequence: 1,
            account_id: s.account,
            body: ActionBody::Seeker(SeekerAction::Lock { amount: 500 }),
        },
    );
    item.signature[0] ^= 1;
    let r = process_action(&mut state, &mut pool, item);
    assert_eq!(r, ConsensusItemOutcome::Banned(BanReason::BadSignature));
    assert_eq!(state.staged.len(), 0);
}

#[test]
fn wrong_epoch_action_is_ignored() {
    let mut state = PoolState::new_empty();
    let mut pool = ActionProposedDb::new();
    let s = signer(1);
    let item = sign_action(
        &s,
        Action {
            epoch_id: 99,
            sequence: 1,
            account_id: s.account,
            body: ActionBody::Seeker(SeekerAction::Lock { amount: 500 }),
        },
    );
    assert_eq!(api::propose_action(&state, &mut pool, item), Err(ApiError::BadRequest));
    let item2 = sign_action(
        &s,
        Action {
            epoch_id: 99,
            sequence: 1,
            account_id: s.account,
            body: ActionBody::Seeker(SeekerAction::Lock { amount: 500 }),
        },
    );
    let r = process_action(&mut state, &mut pool, item2);
    assert_eq!(r, ConsensusItemOutcome::Ignored(IgnoreReason::WrongEpoch));
}

#[test]
fn unknown_epoch_outcome_is_not_found() {
    let state = PoolState::new_empty();
    assert_eq!(api::epoch_outcome(&state, 42), Err(ApiError::NotFound));
}

#[test]
fn full_cycle_settles_and_conserves_msats() {
    let mut state = PoolState::new_empty();
    let mut pool = ActionProposedDb::new();
    let mut cfg = test_config();
    cfg.price_threshold = 1;
    let seeker = signer(1);
    let provider = signer(2);
    state
        .apply_output(&AccountDeposit { account: seeker.account, amount: 1000 }, outpoint(1))
        .expect("deposit succeeds");
    state
        .apply_output(&AccountDeposit { account: provider.account, amount: 1000 }, outpoint(2))
        .expect("deposit succeeds");
    assert_eq!(state.audit(), Some(2000));
    // Stage a seeker lock and a provider bid for epoch 2.
    let lock = sign_action(
        &seeker,
        Action {
            epoch_id: 2,
            sequence: 1,
            account_id: seeker.account,
            body: ActionBody::Seeker(SeekerAction::Lock { amount: 500 }),
        },
    );
    let bid = sign_action(
        &provider,
        Action {
            epoch_id: 2,
            sequence: 1,
            account_id: provider.account,
            body: ActionBody::Provider(ProviderBid { max_amount: 600, min_feerate: 100 }),
        },
    );
    assert_eq!(process_action(&mut state, &mut pool, lock), ConsensusItemOutcome::Applied);
    assert_eq!(process_action(&mut state, &mut pool, bid), ConsensusItemOutcome::Applied);
    // One vote closes epoch 1 at price 100 and opens epoch 2 with the
    // matched positions.
    let r = process_epoch_end(&mut state, &cfg, 0, EpochEnd { epoch_id: 1, price: 100 });
    assert_eq!(r, ConsensusItemOutcome::Applied);
    let opened = api::epoch_outcome(&state, 2).expect("epoch 2 opened");
    assert_eq!(opened.feerate.ppm, 100);
    assert_eq!(opened.seeker_total, 500);
    assert_eq!(opened.provider_total, 500);
    assert_eq!(opened.settled_price, None);
    let sb = api::account(&state, seeker.account);
    assert_eq!(sb.unlocked, 500);
    let locked = sb.locked.expect("seeker is locked");
    assert_eq!(locked.value, 500);
    assert_eq!(locked.side, api::SideResponse::Seeker);
    assert_eq!(locked.epoch_start_price, 100);
    let pb = api::account(&state, provider.account);
    assert_eq!(pb.unlocked, 500);
    assert_eq!(pb.locked.expect("provider is locked").value, 500);
    assert_eq!(state.audit(), Some(2000));
    // The price doubles; closing epoch 2 halves the seeker position and
    // hands the difference to the provider.
    let r2 = process_epoch_end(&mut state, &cfg, 0, EpochEnd { epoch_id: 2, price: 200 });
    assert_eq!(r2, ConsensusItemOutcome::Applied);
    let closed = api::epoch_outcome(&state, 2).expect("epoch 2 settled");
    assert_eq!(closed.settled_price, Some(200));
    let sb2 = api::account(&state, seeker.account);
    // 500 * 100 / 200 repriced, plus the 100 ppm fee on 500 msat (zero).
    assert_eq!(sb2.unlocked, 750);
    assert!(sb2.locked.is_none());
    let pb2 = api::account(&state, provider.account);
    assert_eq!(pb2.unlocked, 1250);
    assert!(pb2.locked.is_none());
    assert_eq!(state.audit(), Some(2000));
}

#[test]
fn short_supply_scales_seeker_positions_down() {
    let mut state = PoolState::new_empty();
    let mut pool = ActionProposedDb::new();
    let mut cfg = test_config();
    cfg.price_threshold = 1;
    let seeker = signer(1);
    let provider = signer(2);
    state
        .apply_output(&AccountDeposit { account: seeker.account, amount: 1000 }, outpoint(1))
        .expect("deposit succeeds");
    state
        .apply_output(&AccountDeposit { account: provider.account, amount: 1000 }, outpoint(2))
        .expect("deposit succeeds");
    let lock = sign_action(
        &seeker,
        Action {
            epoch_id: 2,
            sequence: 1,
            account_id: seeker.account,
            body: ActionBody::Seeker(SeekerAction::Lock { amount: 500 }),
        },
    );
    let bid = sign_action(
        &provider,
        Action {
            epoch_id: 2,
            sequence: 1,
            account_id: provider.account,
            body: ActionBody::Provider(ProviderBid { max_amount: 300, min_feerate: 40 }),
        },
    );
    assert_eq!(process_action(&mut state, &mut pool, lock), ConsensusItemOutcome::Applied);
    assert_eq!(process_action(&mut state, &mut pool, bid), ConsensusItemOutcome::Applied);
    let r = process_epoch_end(&mut state, &cfg, 0, EpochEnd { epoch_id: 1, price: 100 });
    assert_eq!(r, ConsensusItemOutcome::Applied);
    // Only 300 of the 500 demanded msats of collateral were offered: the
    // seeker position scales down to 300 and the residue returns.
    let sb = api::account(&state, seeker.account);
    assert_eq!(sb.unlocked, 700);
    assert_eq!(sb.locked.expect("seeker locked").value, 300);
    let pb = api::account(&state, provider.account);
    assert_eq!(pb.unlocked, 700);
    assert_eq!(pb.locked.expect("provider locked").value, 300);
    let opened = api::epoch_outcome(&state, 2).expect("epoch 2 opened");
    assert_eq!(opened.feerate.ppm, 40);
    assert_eq!(opened.seeker_total, 300);
    assert_eq!(opened.provider_total, 300);
    assert_eq!(state.audit(), Some(2000));
}

#[test]
fn no_providers_means_no_seeker_positions() {
    let mut state = PoolState::new_empty();
    let mut pool = ActionProposedDb::new();
    let mut cfg = test_config();
    cfg.price_threshold = 1;
    let seeker = signer(1);
    state
        .apply_output(&AccountDeposit { account: seeker.account, amount: 1000 }, outpoint(1))
        .expect("deposit succeeds");
    let lock = sign_action(
        &seeker,
        Action {
            epoch_id: 2,
            sequence: 1,
            account_id: seeker.account,
            body: ActionBody::Seeker(SeekerAction::Lock { amount: 500 }),
        },
    );
    assert_eq!(process_action(&mut state, &mut pool, lock), ConsensusItemOutcome::Applied);
    let r = process_epoch_end(&mut state, &cfg, 0, EpochEnd { epoch_id: 1, price: 100 });
    assert_eq!(r, ConsensusItemOutcome::Applied);
    // With no collateral on offer nothing can be locked.
    let sb = api::account(&state, seeker.account);
    assert_eq!(sb.unlocked, 1000);
    assert!(sb.locked.is_none());
    assert_eq!(state.audit(), Some(1000));
}

#[test]
fn snapshot_reports_epochs_and_accounts() {
    let mut state = PoolState::new_empty();
    let a = acct(1);
    state
        .apply_output(&AccountDeposit { account: a, amount: 42 }, outpoint(1))
        .expect("deposit succeeds");
    let snap = api::state_snapshot(&state);
    assert_eq!(snap.previous_epoch.epoch_id, 0);
    assert_eq!(snap.current_epoch.epoch_id, 1);
    assert!(snap.current_epoch.outcome.is_none());
    assert_eq!(snap.accounts.len(), 1);
    assert_eq!(snap.accounts[0].0, a);
    assert_eq!(
        snap.accounts[0].1,
        AccountBalance { unlocked: 42, locked: LockedBalance::Vacant }
    );
    assert_eq!(snap.staged.len(), 0);
}
