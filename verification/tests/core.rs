//! Unit tests of the pure arithmetic, the codecs and the retry state.

use stabilitypool::account::AccountBalance;
use stabilitypool::account::LockedBalance;
use stabilitypool::action::Action;
use stabilitypool::action::ActionBody;
use stabilitypool::action::ActionStaged;
use stabilitypool::action::ProviderBid;
use stabilitypool::action::SeekerAction;
use stabilitypool::db;
use stabilitypool::epoch::BackOff;
use stabilitypool::epoch::EpochEnd;
use stabilitypool::epoch::EpochOutcome;
use stabilitypool::epoch::Feerate;
use stabilitypool::stability_core;
use stabilitypool::stability_core::CollateralRatio;
use stabilitypool::words::Bytes32;
use stabilitypool::config::EpochConfig;

fn acct(n: u64) -> Bytes32 {
    Bytes32 { w0: 0, w1: 0, w2: 0, w3: n }
}

fn ratio_one() -> CollateralRatio {
    CollateralRatio { numer: 1, denom: 1 }
}

#[test]
fn seeker_fee_exact() {
    // 100_000 ppm of 1_000_000 msat is 100_000 msat.
    assert_eq!(stability_core::seeker_fee(100_000, 1_000_000), 100_000);
    // Rounds toward zero.
    assert_eq!(stability_core::seeker_fee(1, 999_999), 0);
}

#[test]
fn provider_fee_exact() {
    // Same as the seeker fee at a 1:1 ratio.
    assert_eq!(stability_core::provider_fee(100_000, 1_000_000, ratio_one()), 100_000);
    // Two msat of collateral per msat of seeker value halves the rate base.
    let cr = CollateralRatio { numer: 1, denom: 2 };
    assert_eq!(stability_core::provider_fee(100_000, 1_000_000, cr), 200_000);
}

#[test]
fn seeker_payout_reprices() {
    // Price doubles: the seeker position halves (plus no fee at rate 0).
    assert_eq!(stability_core::seeker_payout(1000, 0, 100, 200, ratio_one()), 500);
    // Price halves: the seeker position doubles.
    assert_eq!(stability_core::seeker_payout(1000, 0, 200, 100, ratio_one()), 2000);
}

#[test]
fn provider_payout_mirrors_seeker() {
    // Price doubles: the provider absorbs what the seeker lost.
    assert_eq!(stability_core::provider_payout(1000, 0, 100, 200, ratio_one()), 1500);
    // Price halves: the provider pays the seeker's gain, floored at zero.
    assert_eq!(stability_core::provider_payout(1000, 0, 200, 100, ratio_one()), 0);
}

#[test]
fn matching_edge_case() {
    // Seeker demand of 1000 msat-equivalent collateral against two bids:
    // the cheap bid is taken whole, the dear one fills the rest, and the
    // clearing rate is the dear bid's rate.
    let bids = vec![
        (acct(1), ProviderBid { max_amount: 600, min_feerate: 50 }),
        (acct(2), ProviderBid { max_amount: 800, min_feerate: 120 }),
    ];
    let outcome = stability_core::match_bids(1000, &bids, 100_000);
    assert_eq!(outcome.feerate_ppm, 120);
    assert_eq!(outcome.alloc, vec![600, 400]);
}

#[test]
fn matching_short_supply() {
    // Supply below demand: everything is accepted at the dearest rate.
    let bids = vec![
        (acct(1), ProviderBid { max_amount: 300, min_feerate: 50 }),
        (acct(2), ProviderBid { max_amount: 200, min_feerate: 10 }),
    ];
    let outcome = stability_core::match_bids(1000, &bids, 100_000);
    assert_eq!(outcome.feerate_ppm, 50);
    assert_eq!(outcome.alloc, vec![300, 200]);
}

#[test]
fn matching_tie_order_prefers_smaller_bid() {
    // Two bids at the clearing rate: the smaller one is taken whole first.
    let bids = vec![
        (acct(1), ProviderBid { max_amount: 800, min_feerate: 50 }),
        (acct(2), ProviderBid { max_amount: 300, min_feerate: 50 }),
    ];
    let outcome = stability_core::match_bids(1000, &bids, 100_000);
    assert_eq!(outcome.feerate_ppm, 50);
    assert_eq!(outcome.alloc, vec![700, 300]);
}

#[test]
fn matching_caps_feerate() {
    let bids = vec![(acct(1), ProviderBid { max_amount: 1000, min_feerate: 900 })];
    let outcome = stability_core::match_bids(500, &bids, 100);
    assert_eq!(outcome.clearing_rate, 900);
    assert_eq!(outcome.feerate_ppm, 100);
}

#[test]
fn balance_codec_round_trip() {
    let samples = vec![
        AccountBalance { unlocked: 0, locked: LockedBalance::Vacant },
        AccountBalance { unlocked: 12345, locked: LockedBalance::Seeker(678) },
        AccountBalance { unlocked: u64::MAX, locked: LockedBalance::Provider(u64::MAX) },
    ];
    for b in samples {
        let bytes = db::balance_encode(&b);
        assert_eq!(db::balance_decode(&bytes), Some(b));
    }
}

#[test]
fn outcome_codec_round_trip() {
    let samples = vec![
        EpochOutcome {
            feerate: Feerate { ppm: 0 },
            seeker_total: 0,
            provider_total: 0,
            settled_price: None,
        },
        EpochOutcome {
            feerate: Feerate { ppm: 120 },
            seeker_total: 500,
            provider_total: 400,
            settled_price: Some(10_000),
        },
    ];
    for o in samples {
        let bytes = db::outcome_encode(&o);
        assert_eq!(db::outcome_decode(&bytes), Some(o));
    }
}

#[test]
fn epoch_end_codec_round_trip() {
    let e = EpochEnd { epoch_id: 7, price: 10_000 };
    let bytes = db::epoch_end_encode(&e);
    assert_eq!(db::epoch_end_decode(&bytes), Some(e));
}

#[test]
fn action_codec_round_trip() {
    let actions = vec![
        Action {
            epoch_id: 2,
            sequence: 5,
            account_id: acct(9),
            body: ActionBody::Seeker(SeekerAction::Lock { amount: 500 }),
        },
        Action {
            epoch_id: 3,
            sequence: 1,
            account_id: acct(10),
            body: ActionBody::Seeker(SeekerAction::Unlock { amount: 1 }),
        },
        Action {
            epoch_id: 4,
            sequence: 2,
            account_id: acct(11),
            body: ActionBody::Provider(ProviderBid { max_amount: 800, min_feerate: 120 }),
        },
    ];
    for a in actions {
        let bytes = a.encode();
        assert_eq!(db::action_decode(&bytes), Some(a));
    }
}

#[test]
fn staged_codec_round_trip() {
    let st = ActionStaged {
        signature: vec![7u8; 64],
        action: Action {
            epoch_id: 2,
            sequence: 5,
            account_id: acct(9),
            body: ActionBody::Seeker(SeekerAction::Lock { amount: 500 }),
        },
    };
    let bytes = db::staged_encode(&st);
    let back = db::staged_decode(&bytes).expect("decodes");
    assert_eq!(back.signature, st.signature);
    assert_eq!(back.action, st.action);
}

#[test]
fn key_encodings_carry_their_prefix() {
    assert_eq!(db::AccountBalanceKey(acct(1)).encode()[0], 0xE0);
    let op = stabilitypool::OutPoint { txid: acct(2), out_idx: 0 };
    assert_eq!(db::DepositOutcomeKey(op).encode()[0], 0xE1);
    assert_eq!(db::EpochOutcomeKey(3).encode()[0], 0xE2);
    assert_eq!(db::EpochEndKey(4).encode()[0], 0xE5);
    assert_eq!(db::ActionStagedKey(acct(5)).encode()[0], 0xE6);
    assert_eq!(db::DbKeyPrefix::LastEpochEnded.byte(), 0xE3);
    assert_eq!(db::DbKeyPrefix::LastEpochSettled.byte(), 0xE4);
}

#[test]
fn backoff_doubles_to_cap() {
    let mut b = BackOff { delay_secs: 0, not_before: 0 };
    b.record_failure(1000);
    assert_eq!(b.delay_secs, 5);
    assert_eq!(b.not_before, 1005);
    b.record_failure(1005);
    assert_eq!(b.delay_secs, 10);
    for _ in 0..10 {
        b.record_failure(2000);
    }
    assert_eq!(b.delay_secs, 300);
    assert!(!b.ready(2299));
    assert!(b.ready(2300));
    b.record_success();
    assert!(b.ready(0));
}

#[test]
fn epoch_id_follows_the_clock() {
    let cfg = EpochConfig {
        start_epoch_at: 100,
        epoch_length: 10,
        price_threshold: 3,
        max_feerate_ppm: 100_000,
        collateral_ratio: CollateralRatio { numer: 1, denom: 1 },
    };
    assert_eq!(cfg.epoch_id_for_time(99), 0);
    assert_eq!(cfg.epoch_id_for_time(100), 1);
    assert_eq!(cfg.epoch_id_for_time(109), 1);
    assert_eq!(cfg.epoch_id_for_time(110), 2);
}

#[test]
fn bytes32_round_trips_through_bytes() {
    let b = Bytes32 { w0: 1, w1: 2, w2: 3, w3: u64::MAX };
    let bytes = b.to_bytes();
    assert_eq!(bytes.len(), 32);
    assert_eq!(Bytes32::from_bytes(&bytes), b);
}
