//! Consensus-agreed configuration of the pool module.

use vstd::prelude::*;
use crate::stability_core::CollateralRatio;

verus! {

/// Epoch length in seconds used when none is configured.
pub const DEFAULT_EPOCH_LENGTH: u64 = 40;

/// The global cap on provider fee rates, in parts per million per epoch.
pub const DEFAULT_GLOBAL_MAX_FEERATE: u64 = 100_000;

/// The whole configuration of one peer.
#[derive(Clone, Debug)]
pub struct PoolConfig {
    /// Configuration private to this peer.
    pub private: PoolConfigPrivate,
    /// Configuration that must be identical on every peer.
    pub consensus: PoolConfigConsensus,
}

/// Per-peer private configuration; nothing is needed so far.
#[derive(Clone, Copy, Debug, PartialEq, Eq, Structural, Hash)]
pub struct PoolConfigPrivate {}

/// The consensus-critical configuration.
#[derive(Clone, Debug)]
pub struct PoolConfigConsensus {
    pub epoch: EpochConfig,
    pub oracle: OracleConfig,
}

/// Which price oracle the peer queries when proposing an epoch end.
#[derive(Clone, Debug, PartialEq, Eq, Hash)]
pub enum OracleConfig {
    /// The BitMex bitcoin price index, over HTTPS.
    BitMex,
    /// A test oracle reached over HTTP at the given URL.
    Mock(String),
    /// An integer price read from a local file at the given path.
    File(String),
}

impl Default for OracleConfig {
    /// A file-backed oracle at the conventional offline path.
    fn default() -> (r: Self)
        ensures
            r is File,
    {
        OracleConfig::File("./misc/offline_oracle".to_owned())
    }
}

/// Epoch timing and settlement parameters.
#[derive(Clone, Copy, Debug, PartialEq, Eq, Structural, Hash)]
pub struct EpochConfig {
    /// Unix seconds at which epoch 1 opens.
    pub start_epoch_at: u64,
    /// Epoch length in seconds.
    pub epoch_length: u64,
    /// How many peers must vote on a price before an epoch settles.
    pub price_threshold: u32,
    /// The most a provider can charge per epoch, in parts per million.
    pub max_feerate_ppm: u64,
    /// The ratio of seeker position to provider collateral.
    pub collateral_ratio: CollateralRatio,
}

impl EpochConfig {
    /// The epoch that wall-clock second `time` falls into: 0 before the
    /// configured start, then epochs of `epoch_length` seconds counted from 1.
    pub open spec fn epoch_id_for_time_spec(self, time: u64) -> int {
        if time < self.start_epoch_at {
            0
        } else {
            (time - self.start_epoch_at) / (self.epoch_length as int) + 1
        }
    }

    /// The epoch that wall-clock second `time` falls into, saturated at
    /// `u64::MAX`.
    pub fn epoch_id_for_time(&self, time: u64) -> (r: u64)
        requires
            self.epoch_length > 0,
        ensures
            self.epoch_id_for_time_spec(time) <= u64::MAX ==> r == self.epoch_id_for_time_spec(
                time,
            ),
            self.epoch_id_for_time_spec(time) > u64::MAX ==> r == u64::MAX,
    {
        if time < self.start_epoch_at {
            0
        } else {
            let elapsed = time - self.start_epoch_at;
            let q = elapsed / self.epoch_length;
            proof {
                crate::stability_core::lemma_div_le(elapsed as int, self.epoch_length as int);
            }
            if q == 0xffff_ffff_ffff_ffff {
                q
            } else {
                q + 1
            }
        }
    }

    /// Unix seconds at which epoch 1 opens.
    pub fn start_epoch_at(&self) -> (r: u64)
        ensures
            r == self.start_epoch_at,
    {
        self.start_epoch_at
    }
}

/// The configuration shared with clients.
#[derive(Clone, Debug)]
pub struct PoolClientConfig {
    pub oracle: OracleConfig,
    pub collateral_ratio: CollateralRatio,
}

/// Parameters a federation is set up from.
#[derive(Clone, Debug)]
pub struct PoolConfigGenParams {
    pub important_param: u64,
    /// Unix seconds at which epoch 1 opens; `None` means "now".
    pub start_epoch_at: Option<u64>,
    /// Epoch length in seconds.
    pub epoch_length: u64,
    pub oracle_config: OracleConfig,
    /// The ratio of seeker position to provider collateral.
    pub collateral_ratio: CollateralRatio,
}

impl Default for PoolConfigGenParams {
    fn default() -> (r: Self)
        ensures
            r.important_param == 3u64,
            r.start_epoch_at is None,
            r.epoch_length == DEFAULT_EPOCH_LENGTH,
            r.oracle_config is File,
            r.collateral_ratio == (CollateralRatio { numer: 1u64, denom: 1u64 }),
    {
        PoolConfigGenParams {
            important_param: 3,
            start_epoch_at: None,
            epoch_length: DEFAULT_EPOCH_LENGTH,
            oracle_config: OracleConfig::default(),
            collateral_ratio: CollateralRatio::default(),
        }
    }
}

/// Builds one peer's configuration from the setup parameters, the peer
/// threshold the federation agreed on, and the current wall-clock second
/// (used only when no start is configured).
pub fn config_from_params(params: PoolConfigGenParams, threshold: u32, now: u64) -> (r: PoolConfig)
    ensures
        r.consensus.epoch.start_epoch_at == match params.start_epoch_at {
            Some(t) => t,
            None => now,
        },
        r.consensus.epoch.epoch_length == params.epoch_length,
        r.consensus.epoch.price_threshold == threshold,
        r.consensus.epoch.max_feerate_ppm == DEFAULT_GLOBAL_MAX_FEERATE,
        r.consensus.epoch.collateral_ratio == params.collateral_ratio,
        r.consensus.oracle == params.oracle_config,
{
    PoolConfig {
        private: PoolConfigPrivate {},
        consensus: PoolConfigConsensus {
            epoch: EpochConfig {
                start_epoch_at: match params.start_epoch_at {
                    Some(t) => t,
                    None => now,
                },
                epoch_length: params.epoch_length,
                price_threshold: threshold,
                max_feerate_ppm: DEFAULT_GLOBAL_MAX_FEERATE,
                collateral_ratio: params.collateral_ratio,
            },
            oracle: params.oracle_config,
        },
    }
}

/// The slice of the consensus configuration that clients receive.
pub fn client_config(consensus: PoolConfigConsensus) -> (r: PoolClientConfig)
    ensures
        r.oracle == consensus.oracle,
        r.collateral_ratio == consensus.epoch.collateral_ratio,
{
    PoolClientConfig {
        oracle: consensus.oracle,
        collateral_ratio: consensus.epoch.collateral_ratio,
    }
}

} // verus!
