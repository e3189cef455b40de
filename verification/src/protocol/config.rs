//! What a node is configured with.

use vstd::prelude::*;
use crate::crypto::sponge::SpongeType;

verus! {

/// Default number of trailing zero trits asked of a transaction hash.
pub const DEFAULT_MWM: u8 = 14;

/// Default bound, in seconds, on the difference between the clocks of two
/// peers that shake hands.
pub const DEFAULT_HANDSHAKE_WINDOW: u64 = 1;

/// Default capacity of a worker's channel.
pub const DEFAULT_WORKER_BOUND: usize = 1000;

/// Default number of milestones that are requested ahead when synchronisation starts.
pub const DEFAULT_MS_SYNC_COUNT: u32 = 5;

/// Default number of seconds between two status reports.
pub const DEFAULT_STATUS_INTERVAL: u64 = 10;

/// Default number of recently seen transactions that the hasher remembers.
pub const DEFAULT_TRANSACTION_WORKER_CACHE: usize = 10000;

/// The coordinator as a node is told of it.
#[derive(Debug)]
pub struct ProtocolCoordinatorConfig {
    /// The coordinator's public key, as peers announce it: 49 bytes.
    pub public_key_bytes: Vec<u8>,
    /// The sponge with which the coordinator signs.
    pub sponge_type: SpongeType,
}

/// Capacities and periods of the workers.
#[derive(Clone, Copy, Debug, PartialEq, Eq, Structural)]
pub struct ProtocolWorkersConfig {
    pub transaction_worker_bound: usize,
    pub transaction_responder_worker_bound: usize,
    pub milestone_responder_worker_bound: usize,
    pub milestone_validator_worker_bound: usize,
    pub milestone_solidifier_worker_bound: usize,
    pub broadcaster_worker_bound: usize,
    pub receiver_worker_bound: usize,
    pub milestone_request_send_worker_bound: usize,
    pub transaction_broadcast_send_worker_bound: usize,
    pub transaction_request_send_worker_bound: usize,
    pub heartbeat_send_worker_bound: usize,
    pub ms_sync_count: u32,
    pub status_interval: u64,
    pub transaction_worker_cache: usize,
}

/// The configuration of the protocol.
#[derive(Debug)]
pub struct ProtocolConfig {
    /// The number of trailing zero trits asked of a transaction hash.
    pub mwm: u8,
    /// Bound, in seconds, on the clock difference at a handshake.
    pub handshake_window: u64,
    pub coordinator: ProtocolCoordinatorConfig,
    pub workers: ProtocolWorkersConfig,
}

/// Collects what is set and fills in defaults for the rest.
#[derive(Debug)]
pub struct ProtocolConfigBuilder {
    mwm: Option<u8>,
    handshake_window: Option<u64>,
    coordinator_public_key_bytes: Option<Vec<u8>>,
    coordinator_sponge_type: Option<SpongeType>,
    worker_bound: Option<usize>,
    ms_sync_count: Option<u32>,
    status_interval: Option<u64>,
    transaction_worker_cache: Option<usize>,
}

/// What a builder holds, as plain values.
pub struct ProtocolConfigBuilderView {
    pub mwm: Option<u8>,
    pub handshake_window: Option<u64>,
    pub coordinator_public_key_bytes: Option<Seq<u8>>,
    pub coordinator_sponge_type: Option<SpongeType>,
    pub worker_bound: Option<usize>,
    pub ms_sync_count: Option<u32>,
    pub status_interval: Option<u64>,
    pub transaction_worker_cache: Option<usize>,
}

/// The workers' configuration in which every channel has capacity `bound`.
pub open spec fn uniform_workers(bound: usize, ms_sync_count: u32, status_interval: u64, cache: usize) -> ProtocolWorkersConfig {
    ProtocolWorkersConfig {
        transaction_worker_bound: bound,
        transaction_responder_worker_bound: bound,
        milestone_responder_worker_bound: bound,
        milestone_validator_worker_bound: bound,
        milestone_solidifier_worker_bound: bound,
        broadcaster_worker_bound: bound,
        receiver_worker_bound: bound,
        milestone_request_send_worker_bound: bound,
        transaction_broadcast_send_worker_bound: bound,
        transaction_request_send_worker_bound: bound,
        heartbeat_send_worker_bound: bound,
        ms_sync_count,
        status_interval,
        transaction_worker_cache: cache,
    }
}

impl View for ProtocolConfigBuilder {
    type V = ProtocolConfigBuilderView;

    closed spec fn view(&self) -> ProtocolConfigBuilderView {
        ProtocolConfigBuilderView {
            mwm: self.mwm,
            handshake_window: self.handshake_window,
            coordinator_public_key_bytes: match self.coordinator_public_key_bytes {
                Some(bytes) => Some(bytes@),
                None => None,
            },
            coordinator_sponge_type: self.coordinator_sponge_type,
            worker_bound: self.worker_bound,
            ms_sync_count: self.ms_sync_count,
            status_interval: self.status_interval,
            transaction_worker_cache: self.transaction_worker_cache,
        }
    }
}

/// The builder with nothing set.
pub open spec fn unset() -> ProtocolConfigBuilderView {
    ProtocolConfigBuilderView {
        mwm: None,
        handshake_window: None,
        coordinator_public_key_bytes: None,
        coordinator_sponge_type: None,
        worker_bound: None,
        ms_sync_count: None,
        status_interval: None,
        transaction_worker_cache: None,
    }
}

/// Whether `config` is what a builder that holds `builder` makes: what was
/// set, and the default for what was not. The default coordinator key is
/// 49 zero bytes, the default sponge Kerl.
pub open spec fn built(builder: ProtocolConfigBuilderView, config: ProtocolConfig) -> bool {
    &&& config.mwm == builder.mwm.unwrap_or(DEFAULT_MWM)
    &&& config.handshake_window == builder.handshake_window.unwrap_or(DEFAULT_HANDSHAKE_WINDOW)
    &&& config.coordinator.public_key_bytes@ == builder.coordinator_public_key_bytes.unwrap_or(
        Seq::new(49, |i: int| 0u8),
    )
    &&& config.coordinator.sponge_type == builder.coordinator_sponge_type.unwrap_or(
        SpongeType::Kerl,
    )
    &&& config.workers == uniform_workers(
        builder.worker_bound.unwrap_or(DEFAULT_WORKER_BOUND),
        builder.ms_sync_count.unwrap_or(DEFAULT_MS_SYNC_COUNT),
        builder.status_interval.unwrap_or(DEFAULT_STATUS_INTERVAL),
        builder.transaction_worker_cache.unwrap_or(DEFAULT_TRANSACTION_WORKER_CACHE),
    )
}

impl ProtocolConfigBuilder {
    /// A builder with nothing set.
    pub fn new() -> (builder: Self)
        ensures
            builder@ == unset(),
    {
        Self {
            mwm: None,
            handshake_window: None,
            coordinator_public_key_bytes: None,
            coordinator_sponge_type: None,
            worker_bound: None,
            ms_sync_count: None,
            status_interval: None,
            transaction_worker_cache: None,
        }
    }

    pub fn mwm(self, mwm: u8) -> (builder: Self)
        ensures
            builder@ == (ProtocolConfigBuilderView { mwm: Some(mwm), ..self@ }),
    {
        let mut builder = self;
        builder.mwm = Some(mwm);
        builder
    }

    pub fn handshake_window(self, handshake_window: u64) -> (builder: Self)
        ensures
            builder@ == (ProtocolConfigBuilderView {
                handshake_window: Some(handshake_window),
                ..self@
            }),
    {
        let mut builder = self;
        builder.handshake_window = Some(handshake_window);
        builder
    }

    pub fn coordinator_public_key_bytes(self, bytes: Vec<u8>) -> (builder: Self)
        ensures
            builder@ == (ProtocolConfigBuilderView {
                coordinator_public_key_bytes: Some(bytes@),
                ..self@
            }),
    {
        let mut builder = self;
        builder.coordinator_public_key_bytes = Some(bytes);
        builder
    }

    pub fn coordinator_sponge_type(self, sponge_type: SpongeType) -> (builder: Self)
        ensures
            builder@ == (ProtocolConfigBuilderView {
                coordinator_sponge_type: Some(sponge_type),
                ..self@
            }),
    {
        let mut builder = self;
        builder.coordinator_sponge_type = Some(sponge_type);
        builder
    }

    pub fn worker_bound(self, bound: usize) -> (builder: Self)
        ensures
            builder@ == (ProtocolConfigBuilderView { worker_bound: Some(bound), ..self@ }),
    {
        let mut builder = self;
        builder.worker_bound = Some(bound);
        builder
    }

    pub fn ms_sync_count(self, count: u32) -> (builder: Self)
        ensures
            builder@ == (ProtocolConfigBuilderView { ms_sync_count: Some(count), ..self@ }),
    {
        let mut builder = self;
        builder.ms_sync_count = Some(count);
        builder
    }

    pub fn status_interval(self, seconds: u64) -> (builder: Self)
        ensures
            builder@ == (ProtocolConfigBuilderView { status_interval: Some(seconds), ..self@ }),
    {
        let mut builder = self;
        builder.status_interval = Some(seconds);
        builder
    }

    pub fn transaction_worker_cache(self, size: usize) -> (builder: Self)
        ensures
            builder@ == (ProtocolConfigBuilderView {
                transaction_worker_cache: Some(size),
                ..self@
            }),
    {
        let mut builder = self;
        builder.transaction_worker_cache = Some(size);
        builder
    }

    /// The configuration: what was set, and the default for what was not.
    pub fn build(self) -> (config: ProtocolConfig)
        ensures
            built(self@, config),
    {
        let public_key_bytes: Vec<u8> = match self.coordinator_public_key_bytes {
            Some(bytes) => bytes,
            None => {
                let mut zeros: Vec<u8> = Vec::new();
                let mut i: usize = 0;
                while i < 49
                    invariant
                        i <= 49,
                        zeros@ == Seq::new(i as nat, |i: int| 0u8),
                    decreases 49 - i,
                {
                    zeros.push(0u8);
                    i = i + 1;
                    assert(zeros@ =~= Seq::new(i as nat, |i: int| 0u8));
                }
                zeros
            },
        };
        let bound: usize = self.worker_bound.unwrap_or(DEFAULT_WORKER_BOUND);
        ProtocolConfig {
            mwm: self.mwm.unwrap_or(DEFAULT_MWM),
            handshake_window: self.handshake_window.unwrap_or(DEFAULT_HANDSHAKE_WINDOW),
            coordinator: ProtocolCoordinatorConfig {
                public_key_bytes,
                sponge_type: self.coordinator_sponge_type.unwrap_or(SpongeType::Kerl),
            },
            workers: ProtocolWorkersConfig {
                transaction_worker_bound: bound,
                transaction_responder_worker_bound: bound,
                milestone_responder_worker_bound: bound,
                milestone_validator_worker_bound: bound,
                milestone_solidifier_worker_bound: bound,
                broadcaster_worker_bound: bound,
                receiver_worker_bound: bound,
                milestone_request_send_worker_bound: bound,
                transaction_broadcast_send_worker_bound: bound,
                transaction_request_send_worker_bound: bound,
                heartbeat_send_worker_bound: bound,
                ms_sync_count: self.ms_sync_count.unwrap_or(DEFAULT_MS_SYNC_COUNT),
                status_interval: self.status_interval.unwrap_or(DEFAULT_STATUS_INTERVAL),
                transaction_worker_cache: self.transaction_worker_cache.unwrap_or(
                    DEFAULT_TRANSACTION_WORKER_CACHE,
                ),
            },
        }
    }
}

} // verus!
