//! Transaction-routing core for a sharded ledger.
//!
//! The library decides, for every incoming transfer, which shard owns the
//! affected state and which worker process ("solver") within that shard
//! should execute it, while tracking worker health and load and providing a
//! bounded admission queue with fast pre-validation.
//!
//! Routing happens in two levels: a shard-selection strategy (by subnet or
//! by object) picks the shard, and a solver-selection strategy (consistent
//! hashing or load balancing) picks a solver within it.

mod clock;
mod coin;
mod config;
mod consistent_hash;
mod error;
mod hashing;
mod load_balanced;
mod object;
mod object_shard;
mod pending_queue;
mod quick_check;
mod relation;
mod shard;
mod shard_manager;
mod solver;
mod strategy;
mod subnet_shard;
mod transfer;
mod types;
mod unified_router;

pub use types::{
    root_subnet, spec_root_subnet, LegacyShardId, ObjectId, RoutingMethod, ShardId, SubnetId,
    DEFAULT_SHARD_COUNT, DEFAULT_SHARD_ID,
};

pub use error::{RouterError, SetuError, SetuResult};

pub use hashing::{blake3_of, dec_bytes, hash64_of, u64_from_le};

pub use object_shard::{
    insert_sorted_unique, lemma_differing_shards_cross, spec_is_cross_shard, spec_shard,
    strictly_sorted, ObjectShardStrategy,
};

pub use subnet_shard::{
    subnet_strategy_count, subnet_strategy_wf, SubnetShardRouter, SubnetShardStrategy,
};

pub use strategy::{RoutingStrategy, ShardStrategy, SolverStrategy};

pub use unified_router::{
    has_entry_for, is_touched_object, lemma_subnet_first_method, object_shards_wf,
    spec_any_object_off_shard, spec_route,
    unified_object_count, unified_strategy_wf, DetailedRoutingResult, RoutingContext,
    ShardRoutingResult, UnifiedRouter, UnifiedRoutingStrategy,
};

pub use solver::{
    avail_pred, domain_matches, handle_pred, is_prefix, lemma_stale_solver_excluded, reg_has_id,
    reg_index_of, solver_ids_unique, spec_available_of, spec_can_handle, spec_heartbeat_one,
    spec_is_available, spec_register, spec_stamped, spec_sweep, spec_sweep_one, views_of,
    SolverId, SolverInfo, SolverRegistry, SolverStatus, SolverView,
};

pub use consistent_hash::{
    ch_index, ch_select, ids_concat, ids_of, lemma_consistent_hash_deterministic,
    lemma_single_solver, ring_map, vnode_hash, vnode_preimage, ConsistentHashStrategy,
};

pub use load_balanced::{
    below_threshold, has_candidate, is_first_best_candidate, is_first_least_loaded, ratio_den,
    ratio_le, ratio_num, score_ge, score_num, LoadBalancedStrategy,
};

pub use transfer::{Transfer, TransferType, Vlc};

pub use quick_check::{
    amount_ok, check_passes, format_passes, id_ok, parties_ok, recipient_ok, resources_ok,
    sender_ok, vlc_ok, QuickCheckError, QuickChecker,
};

pub use pending_queue::{
    has_id, ids_unique, index_of_id, lemma_enqueue_dequeue_round_trip, seq_transfers,
    spec_priority, PendingQueue, PendingQueueError, PendingTransfer,
};

pub use shard::{ShardConfig, ShardRouter, SingleShardRouter};

pub use shard_manager::{has_string, some_shard_claims, Shard, ShardManager};

pub use config::{NetworkConfig, NodeConfig};

pub use object::{
    generate_object_id, hex_of, spec_next_version, spec_object_id, Address, Object,
    ObjectMetadata,
};

pub use coin::{coin_preimage, create_coin, Balance, Coin, CoinData};

pub use relation::{
    create_professional_graph, create_social_graph, has_relation, keep_pred, rel_matches,
    type_pred, Relation, RelationGraph, RelationGraphData,
};
