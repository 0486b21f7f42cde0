//! Verified core of a self-organising vector-clustering fleet: space-filling-curve
//! sharding, a replicated centroid type, fault isolation, metrics and the
//! bookkeeping that moves vectors between shards and folds model updates together.

pub mod circuit_breaker;
pub mod clock;
pub mod crdt;
pub mod error;
pub mod hilbert;
pub mod ids;
pub mod metrics;
pub mod migration;
pub mod replication;
pub mod retry;
pub mod shard;
pub mod synchrony;
pub mod table;
pub mod text;
pub mod versioning;
