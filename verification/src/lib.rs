pub mod backfill;
pub mod events;
pub mod ledger;
pub mod primitives;
pub mod rounds;
pub mod staking_indexer;
