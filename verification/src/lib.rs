//! Core logic of a HotStuff-family BFT replication engine: configuration,
//! stake-weighted vote aggregation, the consensus / DA / view-sync task state
//! machines, the node-handle control state, the DHT client discipline, and the
//! canonical wire encoding. Networking, timers and channels live outside the
//! library; every function here is a pure state transition with a contract.

pub mod codec;
pub mod config;
pub mod consensus;
pub mod da;
pub mod data;
pub mod dht;
pub mod events;
pub mod handle;
pub mod stake;
pub mod transactions;
pub mod viewsync;
pub mod votes;
