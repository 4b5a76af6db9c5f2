//! Live-state synchronisation for a self-hosted network controller: the data
//! model of the controller's entities, the snapshot that is rebuilt on every
//! polling cycle, change detection between snapshots, the coalescing wake-up
//! trigger, and the address derivations for members; around them, the
//! per-network permissions, the stored configuration, and the checks and
//! updates behind the account, network and member forms.

pub mod text;
pub mod models;
pub mod address;
pub mod snapshot;
pub mod sse;
pub mod poller;
pub mod permissions;
pub mod backup;
pub mod edits;
pub mod dashboard;
pub mod config;
pub mod accounts;
pub mod health;
