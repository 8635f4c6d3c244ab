//! Lifecycle sidecar for a remote development workspace: the decisions of the
//! file fetcher, the heartbeat monitor, the sync poller and the task supervisor.
pub mod config;
pub mod fetcher;
pub mod heartbeat;
pub mod supervisor;
pub mod sync;
pub mod text;
