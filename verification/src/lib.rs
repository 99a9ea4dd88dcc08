//! Core of an Ethereum-compatible transaction execution service.
//!
//! The crate models the transaction pipeline of a single-transaction-per-block
//! chain: value primitives, the log filter matcher, an in-memory storage with
//! optimistic conflict detection, the block miner, broadcast fan-out channels
//! with bounded backlog, and the coordinator that drives
//! execute / check-conflicts / mine / save / notify.

pub mod account;
pub mod address;
pub mod block;
pub mod broadcast;
pub mod config;
pub mod execution;
pub mod executor;
pub mod hash;
pub mod hexcodec;
pub mod log;
pub mod log_filter;
pub mod miner;
pub mod pg_rows;
pub mod storage;
pub mod transaction;
pub mod values;

