//! Core of a trading-task orchestration engine.
//!
//! A task is bound to a group of wallets on one chain; starting it spawns a
//! pool of workers that repeatedly lease a wallet key, decide to buy or sell
//! the configured token, hand the trade to a chain-specific executor and
//! release the key, while a supervising state machine allows starting,
//! graceful stopping and removal of the task.

pub mod chain;
pub mod consts;
pub mod error;
pub mod events;
pub mod jito;
pub mod pool;
pub mod project;
pub mod registry;
pub mod task;
pub mod token;
pub mod trade;
pub mod transfer;
pub mod utils;
pub mod wallet;
pub mod wire;
pub mod worker;
mod rng;
