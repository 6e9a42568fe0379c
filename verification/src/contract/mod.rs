//! The contracts. Each holds its storage as plain values, takes what the chain tells it
//! (the caller, the time) as arguments, and appends what it emits to a log.

pub mod datasource;
pub mod erc20;
pub mod token_calls;
pub mod token_laws;
pub mod registry;
pub mod registry_calls;
pub mod registry_laws;
pub mod stylus_pool;
pub mod stylus_pool_calls;
pub mod stylus_pool_laws;
pub mod ink_pool;
pub mod ink_pool_calls;
pub mod ink_pool_laws;
