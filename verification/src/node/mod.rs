//! What a node decides between its calls to the network, the chain and the document store.

pub mod announcement;
pub mod calls;
pub mod client;
pub mod service;
pub mod sync;
pub mod worker;
