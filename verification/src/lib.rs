//! Verified core of a threshold-encryption network: the contracts that hold
//! tokens, predicates and decryption requests, and the decisions that a node
//! takes between its network calls.

pub mod bytes;
pub mod table;
pub mod uint256;
pub mod hashing;
pub mod contract;
pub mod text;
pub mod scale;
pub mod hexadecimal;
pub mod crypto;
pub mod backend;
pub mod pool;
pub mod message;
pub mod gadget;
pub mod calls;
pub mod node;
