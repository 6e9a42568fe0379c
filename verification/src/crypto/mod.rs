//! Keys, and what nodes do with them.

pub mod calls;
pub mod cipher;
pub mod keys;
pub mod keyvault;
