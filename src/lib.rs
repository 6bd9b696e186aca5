//! A constant-product liquidity pool over two assets, with a plain fungible
//! token ledger beside it, each proved against its contracts.
pub mod ledger;
pub mod pool;
pub mod token;
