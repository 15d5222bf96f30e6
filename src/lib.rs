//! A fungible token ledger: balances and allowances over a fixed supply, verified with Verus.

pub mod account;
pub mod erc20;
pub mod event;
pub mod storage;
pub mod sum;

pub use account::{AccountId, Balance};
pub use erc20::Erc20;
pub use event::{Approval, Event, Transfer};
