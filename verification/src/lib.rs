//! A repurchase ("repo") agreement between a borrower and a lender, settled in
//! two ERC20-style tokens: the lender lends an amount of the loan token against
//! a security deposit in the security token, and the borrower returns the loan
//! with interest before a deadline to get the security back.
//!
//! The library holds the agreement's rules. Every effect on the chain (storage
//! writes, event logs, token calls, self-destruction) is returned as a value
//! for the host to perform, see [`effects`].

pub mod uint;
pub mod word;
pub mod storage;
pub mod layout;
pub mod effects;
pub mod contract;
pub mod laws;
