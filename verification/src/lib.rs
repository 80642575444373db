//! A fungible-asset ledger with delegated spending, supply control, account
//! freezing and a two-step admin handover, together with a cliff-plus-linear
//! vesting engine. Every operation carries a contract over a mathematical
//! model of the state, and the accounting laws are proved from those
//! contracts.

pub mod address;
pub mod sum;
pub mod table;
pub mod token;
pub mod token_laws;
pub mod vesting;
pub mod vesting_laws;
