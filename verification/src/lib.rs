//! Staking ledger: deterministic account addresses, account validation and
//! overflow-checked accumulation of staked amounts.
pub mod address;
pub mod laws;
pub mod ledger;
pub mod stake;
pub mod store;

pub use address::Address;
pub use ledger::StakeError;
pub use ledger::StakeEvent;
pub use ledger::Staker;
pub use stake::do_stake;
pub use stake::DerivedAddresses;
pub use stake::TokenAccount;
pub use stake::Transfer;
pub use stake::TransferOutcome;
pub use stake::UserStake;
pub use store::Ledger;
