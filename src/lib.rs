//! Entitlement and access-control engine for a family of ledger-hosted
//! contracts: an ownership handshake, a tiered airdrop claim ledger, a
//! staking-exclusivity gateway, an offering admission gate with a paginated
//! participant registry, a KYC / terms-of-use vault and a vesting router.
//!
//! Every operation is a pure function of the stored records, the message and
//! the call context (caller, time, answers of delegate contracts); the host
//! glue that loads and stores records and performs queries lives outside.
pub mod bytes;
pub mod errors;
pub mod math;
pub mod ownership;
pub mod common;
pub mod airdrop;
pub mod staking_gateway;
pub mod registry;
pub mod ido;
pub mod kyc_vault;
pub mod vesting_gateway;
pub mod delegate_table;
