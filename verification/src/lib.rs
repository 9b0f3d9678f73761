//! Verified core logic of a ledger engine: fixed-point amounts, access
//! rule resolution, fungible proofs, validator staking decisions and
//! node substate layouts.
pub mod wide;
pub mod collections;
pub mod decimal;
pub mod address;
pub mod scrypto_value;
pub mod access_rule;
pub mod auth_converter;
pub mod fungible_proof;
pub mod validator;
pub mod substates;
pub mod node;
pub mod well_known;
pub mod validator_access;
pub mod logger;
pub mod validator_index;
