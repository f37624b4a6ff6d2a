//! A linear-vesting payment engine: an owner deposits a fungible-token amount
//! for a recipient, which unlocks continuously between a start and an end
//! timestamp; the recipient may withdraw the unlocked portion at any time.
//!
//! The crate is the verified core: stream creation and validation, the
//! integer rate derivation with exact remainder handling, the withdrawal
//! settlement, and the registry that stores streams and the participant
//! index. The host environment (storage, address validation, token
//! transfers, wire formats) sits outside and hands the core plain values.

pub mod contract;
pub mod error;
pub mod msg;
pub mod state;

