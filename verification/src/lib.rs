//! A permissioned, persistent record registry.
//!
//! Named storage entries ("records") are grouped under shared policy
//! containers ("classes"). Each record is owned by an authority, optionally
//! administered by a delegate, optionally frozen against mutation, and backed
//! by a variable-length opaque data payload held in a storage cell whose size
//! can change.
//!
//! The crate verifies the record lifecycle and access-control engine: the
//! fixed-offset binary layout of persisted entries, the authority and
//! delegation resolution rules, and the four state transitions (delete,
//! freeze/unfreeze, update data, update expiry) together with the fund
//! movement that accompanies a cell resize or a deletion.

pub mod authority;
pub mod cell;
pub mod codec;
pub mod delete_record;
pub mod error;
pub mod freeze_record;
pub mod laws;
pub mod state;
pub mod token2022;
pub mod update_record;
