//! The storage cell manager.
//!
//! Low-level mutations of one backing cell: reducing a cell to the terminal
//! tombstone, and swapping a record cell's payload while keeping its header.
//! The ordering inside a wipe matters: the content is sentineled first and
//! the funds drained after, within one atomic operation, so no state ever
//! shows live content without funds or funds without sentineled content.

use vstd::prelude::*;
use crate::codec::{copy_range, push_bytes};
use crate::state::{Account, RECORD_HEADER_LEN, TOMBSTONE_BYTE};

verus! {

/// Reduces a cell to exactly one sentinel byte with zero funds and hands
/// back everything it held, for the payer. The cell's address, domain and
/// signer flag stay as they were.
pub fn wipe_to_tombstone(cell: &mut Account) -> (drained: u64)
    ensures
        drained == old(cell).lamports,
        final(cell)@.data == seq![TOMBSTONE_BYTE],
        final(cell).lamports == 0,
        final(cell)@.key == old(cell)@.key,
        final(cell)@.owner_program == old(cell)@.owner_program,
        final(cell).is_signer == old(cell).is_signer,
{
    let mut tomb: Vec<u8> = Vec::new();
    tomb.push(TOMBSTONE_BYTE);
    cell.data = tomb;
    let drained = cell.lamports;
    cell.lamports = 0;
    proof {
        assert(cell.data@ =~= seq![TOMBSTONE_BYTE]);
    }
    drained
}

/// Replaces everything after the fixed record header with the new payload,
/// truncating or growing the cell to exactly the new total length. Funds
/// are not touched here: the caller moves the resize delta.
pub fn replace_payload(cell: &mut Account, payload: &Vec<u8>)
    requires
        old(cell)@.data.len() >= RECORD_HEADER_LEN,
    ensures
        final(cell)@.data == old(cell)@.data.subrange(0, RECORD_HEADER_LEN as int) + payload@,
        final(cell).lamports == old(cell).lamports,
        final(cell)@.key == old(cell)@.key,
        final(cell)@.owner_program == old(cell)@.owner_program,
        final(cell).is_signer == old(cell).is_signer,
{
    let mut new_data = copy_range(&cell.data, 0, RECORD_HEADER_LEN);
    push_bytes(&mut new_data, payload);
    cell.data = new_data;
}

} // verus!
