//! The authority resolver.
//!
//! Decides whether a caller may mutate a given record. Freeze and update are
//! class-authority-gated: a registrar administers the records under its
//! namespace. Delete is owner/delegate-gated: the record holder controls
//! destruction and reclamation of their own funds. The two gates are
//! intentionally distinct and must not be conflated.

use vstd::prelude::*;
use crate::codec::{
    range_matches, spec_class_decodable, spec_decode_class, spec_decode_record,
    spec_record_decodable, bytes_eq,
};
use crate::error::RegistryError;
use crate::state::{
    Account, AccountView, CLASS_AUTHORITY_OFFSET, CLASS_OFFSET, DELEGATE_FLAG_OFFSET,
    DELEGATE_KEY_OFFSET, DISCRIMINATOR_OFFSET, IS_FROZEN_OFFSET, KEY_LEN, OWNER_OFFSET,
    RECORD_DISCRIMINATOR, RECORD_HEADER_LEN, TOMBSTONE_BYTE,
};

verus! {

/// True of a cell already reduced to the terminal tombstone: one byte
/// holding the sentinel. Such a cell is permanently dead.
pub open spec fn spec_tombstoned(a: AccountView) -> bool {
    a.data.len() == 1 && a.data[0] == TOMBSTONE_BYTE
}

/// True of a cell that is owned by the registry's storage domain and holds a
/// decodable record.
pub open spec fn spec_record_cell_valid(program_id: Seq<u8>, a: AccountView) -> bool {
    a.owner_program == program_id && spec_record_decodable(a.data)
}

/// True of a cell that is owned by the registry's storage domain and holds a
/// decodable class.
pub open spec fn spec_class_cell_valid(program_id: Seq<u8>, a: AccountView) -> bool {
    a.owner_program == program_id && spec_class_decodable(a.data)
}

/// True when the class reference stored in the record cell names the given
/// class cell.
pub open spec fn spec_class_reference_ok(record: AccountView, class: AccountView) -> bool {
    spec_decode_record(record.data).class == class.key
}

/// The class-authority gate: the class cell must be valid, the caller must
/// have signed, and the caller must be the class authority.
pub open spec fn spec_check_authority(
    program_id: Seq<u8>,
    class: AccountView,
    caller: AccountView,
) -> Result<(), RegistryError> {
    if !spec_class_cell_valid(program_id, class) {
        Result::Err(RegistryError::MalformedData)
    } else if !caller.is_signer {
        Result::Err(RegistryError::MissingSignature)
    } else if caller.key != spec_decode_class(class.data).authority {
        Result::Err(RegistryError::Unauthorized)
    } else {
        Result::Ok(())
    }
}

/// The owner/delegate gate of deletion. A record already in tombstoned form
/// passes: deleting it again is an idempotent no-op, not an error.
/// Otherwise the record cell must be valid and the caller must be a signer
/// and either the owner or the stored delegate.
pub open spec fn spec_check_owner_or_delegate_or_deleted(
    program_id: Seq<u8>,
    record: AccountView,
    caller: AccountView,
) -> Result<(), RegistryError> {
    if spec_tombstoned(record) {
        Result::Ok(())
    } else if !spec_record_cell_valid(program_id, record) {
        Result::Err(RegistryError::MalformedData)
    } else if !caller.is_signer {
        Result::Err(RegistryError::MissingSignature)
    } else {
        let rec = spec_decode_record(record.data);
        let is_owner = caller.key == rec.owner;
        let is_delegate = match rec.delegate {
            Option::Some(d) => caller.key == d,
            Option::None => false,
        };
        if is_owner || is_delegate {
            Result::Ok(())
        } else {
            Result::Err(RegistryError::Unauthorized)
        }
    }
}

/// True of a cell already reduced to the terminal tombstone.
pub fn is_tombstoned(a: &Account) -> (r: bool)
    ensures
        r == spec_tombstoned(a@),
{
    a.data.len() == 1 && a.data[0] == TOMBSTONE_BYTE
}

/// Verifies that the cell is owned by the registry's own storage domain and
/// carries the expected discriminator (with valid flag bytes), before any
/// offset-based field read; a foreign-owned or wrong-layout buffer must
/// never be interpreted as a record.
pub fn check_program_id_and_discriminator(record: &Account, program_id: &Vec<u8>) -> (r: Result<
    (),
    RegistryError,
>)
    ensures
        r is Ok <==> spec_record_cell_valid(program_id@, record@),
        r is Err ==> r == Result::<(), RegistryError>::Err(RegistryError::MalformedData),
{
    if !bytes_eq(&record.owner_program, program_id) {
        return Result::Err(RegistryError::MalformedData);
    }
    if record.data.len() < RECORD_HEADER_LEN {
        return Result::Err(RegistryError::MalformedData);
    }
    if record.data[DISCRIMINATOR_OFFSET] != RECORD_DISCRIMINATOR {
        return Result::Err(RegistryError::MalformedData);
    }
    if record.data[IS_FROZEN_OFFSET] > 1 {
        return Result::Err(RegistryError::MalformedData);
    }
    if record.data[DELEGATE_FLAG_OFFSET] > 1 {
        return Result::Err(RegistryError::MalformedData);
    }
    Result::Ok(())
}

/// The class-authority gate over concrete cells.
pub fn check_authority(class: &Account, caller: &Account, program_id: &Vec<u8>) -> (r: Result<
    (),
    RegistryError,
>)
    ensures
        r == spec_check_authority(program_id@, class@, caller@),
{
    if !bytes_eq(&class.owner_program, program_id) {
        return Result::Err(RegistryError::MalformedData);
    }
    if class.data.len() < crate::state::CLASS_HEADER_LEN {
        return Result::Err(RegistryError::MalformedData);
    }
    if class.data[DISCRIMINATOR_OFFSET] != crate::state::CLASS_DISCRIMINATOR {
        return Result::Err(RegistryError::MalformedData);
    }
    if class.data[crate::state::IS_PERMISSIONED_OFFSET] > 1 {
        return Result::Err(RegistryError::MalformedData);
    }
    if !caller.is_signer {
        return Result::Err(RegistryError::MissingSignature);
    }
    if caller.key.len() != KEY_LEN {
        return Result::Err(RegistryError::Unauthorized);
    }
    if !range_matches(&class.data, CLASS_AUTHORITY_OFFSET, &caller.key) {
        return Result::Err(RegistryError::Unauthorized);
    }
    Result::Ok(())
}

/// The owner/delegate/tombstone gate of deletion over concrete cells.
pub fn check_owner_or_delegate_or_deleted(
    record: &Account,
    caller: &Account,
    program_id: &Vec<u8>,
) -> (r: Result<(), RegistryError>)
    ensures
        r == spec_check_owner_or_delegate_or_deleted(program_id@, record@, caller@),
{
    if is_tombstoned(record) {
        return Result::Ok(());
    }
    if let Result::Err(e) = check_program_id_and_discriminator(record, program_id) {
        return Result::Err(e);
    }
    if !caller.is_signer {
        return Result::Err(RegistryError::MissingSignature);
    }
    if caller.key.len() != KEY_LEN {
        return Result::Err(RegistryError::Unauthorized);
    }
    if range_matches(&record.data, OWNER_OFFSET, &caller.key) {
        return Result::Ok(());
    }
    if record.data[DELEGATE_FLAG_OFFSET] == 1 && range_matches(
        &record.data,
        DELEGATE_KEY_OFFSET,
        &caller.key,
    ) {
        return Result::Ok(());
    }
    Result::Err(RegistryError::Unauthorized)
}

/// Verifies that the class reference stored at its fixed offset in the
/// record cell names the given class cell; read without a full decode.
pub fn check_class_reference(record: &Account, class: &Account) -> (r: Result<(), RegistryError>)
    requires
        record@.data.len() >= RECORD_HEADER_LEN,
    ensures
        r is Ok <==> spec_class_reference_ok(record@, class@),
        r is Err ==> r == Result::<(), RegistryError>::Err(RegistryError::MalformedData),
{
    if class.key.len() != KEY_LEN {
        return Result::Err(RegistryError::MalformedData);
    }
    if !range_matches(&record.data, CLASS_OFFSET, &class.key) {
        return Result::Err(RegistryError::MalformedData);
    }
    proof {
        assert(spec_decode_record(record@.data).class == record@.data.subrange(
            CLASS_OFFSET as int,
            IS_FROZEN_OFFSET as int,
        ));
    }
    Result::Ok(())
}

} // verus!
