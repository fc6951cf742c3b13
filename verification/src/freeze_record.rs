//! The freeze / unfreeze operation.
//!
//! Sets or clears a record's frozen flag; no other field is touched. The
//! caller must be the class authority: freezing is a registrar's power, not
//! the owner's.
//!
//! Accounts, positional: `[authority (signer), record, class]`.
//! Payload: one byte at offset zero, the new frozen flag.

use vstd::prelude::*;
use crate::authority::{
    check_authority, check_class_reference, check_program_id_and_discriminator,
    spec_check_authority, spec_class_reference_ok, spec_record_cell_valid,
};
use crate::codec::{bool_byte, parse_freeze_args, spec_parse_freeze_args};
use crate::error::RegistryError;
use crate::state::{
    accounts_view, lemma_accounts_view_update, Account, AccountView, Context, ContextView,
    IS_FROZEN_OFFSET, RECORD_HEADER_LEN,
};

verus! {

/// Index of the signing authority in the account list.
pub const FREEZE_AUTHORITY_INDEX: usize = 0;

/// Index of the record cell in the account list.
pub const FREEZE_RECORD_INDEX: usize = 1;

/// Index of the class cell in the account list.
pub const FREEZE_CLASS_INDEX: usize = 2;

/// The full validation of a freeze call: account shape, class-authority
/// gate, record cell validity, class reference, then the one-byte payload.
/// No mutation may begin unless this yields the parsed flag.
pub open spec fn spec_validate_freeze(
    program_id: Seq<u8>,
    accounts: Seq<AccountView>,
    args: Seq<u8>,
) -> Result<bool, RegistryError> {
    if accounts.len() != 3 {
        Result::Err(RegistryError::NotEnoughAccounts)
    } else {
        let authority = accounts[FREEZE_AUTHORITY_INDEX as int];
        let record = accounts[FREEZE_RECORD_INDEX as int];
        let class = accounts[FREEZE_CLASS_INDEX as int];
        match spec_check_authority(program_id, class, authority) {
            Result::Err(e) => Result::Err(e),
            Result::Ok(()) => if !spec_record_cell_valid(program_id, record) {
                Result::Err(RegistryError::MalformedData)
            } else if !spec_class_reference_ok(record, class) {
                Result::Err(RegistryError::MalformedData)
            } else {
                spec_parse_freeze_args(args)
            },
        }
    }
}

/// The effect of a freeze call: the record cell with its frozen byte set to
/// the flag, every other byte and account untouched.
pub open spec fn spec_apply_freeze(accounts: Seq<AccountView>, flag: bool) -> Seq<AccountView> {
    let record = accounts[FREEZE_RECORD_INDEX as int];
    accounts.update(
        FREEZE_RECORD_INDEX as int,
        AccountView { data: record.data.update(IS_FROZEN_OFFSET as int, bool_byte(flag)), ..record },
    )
}

/// The whole freeze transition: validation, then the effect; a failure
/// leaves the state untouched.
pub open spec fn spec_freeze_transition(program_id: Seq<u8>, ctx: ContextView) -> Result<
    ContextView,
    RegistryError,
> {
    match spec_validate_freeze(program_id, ctx.accounts, ctx.data) {
        Result::Ok(flag) => Result::Ok(
            ContextView { accounts: spec_apply_freeze(ctx.accounts, flag), data: ctx.data },
        ),
        Result::Err(e) => Result::Err(e),
    }
}

/// The validated account positions of a freeze call.
pub struct FreezeRecordAccounts {
    /// Index of the record cell to be frozen or unfrozen.
    pub record: usize,
}

impl FreezeRecordAccounts {
    /// Validates the account list of a freeze call.
    pub fn try_from(program_id: &Vec<u8>, accounts: &Vec<Account>) -> (r: Result<
        Self,
        RegistryError,
    >)
        ensures
            match r {
                Result::Ok(v) => v.record == FREEZE_RECORD_INDEX && accounts_view(
                    accounts@,
                ).len() == 3 && spec_check_authority(
                    program_id@,
                    accounts_view(accounts@)[FREEZE_CLASS_INDEX as int],
                    accounts_view(accounts@)[FREEZE_AUTHORITY_INDEX as int],
                ) is Ok && spec_record_cell_valid(
                    program_id@,
                    accounts_view(accounts@)[FREEZE_RECORD_INDEX as int],
                ) && spec_class_reference_ok(
                    accounts_view(accounts@)[FREEZE_RECORD_INDEX as int],
                    accounts_view(accounts@)[FREEZE_CLASS_INDEX as int],
                ),
                Result::Err(e) => forall|args: Seq<u8>|
                    spec_validate_freeze(program_id@, accounts_view(accounts@), args)
                        == Result::<bool, RegistryError>::Err(e),
            },
    {
        if accounts.len() != 3 {
            return Result::Err(RegistryError::NotEnoughAccounts);
        }
        let authority = &accounts[FREEZE_AUTHORITY_INDEX];
        let record = &accounts[FREEZE_RECORD_INDEX];
        let class = &accounts[FREEZE_CLASS_INDEX];
        if let Result::Err(e) = check_authority(class, authority, program_id) {
            return Result::Err(e);
        }
        if let Result::Err(e) = check_program_id_and_discriminator(record, program_id) {
            return Result::Err(e);
        }
        if let Result::Err(e) = check_class_reference(record, class) {
            return Result::Err(e);
        }
        Result::Ok(FreezeRecordAccounts { record: FREEZE_RECORD_INDEX })
    }
}

/// A fully validated freeze call, ready to execute.
pub struct FreezeRecord {
    /// The validated account positions.
    pub accounts: FreezeRecordAccounts,
    /// The parsed flag: freeze when set, unfreeze when clear.
    pub is_frozen: bool,
}

impl FreezeRecord {
    /// Validates the accounts and decodes the payload of a freeze call.
    pub fn try_from(program_id: &Vec<u8>, accounts: &Vec<Account>, data: &Vec<u8>) -> (r: Result<
        Self,
        RegistryError,
    >)
        ensures
            match r {
                Result::Ok(v) => v.accounts.record == FREEZE_RECORD_INDEX && spec_validate_freeze(
                    program_id@,
                    accounts_view(accounts@),
                    data@,
                ) == Result::<bool, RegistryError>::Ok(v.is_frozen),
                Result::Err(e) => spec_validate_freeze(program_id@, accounts_view(accounts@), data@)
                    == Result::<bool, RegistryError>::Err(e),
            },
    {
        let validated = match FreezeRecordAccounts::try_from(program_id, accounts) {
            Result::Ok(v) => v,
            Result::Err(e) => {
                return Result::Err(e);
            },
        };
        let is_frozen = match parse_freeze_args(data) {
            Result::Ok(b) => b,
            Result::Err(e) => {
                return Result::Err(e);
            },
        };
        Result::Ok(FreezeRecord { accounts: validated, is_frozen })
    }
}

impl FreezeRecord {
    /// Applies the frozen flag to the record cell, in place.
    pub fn execute(&self, ctx: &mut Context)
        requires
            self.accounts.record == FREEZE_RECORD_INDEX,
            old(ctx)@.accounts.len() == 3,
            old(ctx)@.accounts[FREEZE_RECORD_INDEX as int].data.len() >= RECORD_HEADER_LEN,
        ensures
            final(ctx)@.accounts == spec_apply_freeze(old(ctx)@.accounts, self.is_frozen),
            final(ctx)@.data == old(ctx)@.data,
    {
        let b: u8 = if self.is_frozen {
            1u8
        } else {
            0u8
        };
        let rec = &mut ctx.accounts[FREEZE_RECORD_INDEX];
        let slot = &mut rec.data[IS_FROZEN_OFFSET];
        *slot = b;
        proof {
            lemma_accounts_view_update(
                old(ctx).accounts@,
                FREEZE_RECORD_INDEX as int,
                ctx.accounts@[FREEZE_RECORD_INDEX as int],
            );
            assert(ctx.accounts@ =~= old(ctx).accounts@.update(
                FREEZE_RECORD_INDEX as int,
                ctx.accounts@[FREEZE_RECORD_INDEX as int],
            ));
            assert(ctx@.accounts =~~= spec_apply_freeze(old(ctx)@.accounts, self.is_frozen));
        }
    }

    /// The freeze operation: validate fully, then set the flag. On failure
    /// nothing changes; on success exactly the record's frozen byte does.
    pub fn process(program_id: &Vec<u8>, ctx: &mut Context) -> (r: Result<(), RegistryError>)
        ensures
            match r {
                Result::Ok(()) => spec_freeze_transition(program_id@, old(ctx)@) == Result::<
                    ContextView,
                    RegistryError,
                >::Ok(final(ctx)@),
                Result::Err(e) => spec_freeze_transition(program_id@, old(ctx)@) == Result::<
                    ContextView,
                    RegistryError,
                >::Err(e) && *final(ctx) == *old(ctx),
            },
    {
        let op = match FreezeRecord::try_from(program_id, &ctx.accounts, &ctx.data) {
            Result::Ok(v) => v,
            Result::Err(e) => {
                return Result::Err(e);
            },
        };
        op.execute(ctx);
        proof {
            let t = spec_freeze_transition(program_id@, old(ctx)@);
            assert(t matches Result::Ok(c) && c =~~= ctx@);
        }
        Result::Ok(())
    }
}

} // verus!
