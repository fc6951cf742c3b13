//! The update-data and update-expiry operations.
//!
//! Both are class-authority-gated and honour the frozen lock: a frozen
//! record rejects either update until it is unfrozen. Update-data replaces
//! the payload and resizes the cell, moving the backing-fund delta between
//! the cell and the payer (growth is funded by the payer, shrinkage refunds
//! the payer). Update-expiry overwrites the eight-byte expiry field in
//! place, with no resize and no fund movement.
//!
//! Accounts, positional:
//! `[authority (signer), payer, record, class, system-program]`.

use vstd::prelude::*;
use crate::authority::{
    check_authority, check_class_reference, check_program_id_and_discriminator,
    spec_check_authority, spec_class_reference_ok, spec_record_cell_valid,
};
use crate::codec::{
    parse_expiry_args, parse_update_data_args, spec_decode_record, spec_encode_expiry,
    spec_parse_expiry_args, write_range,
};
use vstd::bytes::u64_to_le_bytes;
use crate::error::RegistryError;
use crate::state::{
    accounts_view, lemma_accounts_view_update, Account, AccountView, Context, ContextView,
    EXPIRY_OFFSET, DELEGATE_FLAG_OFFSET, IS_FROZEN_OFFSET, MAX_CELL_LEN, RECORD_HEADER_LEN,
    RENT_PER_BYTE,
};

verus! {

/// Index of the signing authority in the account list.
pub const UPDATE_AUTHORITY_INDEX: usize = 0;

/// Index of the payer in the account list.
pub const UPDATE_PAYER_INDEX: usize = 1;

/// Index of the record cell in the account list.
pub const UPDATE_RECORD_INDEX: usize = 2;

/// Index of the class cell in the account list.
pub const UPDATE_CLASS_INDEX: usize = 3;

/// The account validation shared by both update operations: account shape,
/// explicit signer check, class-authority gate, record cell validity and
/// class reference.
pub open spec fn spec_validate_update_accounts(
    program_id: Seq<u8>,
    accounts: Seq<AccountView>,
) -> Result<(), RegistryError> {
    if accounts.len() != 5 {
        Result::Err(RegistryError::NotEnoughAccounts)
    } else {
        let authority = accounts[UPDATE_AUTHORITY_INDEX as int];
        let record = accounts[UPDATE_RECORD_INDEX as int];
        let class = accounts[UPDATE_CLASS_INDEX as int];
        if !authority.is_signer {
            Result::Err(RegistryError::MissingSignature)
        } else {
            match spec_check_authority(program_id, class, authority) {
                Result::Err(e) => Result::Err(e),
                Result::Ok(()) => if !spec_record_cell_valid(program_id, record) {
                    Result::Err(RegistryError::MalformedData)
                } else if !spec_class_reference_ok(record, class) {
                    Result::Err(RegistryError::MalformedData)
                } else {
                    Result::Ok(())
                },
            }
        }
    }
}

/// The validated account positions of an update call.
pub struct UpdateRecordAccounts {
    /// Index of the payer that funds growth and receives refunds.
    pub payer: usize,
    /// Index of the record cell to be updated.
    pub record: usize,
}

impl UpdateRecordAccounts {
    /// Validates the account list of an update call.
    pub fn try_from(program_id: &Vec<u8>, accounts: &Vec<Account>) -> (r: Result<
        Self,
        RegistryError,
    >)
        ensures
            match r {
                Result::Ok(v) => v.payer == UPDATE_PAYER_INDEX && v.record == UPDATE_RECORD_INDEX
                    && spec_validate_update_accounts(program_id@, accounts_view(accounts@))
                    == Result::<(), RegistryError>::Ok(()),
                Result::Err(e) => spec_validate_update_accounts(
                    program_id@,
                    accounts_view(accounts@),
                ) == Result::<(), RegistryError>::Err(e),
            },
    {
        if accounts.len() != 5 {
            return Result::Err(RegistryError::NotEnoughAccounts);
        }
        let authority = &accounts[UPDATE_AUTHORITY_INDEX];
        let record = &accounts[UPDATE_RECORD_INDEX];
        let class = &accounts[UPDATE_CLASS_INDEX];
        if !authority.is_signer {
            return Result::Err(RegistryError::MissingSignature);
        }
        if let Result::Err(e) = check_authority(class, authority, program_id) {
            return Result::Err(e);
        }
        if let Result::Err(e) = check_program_id_and_discriminator(record, program_id) {
            return Result::Err(e);
        }
        if let Result::Err(e) = check_class_reference(record, class) {
            return Result::Err(e);
        }
        Result::Ok(
            UpdateRecordAccounts { payer: UPDATE_PAYER_INDEX, record: UPDATE_RECORD_INDEX },
        )
    }
}

/// The full validation of an update-data call. After the shared account
/// checks: the frozen lock, the size cap on the existing cell, and the size
/// cap on the requested cell. The new payload is the whole argument buffer.
pub open spec fn spec_validate_update_data(
    program_id: Seq<u8>,
    accounts: Seq<AccountView>,
    args: Seq<u8>,
) -> Result<Seq<u8>, RegistryError> {
    match spec_validate_update_accounts(program_id, accounts) {
        Result::Err(e) => Result::Err(e),
        Result::Ok(()) => {
            let record = accounts[UPDATE_RECORD_INDEX as int];
            if spec_decode_record(record.data).is_frozen {
                Result::Err(RegistryError::Unauthorized)
            } else if record.data.len() > MAX_CELL_LEN {
                Result::Err(RegistryError::MalformedData)
            } else if RECORD_HEADER_LEN + args.len() > MAX_CELL_LEN {
                Result::Err(RegistryError::InvalidArgument)
            } else {
                Result::Ok(args)
            }
        },
    }
}

/// The backing-fund delta of a resize from `old_len` to `new_len` bytes.
pub open spec fn spec_resize_delta(old_len: int, new_len: int) -> int {
    if new_len >= old_len {
        RENT_PER_BYTE * (new_len - old_len)
    } else {
        RENT_PER_BYTE * (old_len - new_len)
    }
}

/// True when the payer can fund growth (or the cell and payer can absorb a
/// refund) without leaving the machine's fund range.
pub open spec fn spec_update_data_funds_ok(accounts: Seq<AccountView>, payload: Seq<u8>) -> bool {
    let payer = accounts[UPDATE_PAYER_INDEX as int];
    let record = accounts[UPDATE_RECORD_INDEX as int];
    let old_len = record.data.len() as int;
    let new_len = RECORD_HEADER_LEN + payload.len();
    let delta = spec_resize_delta(old_len, new_len);
    if new_len >= old_len {
        payer.lamports >= delta && record.lamports + delta <= u64::MAX
    } else {
        record.lamports >= delta && payer.lamports + delta <= u64::MAX
    }
}

/// The effect of an update-data call: the record's payload replaced, its
/// cell capacity changed by exactly the length difference, and the fund
/// delta moved in the matching direction.
pub open spec fn spec_apply_update_data(
    accounts: Seq<AccountView>,
    payload: Seq<u8>,
) -> Seq<AccountView> {
    let payer = accounts[UPDATE_PAYER_INDEX as int];
    let record = accounts[UPDATE_RECORD_INDEX as int];
    let old_len = record.data.len() as int;
    let new_len = RECORD_HEADER_LEN + payload.len();
    let delta = spec_resize_delta(old_len, new_len);
    let new_data = record.data.subrange(0, RECORD_HEADER_LEN as int) + payload;
    let new_record_lamports = if new_len >= old_len {
        record.lamports + delta
    } else {
        record.lamports - delta
    };
    let new_payer_lamports = if new_len >= old_len {
        payer.lamports - delta
    } else {
        payer.lamports + delta
    };
    accounts.update(
        UPDATE_RECORD_INDEX as int,
        AccountView { data: new_data, lamports: new_record_lamports as u64, ..record },
    ).update(
        UPDATE_PAYER_INDEX as int,
        AccountView { lamports: new_payer_lamports as u64, ..payer },
    )
}

/// The whole update-data transition: validation, then the effect; a failure
/// leaves the state untouched.
pub open spec fn spec_update_data_transition(program_id: Seq<u8>, ctx: ContextView) -> Result<
    ContextView,
    RegistryError,
> {
    match spec_validate_update_data(program_id, ctx.accounts, ctx.data) {
        Result::Ok(payload) => Result::Ok(
            ContextView { accounts: spec_apply_update_data(ctx.accounts, payload), data: ctx.data },
        ),
        Result::Err(e) => Result::Err(e),
    }
}

/// A fully validated update-data call, ready to execute.
pub struct UpdateRecordData {
    /// The validated account positions.
    pub accounts: UpdateRecordAccounts,
    /// The new payload, consumed to the end of the argument buffer.
    pub data: Vec<u8>,
}

impl UpdateRecordData {
    /// Validates the accounts and decodes the payload of an update-data
    /// call.
    pub fn try_from(program_id: &Vec<u8>, accounts: &Vec<Account>, data: &Vec<u8>) -> (r: Result<
        Self,
        RegistryError,
    >)
        ensures
            match r {
                Result::Ok(v) => v.accounts.payer == UPDATE_PAYER_INDEX && v.accounts.record
                    == UPDATE_RECORD_INDEX && spec_validate_update_data(
                    program_id@,
                    accounts_view(accounts@),
                    data@,
                ) == Result::<Seq<u8>, RegistryError>::Ok(v.data@),
                Result::Err(e) => spec_validate_update_data(
                    program_id@,
                    accounts_view(accounts@),
                    data@,
                ) == Result::<Seq<u8>, RegistryError>::Err(e),
            },
    {
        let validated = match UpdateRecordAccounts::try_from(program_id, accounts) {
            Result::Ok(v) => v,
            Result::Err(e) => {
                return Result::Err(e);
            },
        };
        let record = &accounts[UPDATE_RECORD_INDEX];
        if record.data[IS_FROZEN_OFFSET] == 1 {
            return Result::Err(RegistryError::Unauthorized);
        }
        if record.data.len() > MAX_CELL_LEN {
            return Result::Err(RegistryError::MalformedData);
        }
        if data.len() > MAX_CELL_LEN - RECORD_HEADER_LEN {
            return Result::Err(RegistryError::InvalidArgument);
        }
        let payload = parse_update_data_args(data);
        Result::Ok(UpdateRecordData { accounts: validated, data: payload })
    }

    /// Replaces the payload, resizes the cell and moves the fund delta.
    pub fn execute(&self, ctx: &mut Context)
        requires
            self.accounts.payer == UPDATE_PAYER_INDEX,
            self.accounts.record == UPDATE_RECORD_INDEX,
            old(ctx)@.accounts.len() == 5,
            old(ctx)@.accounts[UPDATE_RECORD_INDEX as int].data.len() >= RECORD_HEADER_LEN,
            old(ctx)@.accounts[UPDATE_RECORD_INDEX as int].data.len() <= MAX_CELL_LEN,
            RECORD_HEADER_LEN + self.data@.len() <= MAX_CELL_LEN,
            spec_update_data_funds_ok(old(ctx)@.accounts, self.data@),
        ensures
            final(ctx)@.accounts == spec_apply_update_data(old(ctx)@.accounts, self.data@),
            final(ctx)@.data == old(ctx)@.data,
    {
        let old_len = ctx.accounts[UPDATE_RECORD_INDEX].data.len();
        let new_len = RECORD_HEADER_LEN + self.data.len();
        let diff: u64 = if new_len >= old_len {
            (new_len - old_len) as u64
        } else {
            (old_len - new_len) as u64
        };
        proof {
            assert(RENT_PER_BYTE * diff <= RENT_PER_BYTE * (MAX_CELL_LEN as u64))
                by (nonlinear_arith)
                requires
                    diff <= MAX_CELL_LEN as u64,
            ;
        }
        let delta: u64 = RENT_PER_BYTE * diff;
        let grow = new_len >= old_len;
        {
            let rec = &mut ctx.accounts[UPDATE_RECORD_INDEX];
            crate::cell::replace_payload(rec, &self.data);
            if grow {
                rec.lamports = rec.lamports + delta;
            } else {
                rec.lamports = rec.lamports - delta;
            }
        }
        proof {
            lemma_accounts_view_update(
                old(ctx).accounts@,
                UPDATE_RECORD_INDEX as int,
                ctx.accounts@[UPDATE_RECORD_INDEX as int],
            );
            assert(ctx.accounts@ =~= old(ctx).accounts@.update(
                UPDATE_RECORD_INDEX as int,
                ctx.accounts@[UPDATE_RECORD_INDEX as int],
            ));
        }
        let ghost mid = ctx.accounts@;
        {
            let payer = &mut ctx.accounts[UPDATE_PAYER_INDEX];
            if grow {
                payer.lamports = payer.lamports - delta;
            } else {
                payer.lamports = payer.lamports + delta;
            }
        }
        proof {
            lemma_accounts_view_update(
                mid,
                UPDATE_PAYER_INDEX as int,
                ctx.accounts@[UPDATE_PAYER_INDEX as int],
            );
            assert(ctx.accounts@ =~= mid.update(
                UPDATE_PAYER_INDEX as int,
                ctx.accounts@[UPDATE_PAYER_INDEX as int],
            ));
            assert(ctx@.accounts =~~= spec_apply_update_data(old(ctx)@.accounts, self.data@));
        }
    }

    /// The update-data operation: validate fully, then replace the payload,
    /// resize the cell and move the fund delta. On failure nothing changes.
    pub fn process(program_id: &Vec<u8>, ctx: &mut Context) -> (r: Result<(), RegistryError>)
        requires
            spec_validate_update_data(program_id@, old(ctx)@.accounts, old(ctx)@.data) is Ok
                ==> spec_update_data_funds_ok(old(ctx)@.accounts, old(ctx)@.data),
        ensures
            match r {
                Result::Ok(()) => spec_update_data_transition(program_id@, old(ctx)@) == Result::<
                    ContextView,
                    RegistryError,
                >::Ok(final(ctx)@),
                Result::Err(e) => spec_update_data_transition(program_id@, old(ctx)@) == Result::<
                    ContextView,
                    RegistryError,
                >::Err(e) && *final(ctx) == *old(ctx),
            },
    {
        let op = match UpdateRecordData::try_from(program_id, &ctx.accounts, &ctx.data) {
            Result::Ok(v) => v,
            Result::Err(e) => {
                return Result::Err(e);
            },
        };
        op.execute(ctx);
        proof {
            let t = spec_update_data_transition(program_id@, old(ctx)@);
            assert(t matches Result::Ok(c) && c =~~= ctx@);
        }
        Result::Ok(())
    }
}

/// The full validation of an update-expiry call: the shared account checks,
/// the frozen lock, then the eight-byte payload.
pub open spec fn spec_validate_update_expiry(
    program_id: Seq<u8>,
    accounts: Seq<AccountView>,
    args: Seq<u8>,
) -> Result<i64, RegistryError> {
    match spec_validate_update_accounts(program_id, accounts) {
        Result::Err(e) => Result::Err(e),
        Result::Ok(()) => {
            let record = accounts[UPDATE_RECORD_INDEX as int];
            if spec_decode_record(record.data).is_frozen {
                Result::Err(RegistryError::Unauthorized)
            } else {
                spec_parse_expiry_args(args)
            }
        },
    }
}

/// The effect of an update-expiry call: the eight expiry bytes overwritten
/// in place, every other byte and account untouched. No resize.
pub open spec fn spec_apply_update_expiry(accounts: Seq<AccountView>, expiry: i64) -> Seq<
    AccountView,
> {
    let record = accounts[UPDATE_RECORD_INDEX as int];
    let new_data = record.data.subrange(0, EXPIRY_OFFSET as int) + spec_encode_expiry(expiry)
        + record.data.subrange(DELEGATE_FLAG_OFFSET as int, record.data.len() as int);
    accounts.update(UPDATE_RECORD_INDEX as int, AccountView { data: new_data, ..record })
}

/// The whole update-expiry transition: validation, then the effect; a
/// failure leaves the state untouched.
pub open spec fn spec_update_expiry_transition(program_id: Seq<u8>, ctx: ContextView) -> Result<
    ContextView,
    RegistryError,
> {
    match spec_validate_update_expiry(program_id, ctx.accounts, ctx.data) {
        Result::Ok(x) => Result::Ok(
            ContextView { accounts: spec_apply_update_expiry(ctx.accounts, x), data: ctx.data },
        ),
        Result::Err(e) => Result::Err(e),
    }
}

/// A fully validated update-expiry call, ready to execute.
pub struct UpdateRecordExpiry {
    /// The validated account positions.
    pub accounts: UpdateRecordAccounts,
    /// The parsed little-endian signed timestamp.
    pub expiry: i64,
}

impl UpdateRecordExpiry {
    /// Validates the accounts and decodes the payload of an update-expiry
    /// call.
    pub fn try_from(program_id: &Vec<u8>, accounts: &Vec<Account>, data: &Vec<u8>) -> (r: Result<
        Self,
        RegistryError,
    >)
        ensures
            match r {
                Result::Ok(v) => v.accounts.payer == UPDATE_PAYER_INDEX && v.accounts.record
                    == UPDATE_RECORD_INDEX && spec_validate_update_expiry(
                    program_id@,
                    accounts_view(accounts@),
                    data@,
                ) == Result::<i64, RegistryError>::Ok(v.expiry),
                Result::Err(e) => spec_validate_update_expiry(
                    program_id@,
                    accounts_view(accounts@),
                    data@,
                ) == Result::<i64, RegistryError>::Err(e),
            },
    {
        let validated = match UpdateRecordAccounts::try_from(program_id, accounts) {
            Result::Ok(v) => v,
            Result::Err(e) => {
                return Result::Err(e);
            },
        };
        let record = &accounts[UPDATE_RECORD_INDEX];
        if record.data[IS_FROZEN_OFFSET] == 1 {
            return Result::Err(RegistryError::Unauthorized);
        }
        let expiry = match parse_expiry_args(data) {
            Result::Ok(x) => x,
            Result::Err(e) => {
                return Result::Err(e);
            },
        };
        Result::Ok(UpdateRecordExpiry { accounts: validated, expiry })
    }

    /// Overwrites the eight expiry bytes in place.
    pub fn execute(&self, ctx: &mut Context)
        requires
            self.accounts.record == UPDATE_RECORD_INDEX,
            old(ctx)@.accounts.len() == 5,
            old(ctx)@.accounts[UPDATE_RECORD_INDEX as int].data.len() >= RECORD_HEADER_LEN,
        ensures
            final(ctx)@.accounts == spec_apply_update_expiry(old(ctx)@.accounts, self.expiry),
            final(ctx)@.data == old(ctx)@.data,
    {
        let expiry_bytes = u64_to_le_bytes(#[verifier::truncate] (self.expiry as u64));
        {
            let rec = &mut ctx.accounts[UPDATE_RECORD_INDEX];
            write_range(&mut rec.data, EXPIRY_OFFSET, &expiry_bytes);
        }
        proof {
            lemma_accounts_view_update(
                old(ctx).accounts@,
                UPDATE_RECORD_INDEX as int,
                ctx.accounts@[UPDATE_RECORD_INDEX as int],
            );
            assert(ctx.accounts@ =~= old(ctx).accounts@.update(
                UPDATE_RECORD_INDEX as int,
                ctx.accounts@[UPDATE_RECORD_INDEX as int],
            ));
            assert(ctx@.accounts =~~= spec_apply_update_expiry(old(ctx)@.accounts, self.expiry));
        }
    }

    /// The update-expiry operation: validate fully, then overwrite the
    /// expiry field. On failure nothing changes.
    pub fn process(program_id: &Vec<u8>, ctx: &mut Context) -> (r: Result<(), RegistryError>)
        ensures
            match r {
                Result::Ok(()) => spec_update_expiry_transition(program_id@, old(ctx)@)
                    == Result::<ContextView, RegistryError>::Ok(final(ctx)@),
                Result::Err(e) => spec_update_expiry_transition(program_id@, old(ctx)@)
                    == Result::<ContextView, RegistryError>::Err(e) && *final(ctx) == *old(ctx),
            },
    {
        let op = match UpdateRecordExpiry::try_from(program_id, &ctx.accounts, &ctx.data) {
            Result::Ok(v) => v,
            Result::Err(e) => {
                return Result::Err(e);
            },
        };
        op.execute(ctx);
        proof {
            let t = spec_update_expiry_transition(program_id@, old(ctx)@);
            assert(t matches Result::Ok(c) && c =~~= ctx@);
        }
        Result::Ok(())
    }
}

} // verus!
