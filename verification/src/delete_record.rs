//! The delete operation.
//!
//! Deletion is owner/delegate-gated: the record holder controls destruction
//! and reclamation of their own funds; the class authority has no say here.
//! The cell is reduced to a one-byte tombstone holding the sentinel value so
//! that a stale reference can never be reinitialised with foreign content,
//! and all residual funds are transferred to the payer. If the record names
//! a delegate and that delegate's backing cell is supplied, it is closed the
//! same way. Deleting an already-tombstoned record succeeds as a no-op and
//! never resurrects funds or content.
//!
//! Accounts, positional: `[authority (signer), payer, record]`, optionally
//! followed by the delegate's backing cell. Further trailing accounts belong
//! to external collaborators and are ignored. No argument bytes.

use vstd::prelude::*;
use crate::authority::{
    check_owner_or_delegate_or_deleted, is_tombstoned, spec_check_owner_or_delegate_or_deleted,
    spec_tombstoned,
};
use crate::codec::{bytes_eq, copy_range, spec_decode_record};
use crate::error::RegistryError;
use crate::state::{
    accounts_view, lemma_accounts_view_update, Account, AccountView, Context, ContextView,
    DELEGATE_FLAG_OFFSET, DELEGATE_KEY_OFFSET, RECORD_HEADER_LEN, TOMBSTONE_BYTE,
};

verus! {

/// Index of the signing authority in the account list.
pub const DELETE_AUTHORITY_INDEX: usize = 0;

/// Index of the payer refunded for the cell in the account list.
pub const DELETE_PAYER_INDEX: usize = 1;

/// Index of the record cell in the account list.
pub const DELETE_RECORD_INDEX: usize = 2;

/// Index of the optional delegate backing cell in the account list.
pub const DELETE_DELEGATE_INDEX: usize = 3;

/// What a validated delete call will do.
#[derive(Clone, Copy, Debug, PartialEq, Eq, Structural)]
pub enum DeleteAction {
    /// The record is already tombstoned: succeed without touching anything.
    Noop,
    /// Wipe the record cell to the tombstone and sweep its funds to the
    /// payer.
    Wipe {
        /// Whether the delegate's backing cell is present and closed too.
        close_delegate: bool,
    },
}

/// The full validation of a delete call: account shape, the
/// owner/delegate/tombstone gate, then the pairing of the optional delegate
/// cell with the delegate named by the record.
pub open spec fn spec_validate_delete(
    program_id: Seq<u8>,
    accounts: Seq<AccountView>,
) -> Result<DeleteAction, RegistryError> {
    if accounts.len() < 3 {
        Result::Err(RegistryError::NotEnoughAccounts)
    } else {
        let authority = accounts[DELETE_AUTHORITY_INDEX as int];
        let record = accounts[DELETE_RECORD_INDEX as int];
        match spec_check_owner_or_delegate_or_deleted(program_id, record, authority) {
            Result::Err(e) => Result::Err(e),
            Result::Ok(()) => if spec_tombstoned(record) {
                Result::Ok(DeleteAction::Noop)
            } else if accounts.len() >= 4 {
                match spec_decode_record(record.data).delegate {
                    Option::Some(d) => if accounts[DELETE_DELEGATE_INDEX as int].key == d {
                        Result::Ok(DeleteAction::Wipe { close_delegate: true })
                    } else {
                        Result::Err(RegistryError::MalformedData)
                    },
                    Option::None => Result::Err(RegistryError::MalformedData),
                }
            } else {
                Result::Ok(DeleteAction::Wipe { close_delegate: false })
            },
        }
    }
}

/// True when sweeping the record's (and possibly the delegate cell's) funds
/// into the payer stays within the machine's fund range.
pub open spec fn spec_delete_funds_ok(accounts: Seq<AccountView>, action: DeleteAction) -> bool {
    match action {
        DeleteAction::Noop => true,
        DeleteAction::Wipe { close_delegate } => {
            let extra: int = if close_delegate {
                accounts[DELETE_DELEGATE_INDEX as int].lamports as int
            } else {
                0
            };
            accounts[DELETE_PAYER_INDEX as int].lamports
                + accounts[DELETE_RECORD_INDEX as int].lamports + extra <= u64::MAX
        },
    }
}

/// The effect of a delete call. A wipe leaves the record cell as exactly one
/// sentinel byte with zero funds; the payer receives every residual fund;
/// a closed delegate cell ends the same way. Content is never left live
/// after funds are removed, and funds are never left after the content is
/// sentineled: both happen in one atomic transition.
pub open spec fn spec_apply_delete(accounts: Seq<AccountView>, action: DeleteAction) -> Seq<
    AccountView,
> {
    match action {
        DeleteAction::Noop => accounts,
        DeleteAction::Wipe { close_delegate } => {
            let payer = accounts[DELETE_PAYER_INDEX as int];
            let record = accounts[DELETE_RECORD_INDEX as int];
            let extra: int = if close_delegate {
                accounts[DELETE_DELEGATE_INDEX as int].lamports as int
            } else {
                0
            };
            let total = payer.lamports + record.lamports + extra;
            let swept = accounts.update(
                DELETE_RECORD_INDEX as int,
                AccountView { data: seq![TOMBSTONE_BYTE], lamports: 0u64, ..record },
            ).update(DELETE_PAYER_INDEX as int, AccountView { lamports: total as u64, ..payer });
            if close_delegate {
                let delegate = accounts[DELETE_DELEGATE_INDEX as int];
                swept.update(
                    DELETE_DELEGATE_INDEX as int,
                    AccountView { data: seq![TOMBSTONE_BYTE], lamports: 0u64, ..delegate },
                )
            } else {
                swept
            }
        },
    }
}

/// The whole delete transition: validation, then the effect; a failure
/// leaves the state untouched, and so does deleting a tombstone.
pub open spec fn spec_delete_transition(program_id: Seq<u8>, ctx: ContextView) -> Result<
    ContextView,
    RegistryError,
> {
    match spec_validate_delete(program_id, ctx.accounts) {
        Result::Ok(action) => Result::Ok(
            ContextView { accounts: spec_apply_delete(ctx.accounts, action), data: ctx.data },
        ),
        Result::Err(e) => Result::Err(e),
    }
}

/// The validated account positions of a delete call.
pub struct DeleteRecordAccounts {
    /// Index of the payer that receives the residual funds.
    pub payer: usize,
    /// Index of the record cell to be deleted.
    pub record: usize,
}

impl DeleteRecordAccounts {
    /// Validates the account list of a delete call and decides what the
    /// call will do.
    pub fn try_from(program_id: &Vec<u8>, accounts: &Vec<Account>) -> (r: Result<
        (Self, DeleteAction),
        RegistryError,
    >)
        ensures
            match r {
                Result::Ok(v) => v.0.payer == DELETE_PAYER_INDEX && v.0.record
                    == DELETE_RECORD_INDEX && spec_validate_delete(
                    program_id@,
                    accounts_view(accounts@),
                ) == Result::<DeleteAction, RegistryError>::Ok(v.1),
                Result::Err(e) => spec_validate_delete(program_id@, accounts_view(accounts@))
                    == Result::<DeleteAction, RegistryError>::Err(e),
            },
    {
        if accounts.len() < 3 {
            return Result::Err(RegistryError::NotEnoughAccounts);
        }
        let authority = &accounts[DELETE_AUTHORITY_INDEX];
        let record = &accounts[DELETE_RECORD_INDEX];
        if let Result::Err(e) = check_owner_or_delegate_or_deleted(record, authority, program_id) {
            return Result::Err(e);
        }
        let me = DeleteRecordAccounts { payer: DELETE_PAYER_INDEX, record: DELETE_RECORD_INDEX };
        if is_tombstoned(record) {
            return Result::Ok((me, DeleteAction::Noop));
        }
        if accounts.len() >= 4 {
            if record.data[DELEGATE_FLAG_OFFSET] != 1 {
                return Result::Err(RegistryError::MalformedData);
            }
            let named = copy_range(&record.data, DELEGATE_KEY_OFFSET, RECORD_HEADER_LEN);
            if !bytes_eq(&accounts[DELETE_DELEGATE_INDEX].key, &named) {
                return Result::Err(RegistryError::MalformedData);
            }
            return Result::Ok((me, DeleteAction::Wipe { close_delegate: true }));
        }
        Result::Ok((me, DeleteAction::Wipe { close_delegate: false }))
    }
}

/// A fully validated delete call, ready to execute.
pub struct DeleteRecord {
    /// The validated account positions.
    pub accounts: DeleteRecordAccounts,
    /// What the call will do.
    pub action: DeleteAction,
}

impl DeleteRecord {
    /// Validates a delete call. The operation takes no argument bytes.
    pub fn try_from(program_id: &Vec<u8>, accounts: &Vec<Account>) -> (r: Result<
        Self,
        RegistryError,
    >)
        ensures
            match r {
                Result::Ok(v) => v.accounts.payer == DELETE_PAYER_INDEX && v.accounts.record
                    == DELETE_RECORD_INDEX && spec_validate_delete(
                    program_id@,
                    accounts_view(accounts@),
                ) == Result::<DeleteAction, RegistryError>::Ok(v.action),
                Result::Err(e) => spec_validate_delete(program_id@, accounts_view(accounts@))
                    == Result::<DeleteAction, RegistryError>::Err(e),
            },
    {
        match DeleteRecordAccounts::try_from(program_id, accounts) {
            Result::Ok((validated, action)) => Result::Ok(
                DeleteRecord { accounts: validated, action },
            ),
            Result::Err(e) => Result::Err(e),
        }
    }

    /// Wipes the record cell (and the delegate cell, when closed) to the
    /// tombstone and sweeps every residual fund into the payer. A no-op
    /// action touches nothing.
    pub fn execute(&self, ctx: &mut Context)
        requires
            self.accounts.payer == DELETE_PAYER_INDEX,
            self.accounts.record == DELETE_RECORD_INDEX,
            old(ctx)@.accounts.len() >= 3,
            self.action == (DeleteAction::Wipe { close_delegate: true }) ==> old(
                ctx,
            )@.accounts.len() >= 4,
            spec_delete_funds_ok(old(ctx)@.accounts, self.action),
        ensures
            final(ctx)@.accounts == spec_apply_delete(old(ctx)@.accounts, self.action),
            final(ctx)@.data == old(ctx)@.data,
    {
        let close_delegate = match self.action {
            DeleteAction::Noop => {
                return ;
            },
            DeleteAction::Wipe { close_delegate } => close_delegate,
        };
        let mut total: u64 = ctx.accounts[DELETE_PAYER_INDEX].lamports;
        {
            let rec = &mut ctx.accounts[DELETE_RECORD_INDEX];
            let drained = crate::cell::wipe_to_tombstone(rec);
            total = total + drained;
        }
        proof {
            lemma_accounts_view_update(
                old(ctx).accounts@,
                DELETE_RECORD_INDEX as int,
                ctx.accounts@[DELETE_RECORD_INDEX as int],
            );
            assert(ctx.accounts@ =~= old(ctx).accounts@.update(
                DELETE_RECORD_INDEX as int,
                ctx.accounts@[DELETE_RECORD_INDEX as int],
            ));
        }
        let ghost mid1 = ctx.accounts@;
        if close_delegate {
            {
                let delegate = &mut ctx.accounts[DELETE_DELEGATE_INDEX];
                let drained = crate::cell::wipe_to_tombstone(delegate);
                total = total + drained;
            }
            proof {
                lemma_accounts_view_update(
                    mid1,
                    DELETE_DELEGATE_INDEX as int,
                    ctx.accounts@[DELETE_DELEGATE_INDEX as int],
                );
                assert(ctx.accounts@ =~= mid1.update(
                    DELETE_DELEGATE_INDEX as int,
                    ctx.accounts@[DELETE_DELEGATE_INDEX as int],
                ));
            }
        }
        let ghost mid2 = ctx.accounts@;
        {
            let payer = &mut ctx.accounts[DELETE_PAYER_INDEX];
            payer.lamports = total;
        }
        proof {
            lemma_accounts_view_update(
                mid2,
                DELETE_PAYER_INDEX as int,
                ctx.accounts@[DELETE_PAYER_INDEX as int],
            );
            assert(ctx.accounts@ =~= mid2.update(
                DELETE_PAYER_INDEX as int,
                ctx.accounts@[DELETE_PAYER_INDEX as int],
            ));
            assert(ctx@.accounts =~~= spec_apply_delete(old(ctx)@.accounts, self.action));
        }
    }

    /// The delete operation: validate fully, then wipe and sweep
    /// atomically. On failure nothing changes; deleting a tombstone
    /// succeeds and changes nothing.
    pub fn process(program_id: &Vec<u8>, ctx: &mut Context) -> (r: Result<(), RegistryError>)
        requires
            spec_validate_delete(program_id@, old(ctx)@.accounts) matches Result::Ok(action)
                ==> spec_delete_funds_ok(old(ctx)@.accounts, action),
        ensures
            match r {
                Result::Ok(()) => spec_delete_transition(program_id@, old(ctx)@) == Result::<
                    ContextView,
                    RegistryError,
                >::Ok(final(ctx)@),
                Result::Err(e) => spec_delete_transition(program_id@, old(ctx)@) == Result::<
                    ContextView,
                    RegistryError,
                >::Err(e) && *final(ctx) == *old(ctx),
            },
    {
        let op = match DeleteRecord::try_from(program_id, &ctx.accounts) {
            Result::Ok(v) => v,
            Result::Err(e) => {
                return Result::Err(e);
            },
        };
        op.execute(ctx);
        proof {
            let t = spec_delete_transition(program_id@, old(ctx)@);
            assert(t matches Result::Ok(c) && c =~~= ctx@);
        }
        Result::Ok(())
    }
}

} // verus!
