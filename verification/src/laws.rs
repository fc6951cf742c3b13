//! The registry's laws: properties that relate several operations or hold
//! of every state, stated over the same spec functions the operations'
//! contracts use.

use vstd::prelude::*;
use crate::authority::{
    spec_class_cell_valid, spec_record_cell_valid, spec_tombstoned,
};
use crate::codec::{
    bool_byte, lemma_expiry_round_trip, spec_decode_class, spec_decode_record, spec_encode_expiry,
    spec_record_decodable,
};
use crate::delete_record::{
    spec_apply_delete, spec_delete_funds_ok, spec_delete_transition, spec_validate_delete,
    DeleteAction, DELETE_PAYER_INDEX, DELETE_RECORD_INDEX, DELETE_DELEGATE_INDEX,
};
use crate::error::RegistryError;
use crate::freeze_record::{
    spec_apply_freeze, spec_validate_freeze, FREEZE_RECORD_INDEX,
};
use crate::state::{
    AccountView, ContextView, RecordView, DELEGATE_FLAG_OFFSET, EXPIRY_OFFSET, IS_FROZEN_OFFSET,
    RECORD_HEADER_LEN, TOMBSTONE_BYTE,
};
use crate::update_record::{
    spec_apply_update_data, spec_apply_update_expiry, spec_resize_delta,
    spec_update_data_funds_ok, spec_validate_update_data, spec_validate_update_expiry,
    UPDATE_PAYER_INDEX, UPDATE_RECORD_INDEX,
};

verus! {

/// Deleting an already-tombstoned record succeeds as a no-op: the
/// transition is accepted and leaves every account, every fund and every
/// byte exactly as it was. Nothing is ever resurrected.
pub proof fn lemma_delete_tombstone_idempotent(program_id: Seq<u8>, ctx: ContextView)
    requires
        ctx.accounts.len() >= 3,
        spec_tombstoned(ctx.accounts[DELETE_RECORD_INDEX as int]),
    ensures
        spec_delete_transition(program_id, ctx) == Result::<ContextView, RegistryError>::Ok(ctx),
{
    assert(spec_validate_delete(program_id, ctx.accounts) == Result::<
        DeleteAction,
        RegistryError,
    >::Ok(DeleteAction::Noop));
    assert(ContextView { accounts: ctx.accounts, data: ctx.data } =~~= ctx);
}

/// Authority separation, registrar side: the record's owner, signing, who
/// is not the class authority, cannot freeze the record.
pub proof fn lemma_freeze_by_owner_fails(
    program_id: Seq<u8>,
    accounts: Seq<AccountView>,
    args: Seq<u8>,
)
    requires
        accounts.len() == 3,
        spec_class_cell_valid(program_id, accounts[2]),
        accounts[0].is_signer,
        accounts[0].key == spec_decode_record(accounts[1].data).owner,
        accounts[0].key != spec_decode_class(accounts[2].data).authority,
    ensures
        spec_validate_freeze(program_id, accounts, args) == Result::<bool, RegistryError>::Err(
            RegistryError::Unauthorized,
        ),
{
}

/// Authority separation, registrar side: the record's owner, signing, who
/// is not the class authority, cannot update the record's data or expiry.
pub proof fn lemma_update_by_owner_fails(
    program_id: Seq<u8>,
    accounts: Seq<AccountView>,
    args: Seq<u8>,
)
    requires
        accounts.len() == 5,
        spec_class_cell_valid(program_id, accounts[3]),
        accounts[0].is_signer,
        accounts[0].key == spec_decode_record(accounts[2].data).owner,
        accounts[0].key != spec_decode_class(accounts[3].data).authority,
    ensures
        spec_validate_update_data(program_id, accounts, args) == Result::<
            Seq<u8>,
            RegistryError,
        >::Err(RegistryError::Unauthorized),
        spec_validate_update_expiry(program_id, accounts, args) == Result::<
            i64,
            RegistryError,
        >::Err(RegistryError::Unauthorized),
{
}

/// Authority separation, holder side: a signer who is neither the record's
/// owner nor its delegate — the class authority included — cannot delete a
/// live record.
pub proof fn lemma_delete_by_non_owner_fails(program_id: Seq<u8>, accounts: Seq<AccountView>)
    requires
        accounts.len() >= 3,
        !spec_tombstoned(accounts[DELETE_RECORD_INDEX as int]),
        spec_record_cell_valid(program_id, accounts[DELETE_RECORD_INDEX as int]),
        accounts[0].is_signer,
        accounts[0].key != spec_decode_record(accounts[DELETE_RECORD_INDEX as int].data).owner,
        spec_decode_record(accounts[DELETE_RECORD_INDEX as int].data).delegate is None,
    ensures
        spec_validate_delete(program_id, accounts) == Result::<DeleteAction, RegistryError>::Err(
            RegistryError::Unauthorized,
        ),
{
}

/// Freezing and then writing the original flag back restores every account
/// byte for byte: the freeze effect is reversible by the inverse freeze.
pub proof fn lemma_freeze_unfreeze_restores(accounts: Seq<AccountView>, flag: bool)
    requires
        accounts.len() == 3,
        spec_record_decodable(accounts[FREEZE_RECORD_INDEX as int].data),
    ensures
        spec_apply_freeze(
            spec_apply_freeze(accounts, flag),
            spec_decode_record(accounts[FREEZE_RECORD_INDEX as int].data).is_frozen,
        ) == accounts,
{
    let orig = spec_decode_record(accounts[FREEZE_RECORD_INDEX as int].data).is_frozen;
    let twice = spec_apply_freeze(spec_apply_freeze(accounts, flag), orig);
    assert(twice[FREEZE_RECORD_INDEX as int].data =~= accounts[FREEZE_RECORD_INDEX as int].data);
    assert(twice[FREEZE_RECORD_INDEX as int] =~~= accounts[FREEZE_RECORD_INDEX as int]);
    assert(twice =~~= accounts);
}

/// Freezing touches no field but the frozen flag: the record decoded after
/// the effect differs from the record decoded before in `is_frozen` alone.
pub proof fn lemma_freeze_preserves_fields(accounts: Seq<AccountView>, flag: bool)
    requires
        accounts.len() == 3,
        spec_record_decodable(accounts[FREEZE_RECORD_INDEX as int].data),
    ensures
        ({
            let before = accounts[FREEZE_RECORD_INDEX as int].data;
            let after = spec_apply_freeze(accounts, flag)[FREEZE_RECORD_INDEX as int].data;
            &&& spec_record_decodable(after)
            &&& spec_decode_record(after) == RecordView {
                is_frozen: flag,
                ..spec_decode_record(before)
            }
        }),
{
    let before = accounts[FREEZE_RECORD_INDEX as int].data;
    let after = spec_apply_freeze(accounts, flag)[FREEZE_RECORD_INDEX as int].data;
    assert(after == before.update(IS_FROZEN_OFFSET as int, bool_byte(flag)));
    assert(spec_decode_record(after).owner =~= spec_decode_record(before).owner);
    assert(spec_decode_record(after).class =~= spec_decode_record(before).class);
    assert(after.subrange(EXPIRY_OFFSET as int, DELEGATE_FLAG_OFFSET as int) =~= before.subrange(
        EXPIRY_OFFSET as int,
        DELEGATE_FLAG_OFFSET as int,
    ));
    assert(after.subrange(crate::state::DELEGATE_KEY_OFFSET as int, RECORD_HEADER_LEN as int)
        =~= before.subrange(crate::state::DELEGATE_KEY_OFFSET as int, RECORD_HEADER_LEN as int));
    assert(spec_decode_record(after).data =~= spec_decode_record(before).data);
    assert(spec_decode_record(after) =~~= RecordView {
        is_frozen: flag,
        ..spec_decode_record(before)
    });
}

/// Updating the expiry touches no field but the expiry: the record decoded
/// after the effect differs from the record decoded before in `expiry`
/// alone, and the new expiry is exactly the one written.
pub proof fn lemma_update_expiry_preserves_fields(accounts: Seq<AccountView>, x: i64)
    requires
        accounts.len() == 5,
        spec_record_decodable(accounts[UPDATE_RECORD_INDEX as int].data),
    ensures
        ({
            let before = accounts[UPDATE_RECORD_INDEX as int].data;
            let after = spec_apply_update_expiry(accounts, x)[UPDATE_RECORD_INDEX as int].data;
            &&& spec_record_decodable(after)
            &&& spec_decode_record(after) == RecordView {
                expiry: x,
                ..spec_decode_record(before)
            }
        }),
{
    let before = accounts[UPDATE_RECORD_INDEX as int].data;
    let after = spec_apply_update_expiry(accounts, x)[UPDATE_RECORD_INDEX as int].data;
    lemma_expiry_round_trip(x);
    assert(after == before.subrange(0, EXPIRY_OFFSET as int) + spec_encode_expiry(x)
        + before.subrange(DELEGATE_FLAG_OFFSET as int, before.len() as int));
    assert(after.len() == before.len());
    assert(after[crate::state::DISCRIMINATOR_OFFSET as int] == before[
        crate::state::DISCRIMINATOR_OFFSET as int
    ]);
    assert(after[IS_FROZEN_OFFSET as int] == before[IS_FROZEN_OFFSET as int]);
    assert(after[DELEGATE_FLAG_OFFSET as int] == before[DELEGATE_FLAG_OFFSET as int]);
    assert(spec_decode_record(after).owner =~= spec_decode_record(before).owner);
    assert(spec_decode_record(after).class =~= spec_decode_record(before).class);
    assert(after.subrange(EXPIRY_OFFSET as int, DELEGATE_FLAG_OFFSET as int) =~= spec_encode_expiry(
        x,
    ));
    assert(after.subrange(crate::state::DELEGATE_KEY_OFFSET as int, RECORD_HEADER_LEN as int)
        =~= before.subrange(crate::state::DELEGATE_KEY_OFFSET as int, RECORD_HEADER_LEN as int));
    assert(spec_decode_record(after).data =~= spec_decode_record(before).data);
    assert(spec_decode_record(after) =~~= RecordView { expiry: x, ..spec_decode_record(before) });
}

/// Updating the data touches no header field: the record decoded after the
/// effect differs from the record decoded before in its payload alone, and
/// the new payload is exactly the one written.
pub proof fn lemma_update_data_preserves_header(accounts: Seq<AccountView>, payload: Seq<u8>)
    requires
        accounts.len() == 5,
        spec_record_decodable(accounts[UPDATE_RECORD_INDEX as int].data),
    ensures
        ({
            let before = accounts[UPDATE_RECORD_INDEX as int].data;
            let after = spec_apply_update_data(accounts, payload)[UPDATE_RECORD_INDEX as int].data;
            &&& spec_record_decodable(after)
            &&& spec_decode_record(after) == RecordView {
                data: payload,
                ..spec_decode_record(before)
            }
        }),
{
    let before = accounts[UPDATE_RECORD_INDEX as int].data;
    let after = spec_apply_update_data(accounts, payload)[UPDATE_RECORD_INDEX as int].data;
    assert(after == before.subrange(0, RECORD_HEADER_LEN as int) + payload);
    assert(spec_decode_record(after).owner =~= spec_decode_record(before).owner);
    assert(spec_decode_record(after).class =~= spec_decode_record(before).class);
    assert(after.subrange(EXPIRY_OFFSET as int, DELEGATE_FLAG_OFFSET as int) =~= before.subrange(
        EXPIRY_OFFSET as int,
        DELEGATE_FLAG_OFFSET as int,
    ));
    assert(after.subrange(crate::state::DELEGATE_KEY_OFFSET as int, RECORD_HEADER_LEN as int)
        =~= before.subrange(crate::state::DELEGATE_KEY_OFFSET as int, RECORD_HEADER_LEN as int));
    assert(spec_decode_record(after).data =~= payload);
    assert(spec_decode_record(after) =~~= RecordView {
        data: payload,
        ..spec_decode_record(before)
    });
}

/// Resize correctness. Updating the payload from length `L1` to `L2`
/// changes the cell's capacity by exactly `L2 - L1` bytes; growth is funded
/// by the payer and shrinkage refunds the payer, at the per-byte rate; the
/// bytes after the header equal the new payload exactly; and the update
/// conserves funds across the payer and the cell.
pub proof fn lemma_resize_correctness(accounts: Seq<AccountView>, payload: Seq<u8>)
    requires
        accounts.len() == 5,
        accounts[UPDATE_RECORD_INDEX as int].data.len() >= RECORD_HEADER_LEN,
        spec_update_data_funds_ok(accounts, payload),
    ensures
        ({
            let after = spec_apply_update_data(accounts, payload);
            let l1 = accounts[UPDATE_RECORD_INDEX as int].data.len() as int;
            let l2 = RECORD_HEADER_LEN + payload.len();
            let delta = spec_resize_delta(l1, l2);
            &&& after[UPDATE_RECORD_INDEX as int].data.len() == l2
            &&& after[UPDATE_RECORD_INDEX as int].data.len()
                - accounts[UPDATE_RECORD_INDEX as int].data.len() == l2 - l1
            &&& after[UPDATE_RECORD_INDEX as int].data.subrange(RECORD_HEADER_LEN as int, l2)
                == payload
            &&& (l2 >= l1 ==> after[UPDATE_PAYER_INDEX as int].lamports
                == accounts[UPDATE_PAYER_INDEX as int].lamports - delta
                && after[UPDATE_RECORD_INDEX as int].lamports
                == accounts[UPDATE_RECORD_INDEX as int].lamports + delta)
            &&& (l2 < l1 ==> after[UPDATE_PAYER_INDEX as int].lamports
                == accounts[UPDATE_PAYER_INDEX as int].lamports + delta
                && after[UPDATE_RECORD_INDEX as int].lamports
                == accounts[UPDATE_RECORD_INDEX as int].lamports - delta)
            &&& after[UPDATE_PAYER_INDEX as int].lamports + after[
                UPDATE_RECORD_INDEX as int
            ].lamports == accounts[UPDATE_PAYER_INDEX as int].lamports + accounts[
                UPDATE_RECORD_INDEX as int
            ].lamports
        }),
{
    let after = spec_apply_update_data(accounts, payload);
    let l2 = RECORD_HEADER_LEN + payload.len();
    assert(after[UPDATE_RECORD_INDEX as int].data.subrange(RECORD_HEADER_LEN as int, l2)
        =~= payload);
}

/// Delete fund conservation. After a wipe the tombstone retains nothing:
/// the payer holds exactly the total that the payer, the record cell and
/// (when closed) the delegate cell held before, and the wiped cells hold
/// exactly one sentinel byte and zero funds.
pub proof fn lemma_delete_conserves_funds(accounts: Seq<AccountView>, close_delegate: bool)
    requires
        accounts.len() >= 3,
        close_delegate ==> accounts.len() >= 4,
        spec_delete_funds_ok(accounts, DeleteAction::Wipe { close_delegate }),
    ensures
        ({
            let after = spec_apply_delete(accounts, DeleteAction::Wipe { close_delegate });
            let extra: int = if close_delegate {
                accounts[DELETE_DELEGATE_INDEX as int].lamports as int
            } else {
                0
            };
            &&& after[DELETE_RECORD_INDEX as int].lamports == 0
            &&& after[DELETE_RECORD_INDEX as int].data == seq![TOMBSTONE_BYTE]
            &&& after[DELETE_PAYER_INDEX as int].lamports == accounts[
                DELETE_PAYER_INDEX as int
            ].lamports + accounts[DELETE_RECORD_INDEX as int].lamports + extra
            &&& (close_delegate ==> after[DELETE_DELEGATE_INDEX as int].lamports == 0
                && after[DELETE_DELEGATE_INDEX as int].data == seq![TOMBSTONE_BYTE])
        }),
{
}

} // verus!
