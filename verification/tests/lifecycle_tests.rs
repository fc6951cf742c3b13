use record_registry::codec::{encode_class, encode_record};
use record_registry::delete_record::DeleteRecord;
use record_registry::error::RegistryError;
use record_registry::freeze_record::FreezeRecord;
use record_registry::state::{
    Account, Class, Context, Record, IS_FROZEN_OFFSET, KEY_LEN, RECORD_HEADER_LEN, RENT_PER_BYTE,
    TOMBSTONE_BYTE,
};
use record_registry::update_record::{UpdateRecordData, UpdateRecordExpiry};

fn key(b: u8) -> Vec<u8> {
    vec![b; KEY_LEN]
}

fn program_id() -> Vec<u8> {
    key(0xEE)
}

fn account(k: Vec<u8>, owner_program: Vec<u8>, signer: bool, lamports: u64, data: Vec<u8>) -> Account {
    Account { key: k, owner_program, is_signer: signer, lamports, data }
}

fn record_cell(owner: u8, class: u8, frozen: bool, delegate: Option<u8>, data: &[u8]) -> Vec<u8> {
    encode_record(&Record {
        owner: key(owner),
        class: key(class),
        is_frozen: frozen,
        expiry: 1_700_000_000,
        delegate: delegate.map(key),
        data: data.to_vec(),
    })
}

fn class_cell(authority: u8) -> Vec<u8> {
    encode_class(&Class { authority: key(authority), is_permissioned: true })
}

/// `[authority, record, class]`
fn freeze_ctx(caller: u8, signer: bool, record_data: Vec<u8>, class_auth: u8, args: Vec<u8>) -> Context {
    Context {
        accounts: vec![
            account(key(caller), key(0), signer, 0, Vec::new()),
            account(key(0x52), program_id(), false, 1_000, record_data),
            account(key(2), program_id(), false, 1_000, class_cell(class_auth)),
        ],
        data: args,
    }
}

/// `[authority, payer, record, class, system-program]`
fn update_ctx(
    caller: u8,
    signer: bool,
    payer_lamports: u64,
    record_lamports: u64,
    record_data: Vec<u8>,
    class_auth: u8,
    args: Vec<u8>,
) -> Context {
    Context {
        accounts: vec![
            account(key(caller), key(0), signer, 0, Vec::new()),
            account(key(0x50), key(0), false, payer_lamports, Vec::new()),
            account(key(0x52), program_id(), false, record_lamports, record_data),
            account(key(2), program_id(), false, 1_000, class_cell(class_auth)),
            account(key(0), key(0), false, 0, Vec::new()),
        ],
        data: args,
    }
}

/// `[authority, payer, record]` with an optional delegate backing cell.
fn delete_ctx(
    caller: u8,
    signer: bool,
    payer_lamports: u64,
    record_lamports: u64,
    record_data: Vec<u8>,
    delegate_cell: Option<(u8, u64)>,
) -> Context {
    let mut accounts = vec![
        account(key(caller), key(0), signer, 0, Vec::new()),
        account(key(0x50), key(0), false, payer_lamports, Vec::new()),
        account(key(0x52), program_id(), false, record_lamports, record_data),
    ];
    if let Some((k, lamports)) = delegate_cell {
        accounts.push(account(key(k), program_id(), false, lamports, vec![0u8; 64]));
    }
    Context { accounts, data: Vec::new() }
}

#[test]
fn freeze_sets_only_the_flag() {
    // class authority 0xA freezes a record it does not own
    let cell = record_cell(0x0B, 2, false, None, b"payload");
    let mut ctx = freeze_ctx(0x0A, true, cell.clone(), 0x0A, vec![1]);
    assert_eq!(FreezeRecord::process(&program_id(), &mut ctx), Ok(()));
    let after = &ctx.accounts[1].data;
    assert_eq!(after.len(), cell.len());
    assert_eq!(after[IS_FROZEN_OFFSET], 1);
    for i in 0..cell.len() {
        if i != IS_FROZEN_OFFSET {
            assert_eq!(after[i], cell[i]);
        }
    }
    // and unfreezing restores the original cell byte for byte
    let mut ctx2 = Context {
        accounts: std::mem::take(&mut ctx.accounts),
        data: vec![0],
    };
    assert_eq!(FreezeRecord::process(&program_id(), &mut ctx2), Ok(()));
    assert_eq!(ctx2.accounts[1].data, cell);
}

#[test]
fn freeze_with_empty_payload_is_invalid_argument() {
    // a zero-byte argument buffer must fail, never read past the end
    let cell = record_cell(0x0B, 2, false, None, b"payload");
    let mut ctx = freeze_ctx(0x0A, true, cell.clone(), 0x0A, Vec::new());
    assert_eq!(
        FreezeRecord::process(&program_id(), &mut ctx),
        Err(RegistryError::InvalidArgument)
    );
    assert_eq!(ctx.accounts[1].data, cell);
}

#[test]
fn freeze_by_owner_is_unauthorized() {
    // the record's owner signs, but freezing is the class authority's power
    let cell = record_cell(0x0B, 2, false, None, b"payload");
    let mut ctx = freeze_ctx(0x0B, true, cell, 0x0A, vec![1]);
    assert_eq!(
        FreezeRecord::process(&program_id(), &mut ctx),
        Err(RegistryError::Unauthorized)
    );
    assert_eq!(ctx.accounts[1].data[IS_FROZEN_OFFSET], 0);
}

#[test]
fn freeze_without_signature_is_missing_signature() {
    let cell = record_cell(0x0B, 2, false, None, b"payload");
    let mut ctx = freeze_ctx(0x0A, false, cell, 0x0A, vec![1]);
    assert_eq!(
        FreezeRecord::process(&program_id(), &mut ctx),
        Err(RegistryError::MissingSignature)
    );
}

#[test]
fn freeze_needs_three_accounts() {
    let mut ctx = Context {
        accounts: vec![account(key(1), key(0), true, 0, Vec::new())],
        data: vec![1],
    };
    assert_eq!(
        FreezeRecord::process(&program_id(), &mut ctx),
        Err(RegistryError::NotEnoughAccounts)
    );
}

#[test]
fn freeze_wrong_class_reference_is_malformed() {
    // the record points at class 3, but class 2's cell is supplied
    let cell = record_cell(0x0B, 3, false, None, b"payload");
    let mut ctx = freeze_ctx(0x0A, true, cell, 0x0A, vec![1]);
    assert_eq!(
        FreezeRecord::process(&program_id(), &mut ctx),
        Err(RegistryError::MalformedData)
    );
}

#[test]
fn frozen_record_rejects_updates_even_by_class_authority() {
    // frozen lock honoured: the freeze blocks the class authority's own
    // writes until it unfreezes
    let cell = record_cell(0x0B, 2, true, None, b"payload");
    let mut ctx = update_ctx(0x0A, true, 1_000_000, 500_000, cell.clone(), 0x0A, b"new".to_vec());
    assert_eq!(
        UpdateRecordData::process(&program_id(), &mut ctx),
        Err(RegistryError::Unauthorized)
    );
    assert_eq!(ctx.accounts[2].data, cell);
    assert_eq!(ctx.accounts[1].lamports, 1_000_000);

    let mut ctx2 = update_ctx(
        0x0A,
        true,
        1_000_000,
        500_000,
        cell,
        0x0A,
        7i64.to_le_bytes().to_vec(),
    );
    assert_eq!(
        UpdateRecordExpiry::process(&program_id(), &mut ctx2),
        Err(RegistryError::Unauthorized)
    );
}

#[test]
fn unfrozen_record_accepts_class_authority_update() {
    let cell = record_cell(0x0B, 2, false, None, b"old");
    let mut ctx = update_ctx(0x0A, true, 1_000_000, 500_000, cell, 0x0A, b"new!".to_vec());
    assert_eq!(UpdateRecordData::process(&program_id(), &mut ctx), Ok(()));
    assert_eq!(&ctx.accounts[2].data[RECORD_HEADER_LEN..], b"new!");
}

#[test]
fn update_grow_moves_funds_from_payer_to_cell() {
    // payload grows from 3 to 8 bytes: capacity +5, payer funds the cell
    let cell = record_cell(0x0B, 2, false, None, b"abc");
    let old_len = cell.len();
    let mut ctx = update_ctx(0x0A, true, 1_000_000, 500_000, cell, 0x0A, b"abcdefgh".to_vec());
    assert_eq!(UpdateRecordData::process(&program_id(), &mut ctx), Ok(()));
    let delta = RENT_PER_BYTE * 5;
    assert_eq!(ctx.accounts[2].data.len(), old_len + 5);
    assert_eq!(ctx.accounts[2].lamports, 500_000 + delta);
    assert_eq!(ctx.accounts[1].lamports, 1_000_000 - delta);
    assert_eq!(&ctx.accounts[2].data[RECORD_HEADER_LEN..], b"abcdefgh");
}

#[test]
fn update_shrink_refunds_payer() {
    // payload shrinks from 8 to 2 bytes: capacity -6, the cell refunds the
    // payer
    let cell = record_cell(0x0B, 2, false, None, b"abcdefgh");
    let old_len = cell.len();
    let mut ctx = update_ctx(0x0A, true, 1_000_000, 500_000, cell, 0x0A, b"xy".to_vec());
    assert_eq!(UpdateRecordData::process(&program_id(), &mut ctx), Ok(()));
    let delta = RENT_PER_BYTE * 6;
    assert_eq!(ctx.accounts[2].data.len(), old_len - 6);
    assert_eq!(ctx.accounts[2].lamports, 500_000 - delta);
    assert_eq!(ctx.accounts[1].lamports, 1_000_000 + delta);
    assert_eq!(&ctx.accounts[2].data[RECORD_HEADER_LEN..], b"xy");
}

#[test]
fn update_same_length_moves_nothing() {
    let cell = record_cell(0x0B, 2, false, None, b"abc");
    let mut ctx = update_ctx(0x0A, true, 1_000_000, 500_000, cell, 0x0A, b"xyz".to_vec());
    assert_eq!(UpdateRecordData::process(&program_id(), &mut ctx), Ok(()));
    assert_eq!(ctx.accounts[1].lamports, 1_000_000);
    assert_eq!(ctx.accounts[2].lamports, 500_000);
    assert_eq!(&ctx.accounts[2].data[RECORD_HEADER_LEN..], b"xyz");
}

#[test]
fn update_by_owner_is_unauthorized() {
    // authority separation: the owner cannot use the registrar's gate
    let cell = record_cell(0x0B, 2, false, None, b"abc");
    let mut ctx = update_ctx(0x0B, true, 1_000_000, 500_000, cell, 0x0A, b"zzz".to_vec());
    assert_eq!(
        UpdateRecordData::process(&program_id(), &mut ctx),
        Err(RegistryError::Unauthorized)
    );
}

#[test]
fn update_expiry_writes_exactly_eight_bytes() {
    let cell = record_cell(0x0B, 2, false, Some(0x0C), b"keepme");
    let mut ctx = update_ctx(
        0x0A,
        true,
        1_000_000,
        500_000,
        cell.clone(),
        0x0A,
        (-42i64).to_le_bytes().to_vec(),
    );
    assert_eq!(UpdateRecordExpiry::process(&program_id(), &mut ctx), Ok(()));
    let after = &ctx.accounts[2].data;
    assert_eq!(after.len(), cell.len());
    let expiry_off = record_registry::state::EXPIRY_OFFSET;
    assert_eq!(&after[expiry_off..expiry_off + 8], &(-42i64).to_le_bytes());
    for i in 0..cell.len() {
        if !(expiry_off..expiry_off + 8).contains(&i) {
            assert_eq!(after[i], cell[i]);
        }
    }
    // no resize, no fund movement
    assert_eq!(ctx.accounts[1].lamports, 1_000_000);
    assert_eq!(ctx.accounts[2].lamports, 500_000);
}

#[test]
fn update_expiry_short_payload_is_invalid_argument() {
    let cell = record_cell(0x0B, 2, false, None, b"abc");
    let mut ctx = update_ctx(0x0A, true, 1_000_000, 500_000, cell, 0x0A, vec![1, 2, 3]);
    assert_eq!(
        UpdateRecordExpiry::process(&program_id(), &mut ctx),
        Err(RegistryError::InvalidArgument)
    );
}

#[test]
fn delete_by_owner_sweeps_funds_and_tombstones() {
    let cell = record_cell(0x0B, 2, false, None, b"gone soon");
    let mut ctx = delete_ctx(0x0B, true, 1_000, 777, cell, None);
    assert_eq!(DeleteRecord::process(&program_id(), &mut ctx), Ok(()));
    assert_eq!(ctx.accounts[2].data, vec![TOMBSTONE_BYTE]);
    assert_eq!(ctx.accounts[2].lamports, 0);
    assert_eq!(ctx.accounts[1].lamports, 1_000 + 777);
}

#[test]
fn delete_closes_delegate_cell_and_conserves_funds() {
    // funds across record cell + payer + delegate cell all end at the payer
    let cell = record_cell(0x0B, 2, false, Some(0x0C), b"gone soon");
    let mut ctx = delete_ctx(0x0B, true, 1_000, 777, cell, Some((0x0C, 333)));
    let before: u64 = ctx.accounts[1].lamports + ctx.accounts[2].lamports + ctx.accounts[3].lamports;
    assert_eq!(DeleteRecord::process(&program_id(), &mut ctx), Ok(()));
    assert_eq!(ctx.accounts[1].lamports, before);
    assert_eq!(ctx.accounts[2].data, vec![TOMBSTONE_BYTE]);
    assert_eq!(ctx.accounts[2].lamports, 0);
    assert_eq!(ctx.accounts[3].data, vec![TOMBSTONE_BYTE]);
    assert_eq!(ctx.accounts[3].lamports, 0);
}

#[test]
fn delete_by_delegate_succeeds() {
    let cell = record_cell(0x0B, 2, false, Some(0x0C), b"gone soon");
    let mut ctx = delete_ctx(0x0C, true, 1_000, 777, cell, None);
    assert_eq!(DeleteRecord::process(&program_id(), &mut ctx), Ok(()));
    assert_eq!(ctx.accounts[2].data, vec![TOMBSTONE_BYTE]);
}

#[test]
fn delete_by_class_authority_is_unauthorized() {
    // authority separation: deletion belongs to the holder, not the
    // registrar
    let cell = record_cell(0x0B, 2, false, None, b"stay");
    let mut ctx = delete_ctx(0x0A, true, 1_000, 777, cell.clone(), None);
    assert_eq!(
        DeleteRecord::process(&program_id(), &mut ctx),
        Err(RegistryError::Unauthorized)
    );
    assert_eq!(ctx.accounts[2].data, cell);
    assert_eq!(ctx.accounts[2].lamports, 777);
}

#[test]
fn delete_without_signature_is_missing_signature() {
    let cell = record_cell(0x0B, 2, false, None, b"stay");
    let mut ctx = delete_ctx(0x0B, false, 1_000, 777, cell, None);
    assert_eq!(
        DeleteRecord::process(&program_id(), &mut ctx),
        Err(RegistryError::MissingSignature)
    );
}

#[test]
fn delete_tombstone_is_idempotent_noop() {
    // deleting an already-tombstoned record succeeds and resurrects nothing
    let mut ctx = delete_ctx(0x0B, true, 1_000, 0, vec![TOMBSTONE_BYTE], None);
    assert_eq!(DeleteRecord::process(&program_id(), &mut ctx), Ok(()));
    assert_eq!(ctx.accounts[2].data, vec![TOMBSTONE_BYTE]);
    assert_eq!(ctx.accounts[2].lamports, 0);
    assert_eq!(ctx.accounts[1].lamports, 1_000);
    // a second delete behaves identically
    assert_eq!(DeleteRecord::process(&program_id(), &mut ctx), Ok(()));
    assert_eq!(ctx.accounts[1].lamports, 1_000);
}

#[test]
fn delete_with_wrong_delegate_cell_is_malformed() {
    let cell = record_cell(0x0B, 2, false, Some(0x0C), b"x");
    let mut ctx = delete_ctx(0x0B, true, 1_000, 777, cell, Some((0x0D, 333)));
    assert_eq!(
        DeleteRecord::process(&program_id(), &mut ctx),
        Err(RegistryError::MalformedData)
    );
    assert_eq!(ctx.accounts[3].lamports, 333);
}

#[test]
fn delete_needs_three_accounts() {
    let mut ctx = Context {
        accounts: vec![
            account(key(1), key(0), true, 0, Vec::new()),
            account(key(2), key(0), false, 0, Vec::new()),
        ],
        data: Vec::new(),
    };
    assert_eq!(
        DeleteRecord::process(&program_id(), &mut ctx),
        Err(RegistryError::NotEnoughAccounts)
    );
}

#[test]
fn freeze_of_tombstone_is_malformed() {
    // a one-byte sentinel cell never passes the discriminator check
    let mut ctx = freeze_ctx(0x0A, true, vec![TOMBSTONE_BYTE], 0x0A, vec![1]);
    assert_eq!(
        FreezeRecord::process(&program_id(), &mut ctx),
        Err(RegistryError::MalformedData)
    );
}

#[test]
fn update_of_tombstone_is_malformed() {
    let mut ctx = update_ctx(0x0A, true, 1_000, 1_000, vec![TOMBSTONE_BYTE], 0x0A, b"x".to_vec());
    assert_eq!(
        UpdateRecordData::process(&program_id(), &mut ctx),
        Err(RegistryError::MalformedData)
    );
}

#[test]
fn delete_with_delegate_cell_but_no_delegate_is_malformed() {
    let cell = record_cell(0x0B, 2, false, None, b"x");
    let mut ctx = delete_ctx(0x0B, true, 1_000, 777, cell, Some((0x0C, 333)));
    assert_eq!(
        DeleteRecord::process(&program_id(), &mut ctx),
        Err(RegistryError::MalformedData)
    );
}

#[test]
fn update_to_empty_payload_shrinks_to_header() {
    let cell = record_cell(0x0B, 2, false, None, b"abcdefgh");
    let mut ctx = update_ctx(0x0A, true, 1_000_000, 500_000, cell, 0x0A, Vec::new());
    assert_eq!(UpdateRecordData::process(&program_id(), &mut ctx), Ok(()));
    assert_eq!(ctx.accounts[2].data.len(), RECORD_HEADER_LEN);
    assert_eq!(ctx.accounts[1].lamports, 1_000_000 + RENT_PER_BYTE * 8);
}

#[test]
fn delete_of_frozen_record_by_owner_succeeds() {
    // the frozen lock guards updates, not the holder's right to reclaim
    let cell = record_cell(0x0B, 2, true, None, b"x");
    let mut ctx = delete_ctx(0x0B, true, 1_000, 777, cell, None);
    assert_eq!(DeleteRecord::process(&program_id(), &mut ctx), Ok(()));
    assert_eq!(ctx.accounts[2].data, vec![TOMBSTONE_BYTE]);
}

#[test]
fn foreign_owned_record_cell_is_malformed() {
    // a cell not owned by the registry's storage domain must never be
    // interpreted as a record
    let cell = record_cell(0x0B, 2, false, None, b"zzz");
    let mut ctx = freeze_ctx(0x0A, true, cell, 0x0A, vec![1]);
    ctx.accounts[1].owner_program = key(0x77);
    assert_eq!(
        FreezeRecord::process(&program_id(), &mut ctx),
        Err(RegistryError::MalformedData)
    );
}
