//! The data model of the registry.
//!
//! A storage cell is modelled as an [`Account`]: an addressed, externally
//! funded byte cell with a signer flag. A [`Record`] and a [`Class`] are the
//! decoded forms of the two kinds of cells the registry persists. Every type
//! has a mathematical view for use in contracts.

use vstd::prelude::*;

verus! {

/// Length in bytes of an identity key.
pub const KEY_LEN: usize = 32;

/// Discriminator byte of a class cell.
pub const CLASS_DISCRIMINATOR: u8 = 1;

/// Discriminator byte of a record cell.
pub const RECORD_DISCRIMINATOR: u8 = 2;

/// Byte offset of the discriminator in either cell layout.
pub const DISCRIMINATOR_OFFSET: usize = 0;

/// Byte offset of the owner key in a record cell.
pub const OWNER_OFFSET: usize = 1;

/// Byte offset of the class key in a record cell; the class reference can be
/// read here without a full decode.
pub const CLASS_OFFSET: usize = 33;

/// Byte offset of the frozen flag in a record cell.
pub const IS_FROZEN_OFFSET: usize = 65;

/// Byte offset of the little-endian signed 64-bit expiry in a record cell.
pub const EXPIRY_OFFSET: usize = 66;

/// Byte offset of the delegate-present flag in a record cell.
pub const DELEGATE_FLAG_OFFSET: usize = 74;

/// Byte offset of the delegate key in a record cell (all zeroes when the
/// delegate-present flag is clear).
pub const DELEGATE_KEY_OFFSET: usize = 75;

/// Length of the fixed record header; the data payload is everything after.
pub const RECORD_HEADER_LEN: usize = 107;

/// Byte offset of the authority key in a class cell.
pub const CLASS_AUTHORITY_OFFSET: usize = 1;

/// Byte offset of the permission flag in a class cell.
pub const IS_PERMISSIONED_OFFSET: usize = 33;

/// Length of the fixed class header.
pub const CLASS_HEADER_LEN: usize = 34;

/// The sentinel byte a deleted record's cell is reduced to. A one-byte cell
/// holding this value is permanently dead and must never be treated as
/// absent or creatable.
pub const TOMBSTONE_BYTE: u8 = 0xFF;

/// Backing funds a cell must carry per byte of capacity.
pub const RENT_PER_BYTE: u64 = 6960;

/// Largest capacity a storage cell may take.
pub const MAX_CELL_LEN: usize = 10485760;

/// True of a byte sequence that is an identity key.
pub open spec fn is_key(k: Seq<u8>) -> bool {
    k.len() == KEY_LEN
}

/// A storage cell together with the caller-facing metadata the ledger
/// attaches to it: its address, the storage domain (program) that owns it,
/// whether its holder signed the current operation, and its funds.
pub struct Account {
    /// The address of the cell.
    pub key: Vec<u8>,
    /// The storage domain that owns the cell.
    pub owner_program: Vec<u8>,
    /// Whether the holder of `key` signed the operation.
    pub is_signer: bool,
    /// The funds backing the cell.
    pub lamports: u64,
    /// The cell's byte content.
    pub data: Vec<u8>,
}

/// The mathematical view of an [`Account`].
#[verifier::ext_equal]
pub struct AccountView {
    /// The address of the cell.
    pub key: Seq<u8>,
    /// The storage domain that owns the cell.
    pub owner_program: Seq<u8>,
    /// Whether the holder of `key` signed the operation.
    pub is_signer: bool,
    /// The funds backing the cell.
    pub lamports: u64,
    /// The cell's byte content.
    pub data: Seq<u8>,
}

impl View for Account {
    type V = AccountView;

    open spec fn view(&self) -> AccountView {
        AccountView {
            key: self.key@,
            owner_program: self.owner_program@,
            is_signer: self.is_signer,
            lamports: self.lamports,
            data: self.data@,
        }
    }
}

/// The views of a sequence of accounts, element by element.
pub open spec fn accounts_view(s: Seq<Account>) -> Seq<AccountView> {
    Seq::new(s.len(), |i: int| s[i]@)
}

/// The views of a sequence of accounts follow a pointwise update.
pub proof fn lemma_accounts_view_update(s: Seq<Account>, i: int, a: Account)
    requires
        0 <= i < s.len(),
    ensures
        accounts_view(s.update(i, a)) =~= accounts_view(s).update(i, a@),
{
}

/// What the ledger hands one operation: an ordered account list and the raw
/// instruction bytes.
pub struct Context {
    /// The positional account list.
    pub accounts: Vec<Account>,
    /// The raw instruction payload.
    pub data: Vec<u8>,
}

/// The mathematical view of a [`Context`].
#[verifier::ext_equal]
pub struct ContextView {
    /// The views of the positional account list.
    pub accounts: Seq<AccountView>,
    /// The raw instruction payload.
    pub data: Seq<u8>,
}

impl View for Context {
    type V = ContextView;

    open spec fn view(&self) -> ContextView {
        ContextView { accounts: accounts_view(self.accounts@), data: self.data@ }
    }
}

/// The decoded form of a record cell.
pub struct Record {
    /// The identity that owns the record.
    pub owner: Vec<u8>,
    /// The address of the governing class cell.
    pub class: Vec<u8>,
    /// When set, data and expiry updates are rejected until the record is
    /// unfrozen.
    pub is_frozen: bool,
    /// Expiry timestamp in seconds; its meaning is enforced by a
    /// collaborator, only its storage is handled here.
    pub expiry: i64,
    /// An identity permitted to act on the owner's behalf, if any.
    pub delegate: Option<Vec<u8>>,
    /// The opaque variable-length payload.
    pub data: Vec<u8>,
}

/// The mathematical view of a [`Record`].
#[verifier::ext_equal]
pub struct RecordView {
    /// The identity that owns the record.
    pub owner: Seq<u8>,
    /// The address of the governing class cell.
    pub class: Seq<u8>,
    /// Whether the record is frozen against mutation.
    pub is_frozen: bool,
    /// Expiry timestamp in seconds.
    pub expiry: i64,
    /// An identity permitted to act on the owner's behalf, if any.
    pub delegate: Option<Seq<u8>>,
    /// The opaque variable-length payload.
    pub data: Seq<u8>,
}

impl View for Record {
    type V = RecordView;

    open spec fn view(&self) -> RecordView {
        RecordView {
            owner: self.owner@,
            class: self.class@,
            is_frozen: self.is_frozen,
            expiry: self.expiry,
            delegate: match self.delegate {
                Option::Some(d) => Option::Some(d@),
                Option::None => Option::None,
            },
            data: self.data@,
        }
    }
}

impl RecordView {
    /// Well-formedness: every key field has key length.
    pub open spec fn wf(self) -> bool {
        &&& is_key(self.owner)
        &&& is_key(self.class)
        &&& match self.delegate {
            Option::Some(d) => is_key(d),
            Option::None => true,
        }
    }
}

/// The decoded form of a class cell: a policy container for records.
pub struct Class {
    /// The identity permitted to administer records under this class.
    pub authority: Vec<u8>,
    /// When set, the class authority (not just a record's owner) may act on
    /// member records.
    pub is_permissioned: bool,
}

/// The mathematical view of a [`Class`].
#[verifier::ext_equal]
pub struct ClassView {
    /// The identity permitted to administer records under this class.
    pub authority: Seq<u8>,
    /// Whether the class authority may act on member records.
    pub is_permissioned: bool,
}

impl View for Class {
    type V = ClassView;

    open spec fn view(&self) -> ClassView {
        ClassView { authority: self.authority@, is_permissioned: self.is_permissioned }
    }
}

impl ClassView {
    /// Well-formedness: the authority is a key.
    pub open spec fn wf(self) -> bool {
        is_key(self.authority)
    }
}

} // verus!
