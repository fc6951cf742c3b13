//! Instruction builders for the token-extension adapter.
//!
//! The registry registers metadata and group membership for a record's
//! associated token representation through an external token service. That
//! service is a fire-and-forget collaborator: only the wire payloads and the
//! ordered account lists built here are the registry's own work, and only
//! the bytes explicitly written ever reach the wire. Submitting the built
//! instruction is the caller's business.

use vstd::prelude::*;

verus! {

/// One account referenced by a built instruction, with its access flags.
pub struct InstructionAccount {
    /// The address of the account.
    pub key: Vec<u8>,
    /// Whether the instruction may mutate the account.
    pub writable: bool,
    /// Whether the account must sign the instruction.
    pub signer: bool,
}

/// The eight-byte tag that selects member initialisation at the token
/// service.
pub open spec fn spec_initialize_member_tag() -> Seq<u8> {
    seq![0x98u8, 0x20u8, 0xdeu8, 0xb0u8, 0xdfu8, 0xedu8, 0x74u8, 0x86u8]
}

/// The eight-byte tag that selects metadata initialisation at the token
/// service.
pub open spec fn spec_initialize_metadata_tag() -> Seq<u8> {
    seq![0xd2u8, 0xe1u8, 0x1eu8, 0xa2u8, 0x58u8, 0xb8u8, 0x4du8, 0x8du8]
}

/// Registers a record's token as a member of its group at the token
/// service.
pub struct InitializeMember {
    /// The mint account of the token.
    pub mint: Vec<u8>,
    /// The member account.
    pub member: Vec<u8>,
    /// The mint authority account.
    pub mint_authority: Vec<u8>,
    /// The group account.
    pub group: Vec<u8>,
    /// The group update authority account.
    pub group_update_authority: Vec<u8>,
}

impl InitializeMember {
    /// The wire payload: exactly the eight tag bytes.
    pub fn instruction_data(&self) -> (out: Vec<u8>)
        ensures
            out@ == spec_initialize_member_tag(),
    {
        let mut out: Vec<u8> = Vec::new();
        out.push(0x98u8);
        out.push(0x20u8);
        out.push(0xdeu8);
        out.push(0xb0u8);
        out.push(0xdfu8);
        out.push(0xedu8);
        out.push(0x74u8);
        out.push(0x86u8);
        proof {
            assert(out@ =~= spec_initialize_member_tag());
        }
        out
    }

    /// The ordered account list of the instruction: mint (writable), member,
    /// mint authority (signer), group (writable), group update authority
    /// (signer).
    pub fn account_metas(&self) -> (out: Vec<InstructionAccount>)
        ensures
            out@.len() == 5,
            out@[0].key@ == self.mint@ && out@[0].writable && !out@[0].signer,
            out@[1].key@ == self.member@ && !out@[1].writable && !out@[1].signer,
            out@[2].key@ == self.mint_authority@ && !out@[2].writable && out@[2].signer,
            out@[3].key@ == self.group@ && out@[3].writable && !out@[3].signer,
            out@[4].key@ == self.group_update_authority@ && !out@[4].writable && out@[4].signer,
    {
        let mut out: Vec<InstructionAccount> = Vec::new();
        out.push(
            InstructionAccount {
                key: crate::codec::copy_range(&self.mint, 0, self.mint.len()),
                writable: true,
                signer: false,
            },
        );
        out.push(
            InstructionAccount {
                key: crate::codec::copy_range(&self.member, 0, self.member.len()),
                writable: false,
                signer: false,
            },
        );
        out.push(
            InstructionAccount {
                key: crate::codec::copy_range(&self.mint_authority, 0, self.mint_authority.len()),
                writable: false,
                signer: true,
            },
        );
        out.push(
            InstructionAccount {
                key: crate::codec::copy_range(&self.group, 0, self.group.len()),
                writable: true,
                signer: false,
            },
        );
        out.push(
            InstructionAccount {
                key: crate::codec::copy_range(
                    &self.group_update_authority,
                    0,
                    self.group_update_authority.len(),
                ),
                writable: false,
                signer: true,
            },
        );
        proof {
            assert(self.mint@.subrange(0, self.mint@.len() as int) =~= self.mint@);
            assert(self.member@.subrange(0, self.member@.len() as int) =~= self.member@);
            assert(self.mint_authority@.subrange(0, self.mint_authority@.len() as int)
                =~= self.mint_authority@);
            assert(self.group@.subrange(0, self.group@.len() as int) =~= self.group@);
            assert(self.group_update_authority@.subrange(
                0,
                self.group_update_authority@.len() as int,
            ) =~= self.group_update_authority@);
        }
        out
    }
}

/// Registers metadata for a record's token at the token service.
pub struct InitializeMetadata {
    /// The metadata account written by the service.
    pub metadata: Vec<u8>,
    /// The mint account of the token.
    pub mint: Vec<u8>,
    /// The update authority account.
    pub update_authority: Vec<u8>,
    /// The mint authority account.
    pub mint_authority: Vec<u8>,
    /// The serialised metadata handed through untouched; the service
    /// rejects it if it is invalid.
    pub metadata_data: Vec<u8>,
}

impl InitializeMetadata {
    /// The wire payload: the eight tag bytes, then the metadata, truncated
    /// to exactly the bytes written.
    pub fn instruction_data(&self) -> (out: Vec<u8>)
        ensures
            out@ == spec_initialize_metadata_tag() + self.metadata_data@,
            out@.len() == 8 + self.metadata_data@.len(),
    {
        let mut out: Vec<u8> = Vec::new();
        out.push(0xd2u8);
        out.push(0xe1u8);
        out.push(0x1eu8);
        out.push(0xa2u8);
        out.push(0x58u8);
        out.push(0xb8u8);
        out.push(0x4du8);
        out.push(0x8du8);
        proof {
            assert(out@ =~= spec_initialize_metadata_tag());
        }
        crate::codec::push_bytes(&mut out, &self.metadata_data);
        out
    }

    /// The ordered account list of the instruction: metadata (writable),
    /// update authority, mint, mint authority (signer).
    pub fn account_metas(&self) -> (out: Vec<InstructionAccount>)
        ensures
            out@.len() == 4,
            out@[0].key@ == self.metadata@ && out@[0].writable && !out@[0].signer,
            out@[1].key@ == self.update_authority@ && !out@[1].writable && !out@[1].signer,
            out@[2].key@ == self.mint@ && !out@[2].writable && !out@[2].signer,
            out@[3].key@ == self.mint_authority@ && !out@[3].writable && out@[3].signer,
    {
        let mut out: Vec<InstructionAccount> = Vec::new();
        out.push(
            InstructionAccount {
                key: crate::codec::copy_range(&self.metadata, 0, self.metadata.len()),
                writable: true,
                signer: false,
            },
        );
        out.push(
            InstructionAccount {
                key: crate::codec::copy_range(
                    &self.update_authority,
                    0,
                    self.update_authority.len(),
                ),
                writable: false,
                signer: false,
            },
        );
        out.push(
            InstructionAccount {
                key: crate::codec::copy_range(&self.mint, 0, self.mint.len()),
                writable: false,
                signer: false,
            },
        );
        out.push(
            InstructionAccount {
                key: crate::codec::copy_range(&self.mint_authority, 0, self.mint_authority.len()),
                writable: false,
                signer: true,
            },
        );
        proof {
            assert(self.metadata@.subrange(0, self.metadata@.len() as int) =~= self.metadata@);
            assert(self.update_authority@.subrange(0, self.update_authority@.len() as int)
                =~= self.update_authority@);
            assert(self.mint@.subrange(0, self.mint@.len() as int) =~= self.mint@);
            assert(self.mint_authority@.subrange(0, self.mint_authority@.len() as int)
                =~= self.mint_authority@);
        }
        out
    }
}

} // verus!
