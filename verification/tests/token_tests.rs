use record_registry::state::KEY_LEN;
use record_registry::token2022::{InitializeMember, InitializeMetadata};

fn key(b: u8) -> Vec<u8> {
    vec![b; KEY_LEN]
}

#[test]
fn member_instruction_data_is_the_tag() {
    let ix = InitializeMember {
        mint: key(1),
        member: key(2),
        mint_authority: key(3),
        group: key(4),
        group_update_authority: key(5),
    };
    assert_eq!(
        ix.instruction_data(),
        vec![0x98, 0x20, 0xde, 0xb0, 0xdf, 0xed, 0x74, 0x86]
    );
}

#[test]
fn member_account_metas_in_order() {
    let ix = InitializeMember {
        mint: key(1),
        member: key(2),
        mint_authority: key(3),
        group: key(4),
        group_update_authority: key(5),
    };
    let metas = ix.account_metas();
    assert_eq!(metas.len(), 5);
    assert_eq!(metas[0].key, key(1));
    assert!(metas[0].writable && !metas[0].signer);
    assert_eq!(metas[1].key, key(2));
    assert!(!metas[1].writable && !metas[1].signer);
    assert_eq!(metas[2].key, key(3));
    assert!(!metas[2].writable && metas[2].signer);
    assert_eq!(metas[3].key, key(4));
    assert!(metas[3].writable && !metas[3].signer);
    assert_eq!(metas[4].key, key(5));
    assert!(!metas[4].writable && metas[4].signer);
}

#[test]
fn metadata_instruction_data_is_tag_then_payload() {
    let ix = InitializeMetadata {
        metadata: key(1),
        mint: key(2),
        update_authority: key(3),
        mint_authority: key(4),
        metadata_data: b"name".to_vec(),
    };
    let data = ix.instruction_data();
    assert_eq!(data.len(), 8 + 4);
    assert_eq!(&data[..8], &[0xd2, 0xe1, 0x1e, 0xa2, 0x58, 0xb8, 0x4d, 0x8d]);
    assert_eq!(&data[8..], b"name");
}

#[test]
fn metadata_account_metas_in_order() {
    let ix = InitializeMetadata {
        metadata: key(1),
        mint: key(2),
        update_authority: key(3),
        mint_authority: key(4),
        metadata_data: Vec::new(),
    };
    let metas = ix.account_metas();
    assert_eq!(metas.len(), 4);
    assert_eq!(metas[0].key, key(1));
    assert!(metas[0].writable && !metas[0].signer);
    assert_eq!(metas[1].key, key(3));
    assert!(!metas[1].writable && !metas[1].signer);
    assert_eq!(metas[2].key, key(2));
    assert!(!metas[2].writable && !metas[2].signer);
    assert_eq!(metas[3].key, key(4));
    assert!(!metas[3].writable && metas[3].signer);
}
