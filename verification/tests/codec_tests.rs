use record_registry::codec::{
    bytes_eq, decode_class, decode_record, encode_class, encode_record, parse_expiry_args,
    parse_freeze_args, parse_update_data_args, ByteReader,
};
use record_registry::error::RegistryError;
use record_registry::state::{
    Class, Record, CLASS_HEADER_LEN, CLASS_OFFSET, EXPIRY_OFFSET, IS_FROZEN_OFFSET, KEY_LEN,
    RECORD_DISCRIMINATOR, RECORD_HEADER_LEN,
};

fn key(b: u8) -> Vec<u8> {
    vec![b; KEY_LEN]
}

#[test]
fn record_round_trip_with_delegate() {
    let rec = Record {
        owner: key(1),
        class: key(2),
        is_frozen: true,
        expiry: -1234567890123,
        delegate: Some(key(3)),
        data: b"hello record".to_vec(),
    };
    let cell = encode_record(&rec);
    assert_eq!(cell.len(), RECORD_HEADER_LEN + 12);
    assert_eq!(cell[0], RECORD_DISCRIMINATOR);
    let back = decode_record(&cell).unwrap();
    assert_eq!(back.owner, key(1));
    assert_eq!(back.class, key(2));
    assert!(back.is_frozen);
    assert_eq!(back.expiry, -1234567890123);
    assert_eq!(back.delegate, Some(key(3)));
    assert_eq!(back.data, b"hello record".to_vec());
}

#[test]
fn record_round_trip_without_delegate() {
    let rec = Record {
        owner: key(7),
        class: key(8),
        is_frozen: false,
        expiry: 0,
        delegate: None,
        data: Vec::new(),
    };
    let cell = encode_record(&rec);
    assert_eq!(cell.len(), RECORD_HEADER_LEN);
    let back = decode_record(&cell).unwrap();
    assert_eq!(back.owner, key(7));
    assert_eq!(back.class, key(8));
    assert!(!back.is_frozen);
    assert_eq!(back.expiry, 0);
    assert_eq!(back.delegate, None);
    assert!(back.data.is_empty());
}

#[test]
fn reencode_reproduces_canonical_cell() {
    let rec = Record {
        owner: key(1),
        class: key(2),
        is_frozen: true,
        expiry: -7,
        delegate: None,
        data: b"tail".to_vec(),
    };
    let cell = encode_record(&rec);
    let back = decode_record(&cell).unwrap();
    assert_eq!(encode_record(&back), cell);
}

#[test]
fn class_round_trip() {
    let c = Class { authority: key(9), is_permissioned: true };
    let cell = encode_class(&c);
    assert_eq!(cell.len(), CLASS_HEADER_LEN);
    let back = decode_class(&cell).unwrap();
    assert_eq!(back.authority, key(9));
    assert!(back.is_permissioned);
}

#[test]
fn decode_short_buffer_is_malformed() {
    let short = vec![RECORD_DISCRIMINATOR; RECORD_HEADER_LEN - 1];
    assert!(matches!(decode_record(&short), Err(RegistryError::MalformedData)));
    let short_class = vec![1u8; CLASS_HEADER_LEN - 1];
    assert!(matches!(decode_class(&short_class), Err(RegistryError::MalformedData)));
    assert!(matches!(decode_record(&Vec::new()), Err(RegistryError::MalformedData)));
}

#[test]
fn decode_wrong_discriminator_is_malformed() {
    let rec = Record {
        owner: key(1),
        class: key(2),
        is_frozen: false,
        expiry: 5,
        delegate: None,
        data: Vec::new(),
    };
    let mut cell = encode_record(&rec);
    cell[0] = 0x77;
    assert!(matches!(decode_record(&cell), Err(RegistryError::MalformedData)));
}

#[test]
fn decode_bad_flag_byte_is_malformed() {
    let rec = Record {
        owner: key(1),
        class: key(2),
        is_frozen: false,
        expiry: 5,
        delegate: None,
        data: Vec::new(),
    };
    let mut cell = encode_record(&rec);
    cell[IS_FROZEN_OFFSET] = 2;
    assert!(matches!(decode_record(&cell), Err(RegistryError::MalformedData)));
}

#[test]
fn expiry_bytes_are_little_endian() {
    let rec = Record {
        owner: key(1),
        class: key(2),
        is_frozen: false,
        expiry: 0x0102030405060708,
        delegate: None,
        data: Vec::new(),
    };
    let cell = encode_record(&rec);
    assert_eq!(
        &cell[EXPIRY_OFFSET..EXPIRY_OFFSET + 8],
        &[0x08, 0x07, 0x06, 0x05, 0x04, 0x03, 0x02, 0x01]
    );
}

#[test]
fn class_key_is_readable_at_fixed_offset() {
    let rec = Record {
        owner: key(1),
        class: key(0xAB),
        is_frozen: false,
        expiry: 7,
        delegate: None,
        data: b"x".to_vec(),
    };
    let cell = encode_record(&rec);
    assert_eq!(&cell[CLASS_OFFSET..CLASS_OFFSET + KEY_LEN], key(0xAB).as_slice());
}

#[test]
fn byte_reader_consumes_in_order() {
    let mut r = ByteReader::new(vec![5, 1, 9, 9, 9]);
    assert_eq!(r.remaining_bytes(), 5);
    assert_eq!(r.read_u8(), Ok(5));
    assert_eq!(r.read_bool(), Ok(true));
    assert_eq!(r.read_rest(), vec![9, 9, 9]);
    assert_eq!(r.remaining_bytes(), 0);
    assert_eq!(r.read_u8(), Err(RegistryError::InvalidArgument));
}

#[test]
fn byte_reader_bounds_checked() {
    let mut r = ByteReader::new(vec![1, 2, 3]);
    assert_eq!(r.read_i64_le(), Err(RegistryError::InvalidArgument));
    assert_eq!(r.read_bytes(4), Err(RegistryError::InvalidArgument));
    assert_eq!(r.read_bytes(3), Ok(vec![1, 2, 3]));
}

#[test]
fn parse_freeze_args_cases() {
    assert_eq!(parse_freeze_args(&Vec::new()), Err(RegistryError::InvalidArgument));
    assert_eq!(parse_freeze_args(&vec![0]), Ok(false));
    assert_eq!(parse_freeze_args(&vec![1]), Ok(true));
    assert_eq!(parse_freeze_args(&vec![2]), Err(RegistryError::MalformedData));
    assert_eq!(parse_freeze_args(&vec![1, 0xEE]), Ok(true));
}

#[test]
fn parse_expiry_args_cases() {
    assert_eq!(parse_expiry_args(&vec![1, 2, 3]), Err(RegistryError::InvalidArgument));
    let mut raw = (-99i64).to_le_bytes().to_vec();
    raw.push(0xFF);
    assert_eq!(parse_expiry_args(&raw), Ok(-99));
}

#[test]
fn parse_update_data_args_takes_everything() {
    assert_eq!(parse_update_data_args(&b"payload".to_vec()), b"payload".to_vec());
    assert_eq!(parse_update_data_args(&Vec::new()), Vec::<u8>::new());
}

#[test]
fn bytes_eq_compares_contents() {
    assert!(bytes_eq(&vec![1, 2], &vec![1, 2]));
    assert!(!bytes_eq(&vec![1, 2], &vec![1, 3]));
    assert!(!bytes_eq(&vec![1, 2], &vec![1, 2, 3]));
}

#[test]
fn error_descriptions() {
    assert_eq!(RegistryError::NotEnoughAccounts.describe(), "not enough accounts");
    assert_eq!(RegistryError::MissingSignature.describe(), "missing required signature");
    assert_eq!(RegistryError::Unauthorized.describe(), "unauthorized");
    assert_eq!(RegistryError::MalformedData.describe(), "malformed data");
    assert_eq!(RegistryError::InvalidArgument.describe(), "invalid argument");
}
