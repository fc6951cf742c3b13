//! The layout codec.
//!
//! Fixed-offset binary encoding and decoding of [`Record`] and [`Class`]
//! cells, a bounds-checked byte-stream reader for instruction payloads, and
//! the byte-buffer helpers the lifecycle engine mutates cells with. The codec
//! never reads out of bounds: a buffer shorter than a field fails with a
//! typed error.

use vstd::prelude::*;
use vstd::bytes::{
    lemma_auto_spec_u64_to_from_le_bytes, spec_u64_from_le_bytes, spec_u64_to_le_bytes,
    u64_from_le_bytes, u64_to_le_bytes,
};
use vstd::slice::{slice_subrange, slice_to_vec};
use crate::error::RegistryError;
use crate::state::{
    Class, ClassView, Record, RecordView, CLASS_AUTHORITY_OFFSET, CLASS_DISCRIMINATOR,
    CLASS_HEADER_LEN, CLASS_OFFSET, DELEGATE_FLAG_OFFSET, DELEGATE_KEY_OFFSET,
    DISCRIMINATOR_OFFSET, EXPIRY_OFFSET, IS_FROZEN_OFFSET, IS_PERMISSIONED_OFFSET, KEY_LEN,
    OWNER_OFFSET, RECORD_DISCRIMINATOR, RECORD_HEADER_LEN,
};

verus! {

/// Minimum instruction-payload length of the freeze operation.
pub const FREEZE_MIN_IX_LENGTH: usize = 1;

/// Minimum instruction-payload length of the update-expiry operation.
pub const EXPIRY_MIN_IX_LENGTH: usize = 8;

/// The byte a flag field holds for each truth value.
pub open spec fn bool_byte(b: bool) -> u8 {
    if b {
        1u8
    } else {
        0u8
    }
}

/// An all-zero key, the placeholder written when no delegate is present.
pub open spec fn zero_key() -> Seq<u8> {
    Seq::new(KEY_LEN as nat, |i: int| 0u8)
}

/// The little-endian bytes of a signed 64-bit expiry.
pub open spec fn spec_encode_expiry(x: i64) -> Seq<u8> {
    spec_u64_to_le_bytes(x as u64)
}

/// The signed 64-bit expiry read from eight little-endian bytes.
pub open spec fn spec_decode_expiry(s: Seq<u8>) -> i64 {
    spec_u64_from_le_bytes(s) as i64
}

/// An expiry survives encoding and decoding.
pub proof fn lemma_expiry_round_trip(x: i64)
    ensures
        spec_encode_expiry(x).len() == 8,
        spec_decode_expiry(spec_encode_expiry(x)) == x,
{
    lemma_auto_spec_u64_to_from_le_bytes();
    assert(((x as u64) as i64) == x) by (bit_vector);
}

/// The delegate-present flag byte of a record.
pub open spec fn spec_delegate_flag(d: Option<Seq<u8>>) -> u8 {
    match d {
        Option::Some(_) => 1u8,
        Option::None => 0u8,
    }
}

/// The delegate key bytes of a record: the key when present, zeroes when not.
pub open spec fn spec_delegate_bytes(d: Option<Seq<u8>>) -> Seq<u8> {
    match d {
        Option::Some(k) => k,
        Option::None => zero_key(),
    }
}

/// The full cell image of a record: fixed header, then the payload to the
/// end of the cell.
pub open spec fn spec_encode_record(r: RecordView) -> Seq<u8> {
    seq![RECORD_DISCRIMINATOR] + r.owner + r.class + seq![bool_byte(r.is_frozen)]
        + spec_encode_expiry(r.expiry) + seq![spec_delegate_flag(r.delegate)]
        + spec_delegate_bytes(r.delegate) + r.data
}

/// True of a buffer that decodes as a record cell: long enough for the fixed
/// header, the expected discriminator, and valid flag bytes.
pub open spec fn spec_record_decodable(b: Seq<u8>) -> bool {
    &&& b.len() >= RECORD_HEADER_LEN
    &&& b[DISCRIMINATOR_OFFSET as int] == RECORD_DISCRIMINATOR
    &&& (b[IS_FROZEN_OFFSET as int] == 0 || b[IS_FROZEN_OFFSET as int] == 1)
    &&& (b[DELEGATE_FLAG_OFFSET as int] == 0 || b[DELEGATE_FLAG_OFFSET as int] == 1)
}

/// The record a decodable buffer holds. The payload is everything after the
/// fixed header; its length is implied by the cell size.
pub open spec fn spec_decode_record(b: Seq<u8>) -> RecordView {
    RecordView {
        owner: b.subrange(OWNER_OFFSET as int, CLASS_OFFSET as int),
        class: b.subrange(CLASS_OFFSET as int, IS_FROZEN_OFFSET as int),
        is_frozen: b[IS_FROZEN_OFFSET as int] == 1,
        expiry: spec_decode_expiry(
            b.subrange(EXPIRY_OFFSET as int, DELEGATE_FLAG_OFFSET as int),
        ),
        delegate: if b[DELEGATE_FLAG_OFFSET as int] == 1 {
            Option::Some(b.subrange(DELEGATE_KEY_OFFSET as int, RECORD_HEADER_LEN as int))
        } else {
            Option::None
        },
        data: b.subrange(RECORD_HEADER_LEN as int, b.len() as int),
    }
}

/// The cell image of a class header.
pub open spec fn spec_encode_class(c: ClassView) -> Seq<u8> {
    seq![CLASS_DISCRIMINATOR] + c.authority + seq![bool_byte(c.is_permissioned)]
}

/// True of a buffer that decodes as a class cell.
pub open spec fn spec_class_decodable(b: Seq<u8>) -> bool {
    &&& b.len() >= CLASS_HEADER_LEN
    &&& b[DISCRIMINATOR_OFFSET as int] == CLASS_DISCRIMINATOR
    &&& (b[IS_PERMISSIONED_OFFSET as int] == 0 || b[IS_PERMISSIONED_OFFSET as int] == 1)
}

/// The class a decodable buffer holds. Bytes after the fixed header are
/// ignored.
pub open spec fn spec_decode_class(b: Seq<u8>) -> ClassView {
    ClassView {
        authority: b.subrange(
            CLASS_AUTHORITY_OFFSET as int,
            IS_PERMISSIONED_OFFSET as int,
        ),
        is_permissioned: b[IS_PERMISSIONED_OFFSET as int] == 1,
    }
}

/// Encoding then decoding a well-formed record yields identical field
/// values; a record image always carries a valid discriminator.
pub proof fn lemma_record_round_trip(r: RecordView)
    requires
        r.wf(),
    ensures
        spec_encode_record(r).len() == RECORD_HEADER_LEN + r.data.len(),
        spec_record_decodable(spec_encode_record(r)),
        spec_decode_record(spec_encode_record(r)) == r,
{
    let e = spec_encode_record(r);
    lemma_expiry_round_trip(r.expiry);
    assert(e.len() == RECORD_HEADER_LEN + r.data.len());
    assert(e[DISCRIMINATOR_OFFSET as int] == RECORD_DISCRIMINATOR);
    assert(e[IS_FROZEN_OFFSET as int] == bool_byte(r.is_frozen));
    assert(e[DELEGATE_FLAG_OFFSET as int] == spec_delegate_flag(r.delegate));
    let d = spec_decode_record(e);
    assert(d.owner =~= r.owner);
    assert(d.class =~= r.class);
    assert(e.subrange(EXPIRY_OFFSET as int, DELEGATE_FLAG_OFFSET as int) =~= spec_encode_expiry(
        r.expiry,
    ));
    match r.delegate {
        Option::Some(k) => {
            assert(e.subrange(DELEGATE_KEY_OFFSET as int, RECORD_HEADER_LEN as int) =~= k);
        },
        Option::None => {},
    }
    assert(d.data =~= r.data);
    assert(d =~~= r);
}

/// True of a record cell image in canonical form: decodable, with the
/// delegate key bytes zeroed whenever no delegate is flagged. Every image
/// the encoder produces is canonical.
pub open spec fn spec_record_canonical(b: Seq<u8>) -> bool {
    &&& spec_record_decodable(b)
    &&& (b[DELEGATE_FLAG_OFFSET as int] == 0 ==> b.subrange(
        DELEGATE_KEY_OFFSET as int,
        RECORD_HEADER_LEN as int,
    ) == zero_key())
}

/// Decoding then re-encoding a canonical record cell image reproduces it
/// byte for byte: the codec loses nothing.
pub proof fn lemma_record_reencode(b: Seq<u8>)
    requires
        spec_record_canonical(b),
    ensures
        spec_encode_record(spec_decode_record(b)) == b,
{
    let r = spec_decode_record(b);
    lemma_auto_spec_u64_to_from_le_bytes();
    let sub = b.subrange(EXPIRY_OFFSET as int, DELEGATE_FLAG_OFFSET as int);
    assert(sub.len() == 8);
    let x = spec_u64_from_le_bytes(sub);
    assert(((x as i64) as u64) == x) by (bit_vector);
    assert(spec_encode_expiry(r.expiry) == spec_u64_to_le_bytes(spec_u64_from_le_bytes(sub)));
    assert(spec_encode_expiry(r.expiry) == sub);
    assert(spec_encode_record(r) =~= b);
}

/// Encoding then decoding a well-formed class yields identical field values.
pub proof fn lemma_class_round_trip(c: ClassView)
    requires
        c.wf(),
    ensures
        spec_encode_class(c).len() == CLASS_HEADER_LEN,
        spec_class_decodable(spec_encode_class(c)),
        spec_decode_class(spec_encode_class(c)) == c,
{
    let e = spec_encode_class(c);
    assert(e[DISCRIMINATOR_OFFSET as int] == CLASS_DISCRIMINATOR);
    assert(e[IS_PERMISSIONED_OFFSET as int] == bool_byte(c.is_permissioned));
    let d = spec_decode_class(e);
    assert(d.authority =~= c.authority);
    assert(d =~~= c);
}

/// Appends all of `src` to `dst`.
pub fn push_bytes(dst: &mut Vec<u8>, src: &Vec<u8>)
    ensures
        final(dst)@ == old(dst)@ + src@,
{
    let ghost start = dst@;
    let mut i: usize = 0;
    while i < src.len()
        invariant
            i <= src@.len(),
            dst@ == start + src@.subrange(0, i as int),
        decreases src@.len() - i,
    {
        let b = src[i];
        dst.push(b);
        proof {
            assert(start + src@.subrange(0, (i + 1) as int) =~= (start + src@.subrange(
                0,
                i as int,
            )).push(src@[i as int]));
        }
        i = i + 1;
    }
    proof {
        assert(src@.subrange(0, src@.len() as int) =~= src@);
    }
}

/// Appends `n` zero bytes to `dst`.
pub fn push_zeros(dst: &mut Vec<u8>, n: usize)
    ensures
        final(dst)@ == old(dst)@ + Seq::new(n as nat, |i: int| 0u8),
{
    let ghost start = dst@;
    let mut i: usize = 0;
    while i < n
        invariant
            i <= n,
            dst@ == start + Seq::new(i as nat, |j: int| 0u8),
        decreases n - i,
    {
        dst.push(0u8);
        proof {
            assert(start + Seq::new((i + 1) as nat, |j: int| 0u8) =~= (start + Seq::new(
                i as nat,
                |j: int| 0u8,
            )).push(0u8));
        }
        i = i + 1;
    }
}

/// Copies the bytes of `src` between `start` and `end` into a fresh vector.
pub fn copy_range(src: &Vec<u8>, start: usize, end: usize) -> (out: Vec<u8>)
    requires
        start <= end <= src@.len(),
    ensures
        out@ == src@.subrange(start as int, end as int),
{
    let s = slice_subrange(src.as_slice(), start, end);
    slice_to_vec(s)
}

/// Compares two byte vectors for equality of contents.
pub fn bytes_eq(a: &Vec<u8>, b: &Vec<u8>) -> (r: bool)
    ensures
        r == (a@ == b@),
{
    if a.len() != b.len() {
        return false;
    }
    let mut i: usize = 0;
    while i < a.len()
        invariant
            a@.len() == b@.len(),
            i <= a@.len(),
            forall|j: int| 0 <= j < i ==> a@[j] == b@[j],
        decreases a@.len() - i,
    {
        if a[i] != b[i] {
            return false;
        }
        i = i + 1;
    }
    proof {
        assert(a@ =~= b@);
    }
    true
}

/// Compares `key` against the bytes of `data` starting at `off`.
pub fn range_matches(data: &Vec<u8>, off: usize, key: &Vec<u8>) -> (r: bool)
    requires
        off + key@.len() <= data@.len(),
    ensures
        r == (data@.subrange(off as int, off + key@.len()) == key@),
{
    proof {
        assert(data@.len() <= usize::MAX) by {
            assert(data.len() == data@.len());
        }
    }
    let mut i: usize = 0;
    while i < key.len()
        invariant
            off + key@.len() <= data@.len(),
            data@.len() <= usize::MAX,
            i <= key@.len(),
            forall|j: int| 0 <= j < i ==> data@[off + j] == key@[j],
        decreases key@.len() - i,
    {
        if data[off + i] != key[i] {
            proof {
                assert(data@.subrange(off as int, off + key@.len())[i as int] == data@[off + i]);
            }
            return false;
        }
        i = i + 1;
    }
    proof {
        assert(data@.subrange(off as int, off + key@.len()) =~= key@);
    }
    true
}

/// Overwrites the bytes of `dst` starting at `off` with `src`, in place.
pub fn write_range(dst: &mut Vec<u8>, off: usize, src: &Vec<u8>)
    requires
        off + src@.len() <= old(dst)@.len(),
    ensures
        final(dst)@.len() == old(dst)@.len(),
        final(dst)@ == old(dst)@.subrange(0, off as int) + src@ + old(dst)@.subrange(
            off + src@.len(),
            old(dst)@.len() as int,
        ),
{
    let ghost start = dst@;
    proof {
        assert(start.len() <= usize::MAX) by {
            assert(dst.len() == dst@.len());
        }
    }
    let mut i: usize = 0;
    while i < src.len()
        invariant
            off + src@.len() <= start.len(),
            start.len() <= usize::MAX,
            i <= src@.len(),
            dst@.len() == start.len(),
            forall|k: int|
                0 <= k < start.len() ==> dst@[k] == if off <= k < off + i {
                    src@[k - off]
                } else {
                    start[k]
                },
        decreases src@.len() - i,
    {
        let b = src[i];
        let slot = &mut dst[off + i];
        *slot = b;
        i = i + 1;
    }
    proof {
        assert(dst@ =~= start.subrange(0, off as int) + src@ + start.subrange(
            off + src@.len(),
            start.len() as int,
        ));
    }
}

/// Encodes a record into a fresh cell image.
pub fn encode_record(r: &Record) -> (out: Vec<u8>)
    requires
        r@.wf(),
    ensures
        out@ == spec_encode_record(r@),
        out@.len() == RECORD_HEADER_LEN + r.data@.len(),
{
    let mut out: Vec<u8> = Vec::new();
    out.push(RECORD_DISCRIMINATOR);
    push_bytes(&mut out, &r.owner);
    push_bytes(&mut out, &r.class);
    out.push(if r.is_frozen {
        1u8
    } else {
        0u8
    });
    let expiry_bytes = u64_to_le_bytes(#[verifier::truncate] (r.expiry as u64));
    push_bytes(&mut out, &expiry_bytes);
    match &r.delegate {
        Option::Some(d) => {
            out.push(1u8);
            push_bytes(&mut out, d);
        },
        Option::None => {
            out.push(0u8);
            push_zeros(&mut out, KEY_LEN);
        },
    }
    push_bytes(&mut out, &r.data);
    proof {
        assert(out@ =~= spec_encode_record(r@));
        lemma_record_round_trip(r@);
    }
    out
}

/// Decodes a record from a cell image. Fails with a malformed-data error on
/// a short buffer, a wrong discriminator, or an invalid flag byte.
pub fn decode_record(buf: &Vec<u8>) -> (r: Result<Record, RegistryError>)
    ensures
        match r {
            Result::Ok(rec) => spec_record_decodable(buf@) && rec@ == spec_decode_record(buf@),
            Result::Err(e) => !spec_record_decodable(buf@) && e == RegistryError::MalformedData,
        },
{
    if buf.len() < RECORD_HEADER_LEN {
        return Result::Err(RegistryError::MalformedData);
    }
    if buf[DISCRIMINATOR_OFFSET] != RECORD_DISCRIMINATOR {
        return Result::Err(RegistryError::MalformedData);
    }
    let frozen_byte = buf[IS_FROZEN_OFFSET];
    if frozen_byte > 1 {
        return Result::Err(RegistryError::MalformedData);
    }
    let flag_byte = buf[DELEGATE_FLAG_OFFSET];
    if flag_byte > 1 {
        return Result::Err(RegistryError::MalformedData);
    }
    let owner = copy_range(buf, OWNER_OFFSET, CLASS_OFFSET);
    let class = copy_range(buf, CLASS_OFFSET, IS_FROZEN_OFFSET);
    let expiry_slice = slice_subrange(buf.as_slice(), EXPIRY_OFFSET, DELEGATE_FLAG_OFFSET);
    let bits = u64_from_le_bytes(expiry_slice);
    let expiry = #[verifier::truncate] (bits as i64);
    let delegate = if flag_byte == 1 {
        Option::Some(copy_range(buf, DELEGATE_KEY_OFFSET, RECORD_HEADER_LEN))
    } else {
        Option::None
    };
    let data = copy_range(buf, RECORD_HEADER_LEN, buf.len());
    let rec = Record { owner, class, is_frozen: frozen_byte == 1, expiry, delegate, data };
    proof {
        assert(rec@ =~~= spec_decode_record(buf@));
    }
    Result::Ok(rec)
}

/// Encodes a class into a fresh cell image.
pub fn encode_class(c: &Class) -> (out: Vec<u8>)
    requires
        c@.wf(),
    ensures
        out@ == spec_encode_class(c@),
        out@.len() == CLASS_HEADER_LEN,
{
    let mut out: Vec<u8> = Vec::new();
    out.push(CLASS_DISCRIMINATOR);
    push_bytes(&mut out, &c.authority);
    out.push(if c.is_permissioned {
        1u8
    } else {
        0u8
    });
    proof {
        assert(out@ =~= spec_encode_class(c@));
    }
    out
}

/// Decodes a class from a cell image. Fails with a malformed-data error on a
/// short buffer, a wrong discriminator, or an invalid flag byte.
pub fn decode_class(buf: &Vec<u8>) -> (r: Result<Class, RegistryError>)
    ensures
        match r {
            Result::Ok(c) => spec_class_decodable(buf@) && c@ == spec_decode_class(buf@),
            Result::Err(e) => !spec_class_decodable(buf@) && e == RegistryError::MalformedData,
        },
{
    if buf.len() < CLASS_HEADER_LEN {
        return Result::Err(RegistryError::MalformedData);
    }
    if buf[DISCRIMINATOR_OFFSET] != CLASS_DISCRIMINATOR {
        return Result::Err(RegistryError::MalformedData);
    }
    let perm_byte = buf[IS_PERMISSIONED_OFFSET];
    if perm_byte > 1 {
        return Result::Err(RegistryError::MalformedData);
    }
    let authority = copy_range(buf, CLASS_AUTHORITY_OFFSET, IS_PERMISSIONED_OFFSET);
    let c = Class { authority, is_permissioned: perm_byte == 1 };
    proof {
        assert(c@ =~~= spec_decode_class(buf@));
    }
    Result::Ok(c)
}

/// A bounds-checked cursor over an instruction payload. Reads consume from
/// the front; a read past the end fails with an invalid-argument error and
/// consumes nothing.
pub struct ByteReader {
    /// The full payload.
    pub data: Vec<u8>,
    /// How many bytes have been consumed.
    pub pos: usize,
}

impl ByteReader {
    /// The cursor never passes the end of the payload.
    pub open spec fn wf(&self) -> bool {
        self.pos <= self.data@.len()
    }

    /// The bytes not yet consumed.
    pub open spec fn remaining_view(&self) -> Seq<u8> {
        self.data@.subrange(self.pos as int, self.data@.len() as int)
    }

    /// Starts a reader at the front of a payload.
    pub fn new(data: Vec<u8>) -> (r: Self)
        ensures
            r.wf(),
            r.data@ == data@,
            r.remaining_view() == data@,
    {
        let r = ByteReader { data, pos: 0 };
        proof {
            assert(r.remaining_view() =~= r.data@);
        }
        r
    }

    /// How many bytes remain to be read.
    pub fn remaining_bytes(&self) -> (n: usize)
        requires
            self.wf(),
        ensures
            n == self.remaining_view().len(),
    {
        self.data.len() - self.pos
    }

    /// Reads one byte.
    pub fn read_u8(&mut self) -> (r: Result<u8, RegistryError>)
        requires
            old(self).wf(),
        ensures
            final(self).wf(),
            final(self).data == old(self).data,
            match r {
                Result::Ok(b) => old(self).remaining_view().len() >= 1 && b == old(
                    self,
                ).remaining_view()[0] && final(self).remaining_view() == old(
                    self,
                ).remaining_view().subrange(1, old(self).remaining_view().len() as int),
                Result::Err(e) => e == RegistryError::InvalidArgument && old(
                    self,
                ).remaining_view().len() == 0 && *final(self) == *old(self),
            },
    {
        if self.pos >= self.data.len() {
            return Result::Err(RegistryError::InvalidArgument);
        }
        let b = self.data[self.pos];
        self.pos = self.pos + 1;
        proof {
            assert(self.remaining_view() =~= old(self).remaining_view().subrange(
                1,
                old(self).remaining_view().len() as int,
            ));
        }
        Result::Ok(b)
    }

    /// Reads exactly `n` bytes.
    pub fn read_bytes(&mut self, n: usize) -> (r: Result<Vec<u8>, RegistryError>)
        requires
            old(self).wf(),
        ensures
            final(self).wf(),
            final(self).data == old(self).data,
            match r {
                Result::Ok(v) => old(self).remaining_view().len() >= n && v@ == old(
                    self,
                ).remaining_view().subrange(0, n as int) && final(self).remaining_view() == old(
                    self,
                ).remaining_view().subrange(n as int, old(self).remaining_view().len() as int),
                Result::Err(e) => e == RegistryError::InvalidArgument && old(
                    self,
                ).remaining_view().len() < n && *final(self) == *old(self),
            },
    {
        if n > self.data.len() - self.pos {
            return Result::Err(RegistryError::InvalidArgument);
        }
        let v = copy_range(&self.data, self.pos, self.pos + n);
        self.pos = self.pos + n;
        proof {
            assert(v@ =~= old(self).remaining_view().subrange(0, n as int));
            assert(self.remaining_view() =~= old(self).remaining_view().subrange(
                n as int,
                old(self).remaining_view().len() as int,
            ));
        }
        Result::Ok(v)
    }

    /// Reads all remaining bytes, leaving the reader exhausted.
    pub fn read_rest(&mut self) -> (v: Vec<u8>)
        requires
            old(self).wf(),
        ensures
            final(self).wf(),
            final(self).data == old(self).data,
            v@ == old(self).remaining_view(),
            final(self).remaining_view().len() == 0,
    {
        let v = copy_range(&self.data, self.pos, self.data.len());
        self.pos = self.data.len();
        proof {
            assert(self.remaining_view() =~= Seq::<u8>::empty());
        }
        v
    }

    /// Reads a flag byte: zero or one, anything else is a malformed-data
    /// error; an exhausted reader gives an invalid-argument error.
    pub fn read_bool(&mut self) -> (r: Result<bool, RegistryError>)
        requires
            old(self).wf(),
        ensures
            final(self).wf(),
            final(self).data == old(self).data,
            match r {
                Result::Ok(b) => old(self).remaining_view().len() >= 1 && old(
                    self,
                ).remaining_view()[0] == bool_byte(b) && final(self).remaining_view() == old(
                    self,
                ).remaining_view().subrange(1, old(self).remaining_view().len() as int),
                Result::Err(e) => *final(self) == *old(self) && (if old(
                    self,
                ).remaining_view().len() == 0 {
                    e == RegistryError::InvalidArgument
                } else {
                    e == RegistryError::MalformedData && old(self).remaining_view()[0] != 0 && old(
                        self,
                    ).remaining_view()[0] != 1
                }),
            },
    {
        if self.pos >= self.data.len() {
            return Result::Err(RegistryError::InvalidArgument);
        }
        let b = self.data[self.pos];
        if b > 1 {
            return Result::Err(RegistryError::MalformedData);
        }
        self.pos = self.pos + 1;
        proof {
            assert(self.remaining_view() =~= old(self).remaining_view().subrange(
                1,
                old(self).remaining_view().len() as int,
            ));
        }
        Result::Ok(b == 1)
    }

    /// Reads a little-endian signed 64-bit value.
    pub fn read_i64_le(&mut self) -> (r: Result<i64, RegistryError>)
        requires
            old(self).wf(),
        ensures
            final(self).wf(),
            final(self).data == old(self).data,
            match r {
                Result::Ok(x) => old(self).remaining_view().len() >= 8 && x == spec_decode_expiry(
                    old(self).remaining_view().subrange(0, 8),
                ) && final(self).remaining_view() == old(self).remaining_view().subrange(
                    8,
                    old(self).remaining_view().len() as int,
                ),
                Result::Err(e) => e == RegistryError::InvalidArgument && old(
                    self,
                ).remaining_view().len() < 8 && *final(self) == *old(self),
            },
    {
        if 8 > self.data.len() - self.pos {
            return Result::Err(RegistryError::InvalidArgument);
        }
        let s = slice_subrange(self.data.as_slice(), self.pos, self.pos + 8);
        let bits = u64_from_le_bytes(s);
        let x = #[verifier::truncate] (bits as i64);
        self.pos = self.pos + 8;
        proof {
            assert(s@ =~= old(self).remaining_view().subrange(0, 8));
            assert(self.remaining_view() =~= old(self).remaining_view().subrange(
                8,
                old(self).remaining_view().len() as int,
            ));
        }
        Result::Ok(x)
    }
}

/// What the freeze operation's one-byte payload means: too short is an
/// invalid-argument error, a byte other than zero or one is malformed.
pub open spec fn spec_parse_freeze_args(d: Seq<u8>) -> Result<bool, RegistryError> {
    if d.len() < FREEZE_MIN_IX_LENGTH {
        Result::Err(RegistryError::InvalidArgument)
    } else if d[0] == 0 {
        Result::Ok(false)
    } else if d[0] == 1 {
        Result::Ok(true)
    } else {
        Result::Err(RegistryError::MalformedData)
    }
}

/// Parses the freeze operation's payload.
pub fn parse_freeze_args(data: &Vec<u8>) -> (r: Result<bool, RegistryError>)
    ensures
        r == spec_parse_freeze_args(data@),
{
    let mut reader = ByteReader::new(copy_range(data, 0, data.len()));
    proof {
        assert(data@.subrange(0, data@.len() as int) =~= data@);
    }
    reader.read_bool()
}

/// What the update-expiry operation's payload means: the first eight bytes
/// as a little-endian signed timestamp, shorter is an invalid-argument
/// error.
pub open spec fn spec_parse_expiry_args(d: Seq<u8>) -> Result<i64, RegistryError> {
    if d.len() < EXPIRY_MIN_IX_LENGTH {
        Result::Err(RegistryError::InvalidArgument)
    } else {
        Result::Ok(spec_decode_expiry(d.subrange(0, 8)))
    }
}

/// Parses the update-expiry operation's payload.
pub fn parse_expiry_args(data: &Vec<u8>) -> (r: Result<i64, RegistryError>)
    ensures
        r == spec_parse_expiry_args(data@),
{
    let mut reader = ByteReader::new(copy_range(data, 0, data.len()));
    proof {
        assert(data@.subrange(0, data@.len() as int) =~= data@);
    }
    reader.read_i64_le()
}

/// Parses the update-data operation's payload: all remaining bytes from the
/// cursor, with no length prefix; an empty payload is allowed.
pub fn parse_update_data_args(data: &Vec<u8>) -> (payload: Vec<u8>)
    ensures
        payload@ == data@,
{
    let mut reader = ByteReader::new(copy_range(data, 0, data.len()));
    proof {
        assert(data@.subrange(0, data@.len() as int) =~= data@);
    }
    reader.read_rest()
}

} // verus!
