//! The byte form in which a record is persisted.
//!
//! A record is written field by field, in declared order, with nothing
//! between the fields: each string as its UTF-8 length in eight
//! little-endian bytes followed by its UTF-8 bytes, each 64-bit number in
//! eight little-endian bytes. The bytes are produced and read back by
//! `bincode`; this module states what they are and proves that reading
//! inverts writing.

use crate::error::ServiceError;
use crate::record::{Location, RecordView, StoredRecord};
use vstd::bytes::{lemma_auto_spec_u64_to_from_le_bytes, spec_u64_from_le_bytes, spec_u64_to_le_bytes};
use vstd::pervasive::unreached;
use vstd::prelude::*;
use vstd::utf8::{encode_utf8, encode_utf8_decode_utf8};

verus! {

/// The record with the given fields.
pub open spec fn record_of(id: Seq<char>, secret: Seq<char>, lat_bits: u64, lon_bits: u64, time: u64) -> RecordView {
    RecordView { id, secret, location: Location { lat_bits, lon_bits, time } }
}

/// Bytes of a string: the length of its UTF-8 form, then that form.
pub open spec fn text_image(text: Seq<char>) -> Seq<u8> {
    spec_u64_to_le_bytes(encode_utf8(text).len() as u64) + encode_utf8(text)
}

/// Bytes of an observation: latitude, longitude, time.
pub open spec fn location_image(location: Location) -> Seq<u8> {
    spec_u64_to_le_bytes(location.lat_bits) + spec_u64_to_le_bytes(location.lon_bits)
        + spec_u64_to_le_bytes(location.time)
}

/// Bytes of a record: id, secret, location.
pub open spec fn record_image(record: RecordView) -> Seq<u8> {
    text_image(record.id) + text_image(record.secret) + location_image(record.location)
}

/// Number of bytes in the image of a record.
pub open spec fn image_len(record: RecordView) -> nat {
    40 + encode_utf8(record.id).len() + encode_utf8(record.secret).len()
}

/// The image of the record fits in one allocation.
pub open spec fn encodable(record: RecordView) -> bool {
    image_len(record) <= isize::MAX
}

/// `bytes` starts with the image of `record`. Bytes after the image are
/// ignored.
pub open spec fn decodes_to(bytes: Seq<u8>, record: RecordView) -> bool {
    encodable(record) && record_image(record).is_prefix_of(bytes)
}

/// `bytes` starts with the image of some record.
pub open spec fn decodable(bytes: Seq<u8>) -> bool {
    exists|record: RecordView| decodes_to(bytes, record)
}

/// The record whose image `bytes` starts with, where there is one.
pub open spec fn decoded(bytes: Seq<u8>) -> RecordView {
    choose|record: RecordView| decodes_to(bytes, record)
}

/// The image of a record has `image_len` bytes.
pub proof fn lemma_image_len(record: RecordView)
    ensures
        record_image(record).len() == image_len(record),
        text_image(record.id).len() == 8 + encode_utf8(record.id).len(),
        text_image(record.secret).len() == 8 + encode_utf8(record.secret).len(),
        location_image(record.location).len() == 24,
{
    lemma_auto_spec_u64_to_from_le_bytes();
}

/// A prefix made of two parts: the first part is the front of the whole, the
/// second is a prefix of what follows it.
proof fn lemma_prefix_parts(first: Seq<u8>, second: Seq<u8>, bytes: Seq<u8>)
    requires
        (first + second).is_prefix_of(bytes),
    ensures
        first == bytes.subrange(0, first.len() as int),
        second.is_prefix_of(bytes.skip(first.len() as int)),
{
    let whole = first + second;
    assert forall|i: int| 0 <= i < first.len() implies first[i] == bytes[i] by {
        assert(whole[i] == bytes.subrange(0, whole.len() as int)[i]);
    }
    assert(first =~= bytes.subrange(0, first.len() as int));
    let rest = bytes.skip(first.len() as int);
    assert forall|i: int| 0 <= i < second.len() implies second[i] == rest[i] by {
        assert(whole[first.len() + i] == bytes.subrange(0, whole.len() as int)[first.len() + i]);
    }
    assert(second =~= rest.subrange(0, second.len() as int));
}

/// Two strings whose images both start `bytes` are the same string.
proof fn lemma_text_unique(a: Seq<char>, b: Seq<char>, bytes: Seq<u8>)
    requires
        encode_utf8(a).len() <= u64::MAX,
        encode_utf8(b).len() <= u64::MAX,
        text_image(a).is_prefix_of(bytes),
        text_image(b).is_prefix_of(bytes),
    ensures
        a == b,
{
    lemma_auto_spec_u64_to_from_le_bytes();
    let len_a = encode_utf8(a).len() as u64;
    let len_b = encode_utf8(b).len() as u64;
    lemma_prefix_parts(spec_u64_to_le_bytes(len_a), encode_utf8(a), bytes);
    lemma_prefix_parts(spec_u64_to_le_bytes(len_b), encode_utf8(b), bytes);
    assert(spec_u64_to_le_bytes(len_a) == spec_u64_to_le_bytes(len_b));
    assert(len_a == len_b) by {
        assert(spec_u64_from_le_bytes(spec_u64_to_le_bytes(len_a)) == len_a);
        assert(spec_u64_from_le_bytes(spec_u64_to_le_bytes(len_b)) == len_b);
    }
    let rest = bytes.skip(8);
    assert(encode_utf8(a) =~= rest.subrange(0, len_a as int));
    assert(encode_utf8(b) =~= rest.subrange(0, len_b as int));
    encode_utf8_decode_utf8(a);
    encode_utf8_decode_utf8(b);
}

/// Two observations whose images both start `bytes` are the same.
proof fn lemma_location_unique(a: Location, b: Location, bytes: Seq<u8>)
    requires
        location_image(a).is_prefix_of(bytes),
        location_image(b).is_prefix_of(bytes),
    ensures
        a == b,
{
    lemma_auto_spec_u64_to_from_le_bytes();
    let tail_a = spec_u64_to_le_bytes(a.lon_bits) + spec_u64_to_le_bytes(a.time);
    let tail_b = spec_u64_to_le_bytes(b.lon_bits) + spec_u64_to_le_bytes(b.time);
    assert(location_image(a) =~= spec_u64_to_le_bytes(a.lat_bits) + tail_a);
    assert(location_image(b) =~= spec_u64_to_le_bytes(b.lat_bits) + tail_b);
    lemma_prefix_parts(spec_u64_to_le_bytes(a.lat_bits), tail_a, bytes);
    lemma_prefix_parts(spec_u64_to_le_bytes(b.lat_bits), tail_b, bytes);
    assert(spec_u64_from_le_bytes(spec_u64_to_le_bytes(a.lat_bits)) == a.lat_bits);
    assert(spec_u64_from_le_bytes(spec_u64_to_le_bytes(b.lat_bits)) == b.lat_bits);
    let rest = bytes.skip(8);
    lemma_prefix_parts(spec_u64_to_le_bytes(a.lon_bits), spec_u64_to_le_bytes(a.time), rest);
    lemma_prefix_parts(spec_u64_to_le_bytes(b.lon_bits), spec_u64_to_le_bytes(b.time), rest);
    assert(spec_u64_from_le_bytes(spec_u64_to_le_bytes(a.lon_bits)) == a.lon_bits);
    assert(spec_u64_from_le_bytes(spec_u64_to_le_bytes(b.lon_bits)) == b.lon_bits);
    let last = rest.skip(8);
    assert(spec_u64_to_le_bytes(a.time) == last.subrange(0, 8));
    assert(spec_u64_to_le_bytes(b.time) == last.subrange(0, 8));
    assert(spec_u64_from_le_bytes(spec_u64_to_le_bytes(a.time)) == a.time);
    assert(spec_u64_from_le_bytes(spec_u64_to_le_bytes(b.time)) == b.time);
}

/// No byte sequence starts with the images of two different records.
pub proof fn lemma_decoding_unique(bytes: Seq<u8>, a: RecordView, b: RecordView)
    requires
        decodes_to(bytes, a),
        decodes_to(bytes, b),
    ensures
        a == b,
{
    lemma_image_len(a);
    lemma_image_len(b);
    let tail_a = text_image(a.secret) + location_image(a.location);
    let tail_b = text_image(b.secret) + location_image(b.location);
    assert(record_image(a) =~= text_image(a.id) + tail_a);
    assert(record_image(b) =~= text_image(b.id) + tail_b);
    lemma_prefix_parts(text_image(a.id), tail_a, bytes);
    lemma_prefix_parts(text_image(b.id), tail_b, bytes);
    assert(text_image(a.id).is_prefix_of(bytes));
    assert(text_image(b.id).is_prefix_of(bytes));
    lemma_text_unique(a.id, b.id, bytes);
    let rest = bytes.skip(text_image(a.id).len() as int);
    lemma_prefix_parts(text_image(a.secret), location_image(a.location), rest);
    lemma_prefix_parts(text_image(b.secret), location_image(b.location), rest);
    assert(text_image(a.secret).is_prefix_of(rest));
    assert(text_image(b.secret).is_prefix_of(rest));
    lemma_text_unique(a.secret, b.secret, rest);
    let last = rest.skip(text_image(a.secret).len() as int);
    lemma_location_unique(a.location, b.location, last);
}

/// Reading inverts writing: the image of a record, with any bytes after it,
/// decodes to that record and to no other.
pub proof fn law_round_trip(record: RecordView, trailing: Seq<u8>)
    requires
        encodable(record),
    ensures
        decodable(record_image(record) + trailing),
        decoded(record_image(record) + trailing) == record,
{
    let bytes = record_image(record) + trailing;
    assert(record_image(record) =~= bytes.subrange(0, record_image(record).len() as int));
    assert(decodes_to(bytes, record));
    lemma_decoding_unique(bytes, record, decoded(bytes));
}

/// `bincode::serialize`, applied to the tuple `(id, secret, (lat, lon, time))`.
///
/// Trusted: with its default options bincode writes a tuple as its elements
/// in order, a string as its byte length in eight little-endian bytes
/// followed by its bytes, and a `u64` in eight little-endian bytes. It sets
/// no size limit and writes into memory, so for these types it does not
/// fail. The output buffer is allocated at its final size, which is why the
/// image has to fit in one allocation.
#[verifier::external_body]
fn bincode_serialize(id: &str, secret: &str, lat_bits: u64, lon_bits: u64, time: u64) -> (out: Option<Vec<u8>>)
    requires
        encodable(record_of(id@, secret@, lat_bits, lon_bits, time)),
    ensures
        out is Some,
        out->0@ == record_image(record_of(id@, secret@, lat_bits, lon_bits, time)),
{
    match bincode::serialize(&(id, secret, (lat_bits, lon_bits, time))) {
        Ok(bytes) => Some(bytes),
        Err(_) => None,
    }
}

/// `bincode::deserialize`, reading a tuple `(id, secret, (lat, lon, time))`.
///
/// Trusted: bincode reads the fields in the order and form in which it
/// writes them, checks that each string is valid UTF-8, and does not mind
/// bytes left over after the last field. It fails exactly when the input
/// runs out early, a string length does not fit, or a string is not UTF-8,
/// that is, when the input does not start with the image of any record.
#[verifier::external_body]
fn bincode_deserialize(bytes: &[u8]) -> (out: Option<(String, String, (u64, u64, u64))>)
    ensures
        out matches Some(f) ==> decodes_to(bytes@, record_of(f.0@, f.1@, f.2.0, f.2.1, f.2.2)),
        out is None ==> !decodable(bytes@),
{
    match bincode::deserialize::<(String, String, (u64, u64, u64))>(bytes) {
        Ok(fields) => Some(fields),
        Err(_) => None,
    }
}

/// The bytes under which `record` is persisted.
pub fn encode(record: &StoredRecord) -> (bytes: Vec<u8>)
    requires
        encodable(record@),
    ensures
        bytes@ == record_image(record@),
{
    let written = bincode_serialize(
        record.id.as_str(),
        record.secret.as_str(),
        record.location.lat_bits,
        record.location.lon_bits,
        record.location.time,
    );
    match written {
        Some(bytes) => bytes,
        None => unreached(),
    }
}

/// Whether the image of `record` fits in one allocation, so that `encode` can
/// write it. It does for every record short of half the address space.
pub fn fits(record: &StoredRecord) -> (yes: bool)
    ensures
        yes == encodable(record@),
{
    let id_len: usize = record.id.as_str().as_bytes().len();
    let secret_len: usize = record.secret.as_str().as_bytes().len();
    let room: usize = isize::MAX as usize - 40;
    id_len <= room && secret_len <= room - id_len
}

/// The record that `bytes` holds.
///
/// Succeeds exactly when `bytes` starts with the image of a record, and then
/// returns that record; anything else is a `Decode` failure.
pub fn decode(bytes: &[u8]) -> (result: Result<StoredRecord, ServiceError>)
    ensures
        match result {
            Ok(record) => decodable(bytes@) && record@ == decoded(bytes@),
            Err(error) => !decodable(bytes@) && error == ServiceError::Decode,
        },
{
    match bincode_deserialize(bytes) {
        Some(fields) => {
            let (id, secret, (lat_bits, lon_bits, time)) = fields;
            let record = StoredRecord { id, secret, location: Location { lat_bits, lon_bits, time } };
            proof {
                lemma_decoding_unique(bytes@, record@, decoded(bytes@));
            }
            Ok(record)
        },
        None => Err(ServiceError::Decode),
    }
}

} // verus!
