//! The binary encoding shared by the compiler and the virtual machine.
//!
//! Instructions carry operands in one authoritative format: 8-byte
//! little-endian words for integers, addresses, ids and node handles; one
//! byte for booleans; a length-prefixed run of UTF-8 bytes for strings.
//! Floats travel as the 8 little-endian bytes of their IEEE-754 bit pattern.

use vstd::bytes::{spec_u64_from_le_bytes, spec_u64_to_le_bytes, u64_from_le_bytes, u64_to_le_bytes};
use vstd::bytes::lemma_auto_spec_u64_to_from_le_bytes;
use vstd::prelude::*;
use vstd::slice::slice_subrange;
use vstd::string::StringSliceAdditionalSpecFns;
use vstd::utf8::{decode_utf8, valid_utf8};

use crate::object::TypeCode;

verus! {

pub type ByteCode = Vec<u8>;

pub type SymbolID = usize;

/// Number of bytes in an encoded address, id or compiled-node handle.
pub const PTR_SIZE: usize = 8;

/// Number of bytes in an encoded symbol id.
pub const ID_SIZE: usize = 8;

/// The unsigned 64-bit word carrying the two's-complement bits of `value`.
pub open spec fn spec_i64_to_u64(value: i64) -> u64 {
    value as u64
}

/// The signed reading of an unsigned 64-bit word's bits.
pub open spec fn spec_u64_to_i64(word: u64) -> i64 {
    word as i64
}

/// Each signed value survives the trip through its unsigned carrier word.
pub proof fn lemma_i64_u64_round_trip(value: i64)
    ensures
        spec_u64_to_i64(spec_i64_to_u64(value)) == value,
{
    assert(((value as u64) as i64) == value) by (bit_vector);
}

/// Little-endian bytes of an address, id or node handle.
pub open spec fn spec_raw_from_usize(value: usize) -> Seq<u8> {
    spec_u64_to_le_bytes(value as u64)
}

/// Encode an address, id or count as 8 little-endian bytes.
pub fn raw_from_usize(value: usize) -> (res: Vec<u8>)
    ensures
        res@ == spec_raw_from_usize(value),
        res@.len() == 8,
{
    proof {
        lemma_auto_spec_u64_to_from_le_bytes();
    }
    u64_to_le_bytes(value as u64)
}

/// Encode a compiled-node handle as 8 little-endian bytes.
pub fn raw_from_ptr(handle: usize) -> (res: Vec<u8>)
    ensures
        res@ == spec_raw_from_usize(handle),
        res@.len() == 8,
{
    raw_from_usize(handle)
}

/// Bytes of an encoded Int constant: its type tag, then the value.
pub open spec fn spec_obj_from_int(value: i64) -> Seq<u8> {
    seq![TypeCode::Int.spec_byte()] + spec_u64_to_le_bytes(spec_i64_to_u64(value))
}

/// Encode an Int constant: tag byte, then 8 little-endian bytes.
pub fn obj_from_int(value: i64) -> (res: ByteCode)
    ensures
        res@ == spec_obj_from_int(value),
        res@.len() == 9,
{
    proof {
        lemma_auto_spec_u64_to_from_le_bytes();
    }
    let mut bytes: Vec<u8> = Vec::new();
    bytes.push(TypeCode::Int.to_byte());
    let mut tail = u64_to_le_bytes(#[verifier::truncate] (value as u64));
    bytes.append(&mut tail);
    bytes
}

/// Bytes of an encoded Float constant: its type tag, then the IEEE bits.
pub open spec fn spec_obj_from_float(bits: u64) -> Seq<u8> {
    seq![TypeCode::Float.spec_byte()] + spec_u64_to_le_bytes(bits)
}

/// Encode a Float constant from its IEEE-754 bit pattern: tag byte, then 8
/// little-endian bytes.
pub fn obj_from_float(bits: u64) -> (res: ByteCode)
    ensures
        res@ == spec_obj_from_float(bits),
        res@.len() == 9,
{
    proof {
        lemma_auto_spec_u64_to_from_le_bytes();
    }
    let mut bytes: Vec<u8> = Vec::new();
    bytes.push(TypeCode::Float.to_byte());
    let mut tail = u64_to_le_bytes(bits);
    bytes.append(&mut tail);
    bytes
}

/// Bytes of an encoded Bool constant: its type tag, then one byte.
pub open spec fn spec_obj_from_boolean(value: bool) -> Seq<u8> {
    seq![TypeCode::Bool.spec_byte(), (if value { 1u8 } else { 0u8 })]
}

/// Encode a Bool constant: tag byte, then one byte.
pub fn obj_from_boolean(value: bool) -> (res: ByteCode)
    ensures
        res@ == spec_obj_from_boolean(value),
{
    let mut bytes: Vec<u8> = Vec::new();
    bytes.push(TypeCode::Bool.to_byte());
    bytes.push(if value { 1 } else { 0 });
    proof {
        assert(bytes@ =~= spec_obj_from_boolean(value));
    }
    bytes
}

/// Bytes of an encoded String constant: its type tag, the byte length as an
/// 8-byte word, then the raw UTF-8 bytes.
pub open spec fn spec_obj_from_string(s: &str) -> Seq<u8> {
    seq![TypeCode::String.spec_byte()] + spec_u64_to_le_bytes(
        ((s.spec_bytes().len() as usize) as u64),
    ) + s.spec_bytes()
}

/// Encode a String constant: tag byte, byte length, then the UTF-8 payload.
pub fn obj_from_string(value: &str) -> (res: ByteCode)
    ensures
        res@ == spec_obj_from_string(value),
{
    proof {
        lemma_auto_spec_u64_to_from_le_bytes();
    }
    let mut bytes: Vec<u8> = Vec::new();
    bytes.push(TypeCode::String.to_byte());
    let len = value.len();
    let mut len_bytes = u64_to_le_bytes(len as u64);
    bytes.append(&mut len_bytes);
    let mut payload = value.as_bytes_vec();
    bytes.append(&mut payload);
    proof {
        assert(bytes@ =~= spec_obj_from_string(value));
    }
    bytes
}

/// The id decoded at `index`: the next 8 bytes read little-endian.
pub open spec fn spec_raw_word(code: Seq<u8>, index: int) -> u64 {
    spec_u64_from_le_bytes(code.subrange(index, index + 8))
}

/// Decode a symbol id and report the 8 bytes consumed.
pub fn get_raw_id(index: usize, code: &ByteCode) -> (res: (SymbolID, usize))
    requires
        index + ID_SIZE <= code@.len(),
    ensures
        res.0 == spec_raw_word(code@, index as int) as usize,
        res.1 == ID_SIZE,
{
    let word = read_le_word(index, code);
    (word as usize, ID_SIZE)
}

/// Decode a compiled-node handle and report the 8 bytes consumed.
pub fn get_raw_ptr(index: usize, code: &ByteCode) -> (res: (usize, usize))
    requires
        index + PTR_SIZE <= code@.len(),
    ensures
        res.0 == spec_raw_word(code@, index as int) as usize,
        res.1 == PTR_SIZE,
{
    let word = read_le_word(index, code);
    (word as usize, PTR_SIZE)
}

/// Decode an address or count and report the 8 bytes consumed.
pub fn get_raw_usize(index: usize, code: &ByteCode) -> (res: (usize, usize))
    requires
        index + PTR_SIZE <= code@.len(),
    ensures
        res.0 == spec_raw_word(code@, index as int) as usize,
        res.1 == PTR_SIZE,
{
    let word = read_le_word(index, code);
    (word as usize, PTR_SIZE)
}

/// Decode a signed 64-bit constant and report the 8 bytes consumed.
pub fn get_raw_int(index: usize, code: &ByteCode) -> (res: (i64, usize))
    requires
        index + 8 <= code@.len(),
    ensures
        res.0 == spec_u64_to_i64(spec_raw_word(code@, index as int)),
        res.1 == 8,
{
    let word = read_le_word(index, code);
    (#[verifier::truncate] (word as i64), 8)
}

/// Decode a Float constant's IEEE-754 bit pattern and report the 8 bytes
/// consumed.
pub fn get_raw_float(index: usize, code: &ByteCode) -> (res: (u64, usize))
    requires
        index + 8 <= code@.len(),
    ensures
        res.0 == spec_raw_word(code@, index as int),
        res.1 == 8,
{
    let word = read_le_word(index, code);
    (word, 8)
}

/// Decode a boolean and report the single byte consumed.
pub fn get_raw_boolean(index: usize, code: &ByteCode) -> (res: (bool, usize))
    requires
        index < code@.len(),
    ensures
        res.0 == (code@[index as int] != 0),
        res.1 == 1,
{
    (code[index] != 0, 1)
}

/// The byte length prefix of the string encoded at `index`, read as a
/// signed 64-bit word.
pub open spec fn spec_raw_string_len(code: Seq<u8>, index: int) -> int {
    spec_u64_to_i64(spec_raw_word(code, index)) as int
}

/// The UTF-8 payload of the string encoded at `index`.
pub open spec fn spec_raw_string_payload(code: Seq<u8>, index: int) -> Seq<u8> {
    code.subrange(index + 8, index + 8 + spec_raw_string_len(code, index))
}

/// Decode a String constant's payload: the byte length, then that many raw
/// UTF-8 bytes; report the length plus the 8 prefix bytes as consumed.
pub fn get_raw_string(index: usize, code: &ByteCode) -> (res: (String, usize))
    requires
        index + 8 <= code@.len(),
        0 <= spec_raw_string_len(code@, index as int),
        index + 8 + spec_raw_string_len(code@, index as int) <= code@.len(),
        valid_utf8(spec_raw_string_payload(code@, index as int)),
    ensures
        res.0@ == decode_utf8(spec_raw_string_payload(code@, index as int)),
        res.1 == 8 + spec_raw_string_len(code@, index as int),
{
    let _total = code.len();
    let (length, _) = get_raw_int(index, code);
    let n = #[verifier::truncate] (length as usize);
    proof {
        assert(n == spec_raw_string_len(code@, index as int));
    }
    let payload = slice_subrange(code.as_slice(), index + 8, index + 8 + n);
    match utf8_to_string(payload) {
        Some(s) => (s, 8 + n),
        None => vstd::pervasive::unreached(),
    }
}

/// Relies on str::from_utf8: it accepts exactly the valid UTF-8 byte runs
/// and returns the string reading of those bytes.
#[verifier::external_body]
pub(crate) fn utf8_to_string(bytes: &[u8]) -> (res: Option<String>)
    ensures
        res is Some <==> valid_utf8(bytes@),
        res matches Some(s) ==> s@ == decode_utf8(bytes@),
{
    match std::str::from_utf8(bytes) {
        Ok(s) => Some(s.to_owned()),
        Err(_) => None,
    }
}

/// Round trip: an Int constant's payload decodes back to the value encoded.
pub proof fn lemma_int_round_trip(value: i64)
    ensures
        ({
            let code = spec_obj_from_int(value);
            &&& code.len() == 9
            &&& code[0] == TypeCode::Int.spec_byte()
            &&& spec_u64_to_i64(spec_raw_word(code, 1)) == value
        }),
{
    lemma_auto_spec_u64_to_from_le_bytes();
    let code = spec_obj_from_int(value);
    assert(code.subrange(1, 9) =~= spec_u64_to_le_bytes(spec_i64_to_u64(value)));
    lemma_i64_u64_round_trip(value);
}

/// Round trip: a Float constant's payload decodes back to the bit pattern
/// encoded.
pub proof fn lemma_float_round_trip(bits: u64)
    ensures
        ({
            let code = spec_obj_from_float(bits);
            &&& code.len() == 9
            &&& code[0] == TypeCode::Float.spec_byte()
            &&& spec_raw_word(code, 1) == bits
        }),
{
    lemma_auto_spec_u64_to_from_le_bytes();
    let code = spec_obj_from_float(bits);
    assert(code.subrange(1, 9) =~= spec_u64_to_le_bytes(bits));
}

/// Round trip: a Bool constant's payload decodes back to the value encoded.
pub proof fn lemma_boolean_round_trip(value: bool)
    ensures
        ({
            let code = spec_obj_from_boolean(value);
            &&& code.len() == 2
            &&& code[0] == TypeCode::Bool.spec_byte()
            &&& (code[1] != 0) == value
        }),
{
}

/// Round trip: a String constant's payload is its own UTF-8 bytes, which
/// decode back to the character sequence encoded.
pub proof fn lemma_string_round_trip(s: &str)
    requires
        s.spec_bytes().len() <= usize::MAX,
        s.spec_bytes().len() < 0x8000_0000_0000_0000,
    ensures
        ({
            let code = spec_obj_from_string(s);
            &&& code[0] == TypeCode::String.spec_byte()
            &&& spec_raw_string_len(code, 1) == s.spec_bytes().len()
            &&& spec_raw_string_payload(code, 1) == s.spec_bytes()
            &&& valid_utf8(spec_raw_string_payload(code, 1))
            &&& decode_utf8(spec_raw_string_payload(code, 1)) == s@
        }),
{
    lemma_auto_spec_u64_to_from_le_bytes();
    let code = spec_obj_from_string(s);
    let n = s.spec_bytes().len();
    let w = ((n as usize) as u64);
    assert(code.subrange(1, 9) =~= spec_u64_to_le_bytes(w));
    assert(w == n);
    assert(w < 0x8000_0000_0000_0000 ==> ((w as i64) as u64 == w && w as i64 >= 0))
        by (bit_vector);
    assert(spec_raw_string_payload(code, 1) =~= s.spec_bytes());
    vstd::utf8::encode_utf8_valid_utf8(s@);
    vstd::utf8::encode_utf8_decode_utf8(s@);
}

/// Read the 8-byte little-endian word at `index`.
fn read_le_word(index: usize, code: &ByteCode) -> (word: u64)
    requires
        index + 8 <= code@.len(),
    ensures
        word == spec_raw_word(code@, index as int),
{
    let _len = code.len();
    let sub = slice_subrange(code.as_slice(), index, index + 8);
    u64_from_le_bytes(sub)
}

} // verus!
