//! Bytes and text: what the programs store in an account, and how a stored
//! value is laid out.
//!
//! A stored string is its length in bytes as four little-endian bytes, then
//! its UTF-8 bytes. A stored 32-bit number is its four little-endian bytes.

use vstd::prelude::*;
use vstd::utf8::{valid_utf8, encode_utf8};
use std::string::FromUtf8Error;

verus! {

/// `std::io::Error`, the error of the calls that store and load values.
/// Nothing is said of what it holds.
#[verifier::external_type_specification]
#[verifier::external_body]
pub struct ExIoError(std::io::Error);

/// `std::string::FromUtf8Error`, the error of `String::from_utf8`. Nothing
/// is said of what it holds.
#[verifier::external_type_specification]
#[verifier::external_body]
pub struct ExFromUtf8Error(FromUtf8Error);

/// `String::from_utf8` of the standard library: it accepts exactly the byte
/// vectors that are valid UTF-8, and the string it gives has those bytes.
pub assume_specification[ String::from_utf8 ](vec: Vec<u8>) -> (result: Result<
    String,
    FromUtf8Error,
>)
    ensures
        result is Ok <==> valid_utf8(vec@),
        result matches Ok(text) ==> encode_utf8(text@) == vec@,
;

/// The four little-endian bytes of a number below 2^32: the lowest byte
/// first.
pub open spec fn stored_u32(value: nat) -> Seq<u8> {
    seq![
        (value % 256) as u8,
        (value / 256 % 256) as u8,
        (value / 65536 % 256) as u8,
        (value / 16777216 % 256) as u8,
    ]
}

/// The number whose little-endian bytes are the first four of `bytes`.
pub open spec fn loaded_u32(bytes: Seq<u8>) -> nat {
    (bytes[0] + 256 * bytes[1] + 65536 * bytes[2] + 16777216 * bytes[3]) as nat
}

/// The stored form of a string: the number of its UTF-8 bytes as four
/// little-endian bytes, then those bytes.
pub open spec fn stored_string(chars: Seq<char>) -> Seq<u8> {
    stored_u32(encode_utf8(chars).len()) + encode_utf8(chars)
}

/// `BorshSerialize::try_to_vec` of borsh on a `String`: the string's stored
/// form. It fails only on a string of more than `u32::MAX` bytes.
#[verifier::external_body]
pub(crate) fn string_to_stored(text: &String) -> (result: Result<Vec<u8>, std::io::Error>)
    ensures
        result is Ok <==> encode_utf8(text@).len() <= u32::MAX,
        result matches Ok(bytes) ==> bytes@ == stored_string(text@),
{
    borsh::BorshSerialize::try_to_vec(text)
}

/// `BorshSerialize::try_to_vec` of borsh on a `u32`: its four little-endian
/// bytes. It does not fail.
#[verifier::external_body]
pub(crate) fn u32_to_stored(value: u32) -> (result: Result<Vec<u8>, std::io::Error>)
    ensures
        result is Ok,
        result matches Ok(bytes) ==> bytes@ == stored_u32(value as nat),
{
    borsh::BorshSerialize::try_to_vec(&value)
}

/// `BorshDeserialize::try_from_slice` of borsh for a `u32`: it accepts
/// exactly the slices of four bytes, and gives the number whose
/// little-endian bytes they are.
#[verifier::external_body]
pub(crate) fn u32_from_stored(bytes: &[u8]) -> (result: Result<u32, std::io::Error>)
    ensures
        result is Ok <==> bytes@.len() == 4,
        result matches Ok(value) ==> value == loaded_u32(bytes@),
{
    borsh::BorshDeserialize::try_from_slice(bytes)
}

/// A number below 2^32 is loaded back from its stored form.
pub proof fn lemma_loaded_stored_u32(value: u32)
    ensures
        stored_u32(value as nat).len() == 4,
        loaded_u32(stored_u32(value as nat)) == value,
{
    let v = value as int;
    let low = v % 65536;
    let high = v / 65536;
    assert(v == high * 65536 + low);
    assert(low == (low / 256) * 256 + low % 256);
    assert(high == (high / 256) * 256 + high % 256);
    assert(v % 256 == low % 256);
    assert(v / 256 % 256 == low / 256);
    assert(v / 65536 % 256 == high % 256);
    assert(v / 16777216 == high / 256);
    assert(high / 256 < 256);
}

/// Four bytes are the stored form of the number loaded from them, which is
/// below 2^32.
pub proof fn lemma_stored_loaded_u32(bytes: Seq<u8>)
    requires
        bytes.len() == 4,
    ensures
        loaded_u32(bytes) <= u32::MAX,
        stored_u32(loaded_u32(bytes)) == bytes,
{
    let v = loaded_u32(bytes) as int;
    let b0 = bytes[0] as int;
    let b1 = bytes[1] as int;
    let b2 = bytes[2] as int;
    let b3 = bytes[3] as int;
    assert(v == b0 + 256 * (b1 + 256 * (b2 + 256 * b3)));
    assert(v / 256 == b1 + 256 * (b2 + 256 * b3));
    assert(v / 65536 == b2 + 256 * b3) by {
        assert(v == (b0 + 256 * b1) + 65536 * (b2 + 256 * b3));
    }
    assert(v / 16777216 == b3) by {
        assert(v == (b0 + 256 * b1 + 65536 * b2) + 16777216 * b3);
    }
    assert(stored_u32(loaded_u32(bytes)) =~= bytes);
}

/// A text takes at least one byte and at most four bytes for each of its
/// characters.
pub proof fn lemma_utf8_length_bounds(chars: Seq<char>)
    ensures
        chars.len() <= encode_utf8(chars).len() <= 4 * chars.len(),
    decreases chars.len(),
{
    if chars.len() > 0 {
        lemma_utf8_length_bounds(chars.drop_first());
    }
}

/// The bytes of two texts, one after the other, are the bytes of the texts
/// joined.
pub proof fn lemma_encode_utf8_concat(first: Seq<char>, second: Seq<char>)
    ensures
        encode_utf8(first + second) == encode_utf8(first) + encode_utf8(second),
    decreases first.len(),
{
    if first.len() == 0 {
        assert(first + second == second);
    } else {
        lemma_encode_utf8_concat(first.drop_first(), second);
        assert((first + second).drop_first() == first.drop_first() + second);
    }
}

} // verus!
