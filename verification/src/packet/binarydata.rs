use vstd::prelude::*;
use vstd::utf8::{decode_utf8, encode_utf8, valid_utf8};
use vstd::string::StringSliceAdditionalSpecFns;

use super::error::PacketError;
use super::utils::{be_bytes, be_value, signed_of, i32_to_be, slice_to_i32};

verus! {

/// One item of a packet: a run of raw bytes.
pub struct BinaryData {
    pub vec: Vec<u8>,
}

impl Clone for BinaryData {
    fn clone(&self) -> (res: Self)
        ensures
            res@ == self@,
    {
        BinaryData { vec: vstd::slice::slice_to_vec(self.vec.as_slice()) }
    }
}

impl View for BinaryData {
    type V = Seq<u8>;

    open spec fn view(&self) -> Seq<u8> {
        self.vec@
    }
}

/// `String::from_utf8`: std documents that it returns the string that the
/// bytes encode when they are valid UTF-8, and an error otherwise.
#[verifier::external_body]
fn string_from_utf8(bytes: Vec<u8>) -> (res: Option<String>)
    ensures
        res is Some <==> valid_utf8(bytes@),
        res matches Some(s) ==> s@ == decode_utf8(bytes@),
{
    match String::from_utf8(bytes) {
        Ok(s) => Some(s),
        Err(_) => None,
    }
}

impl BinaryData {
    pub fn from_vec(vec: Vec<u8>) -> (res: BinaryData)
        ensures
            res@ == vec@,
    {
        BinaryData { vec }
    }

    /// The four big-endian two's complement bytes of `num`.
    pub fn from_i32(num: i32) -> (res: BinaryData)
        ensures
            res@ == be_bytes(num as int),
    {
        BinaryData { vec: i32_to_be(num) }
    }

    /// The UTF-8 bytes of `str`.
    pub fn from_string(str: String) -> (res: BinaryData)
        ensures
            res@ == encode_utf8(str@),
    {
        let bytes = str.as_str().as_bytes();
        BinaryData { vec: vstd::slice::slice_to_vec(bytes) }
    }

    /// The UTF-8 bytes of `str`, which is left as it was.
    pub fn from_string_ref(str: &mut String) -> (res: BinaryData)
        ensures
            res@ == encode_utf8(old(str)@),
            *final(str) == *old(str),
    {
        let bytes = str.as_str().as_bytes();
        BinaryData { vec: vstd::slice::slice_to_vec(bytes) }
    }

    /// The item read as a big-endian `i32`; the item must be four bytes long.
    pub fn to_i32(&self) -> (res: i32)
        requires
            self@.len() == 4,
        ensures
            res as int == signed_of(be_value(self@)),
    {
        slice_to_i32(self.vec.as_slice())
    }

    /// Whether the item, read as a big-endian `i32`, is non-zero.
    pub fn to_bool(&self) -> (res: bool)
        requires
            self@.len() == 4,
        ensures
            res == (be_value(self@) != 0),
    {
        self.to_i32() != 0
    }

    /// The item decoded as UTF-8 text.
    pub fn as_string(self) -> (res: Result<String, PacketError>)
        ensures
            res is Ok <==> valid_utf8(self@),
            res matches Ok(s) ==> s@ == decode_utf8(self@),
            res matches Err(e) ==> e == PacketError::NotUtf8,
    {
        match string_from_utf8(self.vec) {
            Some(s) => Ok(s),
            None => Err(PacketError::NotUtf8),
        }
    }
}

/// Text written into an item reads back as the same text.
pub proof fn lemma_string_round_trip(s: Seq<char>)
    ensures
        valid_utf8(encode_utf8(s)),
        decode_utf8(encode_utf8(s)) == s,
{
    vstd::utf8::encode_utf8_valid_utf8(s);
    vstd::utf8::encode_utf8_decode_utf8(s);
}

/// An `i32` written into an item reads back as the same `i32`.
pub proof fn lemma_i32_round_trip(n: i32)
    ensures
        be_bytes(n as int).len() == 4,
        signed_of(be_value(be_bytes(n as int))) == n,
{
    super::utils::lemma_be_value_of_bytes(n as int);
}

} // verus!
