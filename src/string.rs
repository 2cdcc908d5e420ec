//! Foreign strings: a reference-counted header followed by the bytes.
use vstd::bytes::*;
use vstd::prelude::*;
use vstd::utf8::*;

use crate::memory::{
    is_prefix, lemma_load_appended, lemma_load_bytes_prefix, lemma_u32_bytes, lemma_u64_bytes,
    load_bytes, load_u64, read_bytes, read_u64, write_bytes, write_u32, write_u64,
    STRING_HEADER_SIZE, STRING_LEN_OFFSET,
};

verus! {

broadcast use encode_utf8_decode_utf8;

/// The type word that the engine stores in a string's header.
pub const GC_STRING: u32 = 6;

/// The bytes of the foreign string at `p`, if its header and body are readable.
pub open spec fn string_bytes(m: Seq<u8>, p: u64) -> Option<Seq<u8>> {
    match load_u64(m, p + STRING_LEN_OFFSET) {
        Some(len) => load_bytes(m, p + STRING_HEADER_SIZE, len as int),
        None => None,
    }
}

/// The text of the foreign string at `p`; `None` where it cannot be read
/// or is not UTF-8.
pub open spec fn decode_string(m: Seq<u8>, p: u64) -> Option<Seq<char>> {
    match string_bytes(m, p) {
        Some(b) => if valid_utf8(b) {
            Some(decode_utf8(b))
        } else {
            None
        },
        None => None,
    }
}

/// The bytes that `construct_zend_string` writes for `s`.
pub open spec fn string_image(s: Seq<char>) -> Seq<u8> {
    spec_u32_to_le_bytes(1) + spec_u32_to_le_bytes(GC_STRING) + spec_u64_to_le_bytes(0)
        + spec_u64_to_le_bytes(encode_utf8(s).len() as u64) + encode_utf8(s)
}

pub proof fn lemma_decode_string_prefix(m: Seq<u8>, m2: Seq<u8>, p: u64)
    requires
        is_prefix(m, m2),
        decode_string(m, p) is Some,
    ensures
        decode_string(m2, p) == decode_string(m, p),
{
    lemma_load_bytes_prefix(m, m2, p + STRING_LEN_OFFSET, 8);
    let len = load_u64(m, p + STRING_LEN_OFFSET).unwrap();
    lemma_load_bytes_prefix(m, m2, p + STRING_HEADER_SIZE, len as int);
}

/// Relies on `String::from_utf8`: it succeeds exactly on valid UTF-8, and the
/// string it returns holds those bytes.
#[verifier::external_body]
fn string_from_utf8(b: Vec<u8>) -> (r: Option<String>)
    ensures
        match r {
            Some(s) => valid_utf8(b@) && encode_utf8(s@) == b@,
            None => !valid_utf8(b@),
        },
{
    String::from_utf8(b).ok()
}

/// Reads the foreign string at `p` into an owned string.
pub fn parse_zend_string(m: &Vec<u8>, p: u64) -> (r: Option<String>)
    ensures
        match r {
            Some(s) => decode_string(m@, p) == Some(s@),
            None => decode_string(m@, p) is None,
        },
{
    assert(m@.len() == m.len() <= u64::MAX);
    let len_at = match p.checked_add(STRING_LEN_OFFSET) {
        Some(a) => a,
        None => return None,
    };
    let len = match read_u64(m, len_at) {
        Some(n) => n,
        None => return None,
    };
    let body_at = match p.checked_add(STRING_HEADER_SIZE) {
        Some(a) => a,
        None => return None,
    };
    let bytes = match read_bytes(m, body_at, len) {
        Some(b) => b,
        None => return None,
    };
    string_from_utf8(bytes)
}

/// Appends a new foreign string holding `s`, with its reference count set to
/// one, and returns its address.
pub fn construct_zend_string(m: &mut Vec<u8>, s: &str) -> (p: u64)
    ensures
        p as int == old(m)@.len(),
        final(m)@ == old(m)@ + string_image(s@),
        decode_string(final(m)@, p) == Some(s@),
{
    let p = m.len() as u64;
    let bytes = s.as_bytes();
    let len = bytes.len() as u64;
    write_u32(m, 1);
    write_u32(m, GC_STRING);
    write_u64(m, 0);
    write_u64(m, len);
    write_bytes(m, bytes);
    proof {
        let old_m = old(m)@;
        let e = encode_utf8(s@);
        lemma_u32_bytes(1);
        lemma_u32_bytes(GC_STRING);
        lemma_u64_bytes(0);
        lemma_u64_bytes(len);
        assert(final(m)@ =~= old_m + string_image(s@));
        let head = old_m + spec_u32_to_le_bytes(1) + spec_u32_to_le_bytes(GC_STRING)
            + spec_u64_to_le_bytes(0);
        lemma_load_appended(head, spec_u64_to_le_bytes(len), e);
        assert(head + spec_u64_to_le_bytes(len) + e =~= final(m)@);
        lemma_load_appended(head + spec_u64_to_le_bytes(len), e, Seq::empty());
        assert(head + spec_u64_to_le_bytes(len) + e + Seq::empty() =~= final(m)@);
        encode_utf8_valid_utf8(s@);
    }
    p
}

} // verus!
