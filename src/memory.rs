//! Bounds-checked access to foreign memory held as a byte buffer.
//!
//! Addresses are byte offsets into the buffer; address 0 is the null
//! pointer. Integers are stored little-endian.
use vstd::bytes::*;
use vstd::prelude::*;
use vstd::slice::*;

verus! {

/// Size of a tagged cell: an 8-byte payload and 8 bytes of type information.
pub const ZVAL_SIZE: u64 = 16;

/// Offset of the one-byte type tag inside a tagged cell.
pub const ZVAL_TYPE_OFFSET: u64 = 8;

/// Offset of the byte length inside a foreign string.
pub const STRING_LEN_OFFSET: u64 = 16;

/// Size of a foreign string's header (reference count, type, hash, length).
pub const STRING_HEADER_SIZE: u64 = 24;

/// Offset of the bucket pointer inside a foreign hash table.
pub const ARRAY_DATA_OFFSET: u64 = 16;

/// Offset of the used-bucket count inside a foreign hash table.
pub const ARRAY_USED_OFFSET: u64 = 24;

/// Size of a foreign hash table's header.
pub const ARRAY_HEADER_SIZE: u64 = 56;

/// Size of one bucket: a tagged cell, a hash and a key pointer.
pub const BUCKET_SIZE: u64 = 32;

/// Offset of the hash inside a bucket.
pub const BUCKET_HASH_OFFSET: u64 = 16;

/// Offset of the key pointer inside a bucket.
pub const BUCKET_KEY_OFFSET: u64 = 24;

/// The `n` bytes at `at`, if they all lie inside `m`.
pub open spec fn load_bytes(m: Seq<u8>, at: int, n: int) -> Option<Seq<u8>> {
    if 0 <= at && 0 <= n && at + n <= m.len() {
        Some(m.subrange(at, at + n))
    } else {
        None
    }
}

pub open spec fn load_u8(m: Seq<u8>, at: int) -> Option<u8> {
    if 0 <= at < m.len() {
        Some(m[at])
    } else {
        None
    }
}

pub open spec fn load_u32(m: Seq<u8>, at: int) -> Option<u32> {
    match load_bytes(m, at, 4) {
        Some(b) => Some(spec_u32_from_le_bytes(b)),
        None => None,
    }
}

pub open spec fn load_u64(m: Seq<u8>, at: int) -> Option<u64> {
    match load_bytes(m, at, 8) {
        Some(b) => Some(spec_u64_from_le_bytes(b)),
        None => None,
    }
}

/// `m` is `m2` cut short: what could be read from `m` reads the same in `m2`.
pub open spec fn is_prefix(m: Seq<u8>, m2: Seq<u8>) -> bool {
    m.len() <= m2.len() && m2.subrange(0, m.len() as int) == m
}

pub proof fn lemma_load_bytes_prefix(m: Seq<u8>, m2: Seq<u8>, at: int, n: int)
    requires
        is_prefix(m, m2),
        load_bytes(m, at, n) is Some,
    ensures
        load_bytes(m2, at, n) == load_bytes(m, at, n),
{
    assert(m2.subrange(at, at + n) =~= m.subrange(at, at + n)) by {
        assert forall|i: int| 0 <= i < n implies #[trigger] m2.subrange(at, at + n)[i]
            == m.subrange(at, at + n)[i] by {
            assert(m2.subrange(0, m.len() as int)[at + i] == m2[at + i]);
        }
    }
}

pub proof fn lemma_is_prefix_trans(a: Seq<u8>, b: Seq<u8>, c: Seq<u8>)
    requires
        is_prefix(a, b),
        is_prefix(b, c),
    ensures
        is_prefix(a, c),
{
    assert(c.subrange(0, a.len() as int) =~= a) by {
        assert forall|i: int| 0 <= i < a.len() implies #[trigger] c.subrange(0, a.len() as int)[i] == a[i] by {
            assert(c.subrange(0, b.len() as int)[i] == c[i]);
            assert(b.subrange(0, a.len() as int)[i] == b[i]);
        }
    }
}

pub proof fn lemma_is_prefix_refl(a: Seq<u8>)
    ensures
        is_prefix(a, a),
{
    assert(a.subrange(0, a.len() as int) =~= a);
}

pub proof fn lemma_is_prefix_append(a: Seq<u8>, b: Seq<u8>)
    ensures
        is_prefix(a, a + b),
{
    assert((a + b).subrange(0, a.len() as int) =~= a);
}

pub proof fn lemma_load_appended(a: Seq<u8>, b: Seq<u8>, c: Seq<u8>)
    ensures
        load_bytes(a + b + c, a.len() as int, b.len() as int) == Some(b),
{
    assert((a + b + c).subrange(a.len() as int, (a.len() + b.len()) as int) =~= b);
}

pub proof fn lemma_u64_bytes(x: u64)
    ensures
        spec_u64_to_le_bytes(x).len() == 8,
        spec_u64_from_le_bytes(spec_u64_to_le_bytes(x)) == x,
{
    lemma_auto_spec_u64_to_from_le_bytes();
}

pub proof fn lemma_u32_bytes(x: u32)
    ensures
        spec_u32_to_le_bytes(x).len() == 4,
        spec_u32_from_le_bytes(spec_u32_to_le_bytes(x)) == x,
{
    lemma_auto_spec_u32_to_from_le_bytes();
    assert(spec_u32_to_le_bytes(x).len() == 4);
}

/// Whether `n` bytes at `at` lie inside a buffer of `len` bytes; the same
/// test as `load_bytes`, made without overflow.
fn in_bounds(len: usize, at: u64, n: u64) -> (r: bool)
    ensures
        r == (at as int + n as int <= len as int),
{
    let len = len as u64;
    at <= len && len - at >= n
}

pub fn read_bytes(m: &Vec<u8>, at: u64, n: u64) -> (r: Option<Vec<u8>>)
    ensures
        match r {
            Some(v) => load_bytes(m@, at as int, n as int) == Some(v@),
            None => load_bytes(m@, at as int, n as int) is None,
        },
{
    if in_bounds(m.len(), at, n) {
        let s = slice_subrange(m.as_slice(), at as usize, (at + n) as usize);
        Some(slice_to_vec(s))
    } else {
        None
    }
}

pub fn read_u8(m: &Vec<u8>, at: u64) -> (r: Option<u8>)
    ensures
        r == load_u8(m@, at as int),
{
    if in_bounds(m.len(), at, 1) {
        Some(m[at as usize])
    } else {
        None
    }
}

pub fn read_u32(m: &Vec<u8>, at: u64) -> (r: Option<u32>)
    ensures
        r == load_u32(m@, at as int),
{
    if in_bounds(m.len(), at, 4) {
        let s = slice_subrange(m.as_slice(), at as usize, (at + 4) as usize);
        Some(u32_from_le_bytes(s))
    } else {
        None
    }
}

pub fn read_u64(m: &Vec<u8>, at: u64) -> (r: Option<u64>)
    ensures
        r == load_u64(m@, at as int),
{
    if in_bounds(m.len(), at, 8) {
        let s = slice_subrange(m.as_slice(), at as usize, (at + 8) as usize);
        Some(u64_from_le_bytes(s))
    } else {
        None
    }
}

pub fn write_u32(m: &mut Vec<u8>, x: u32)
    ensures
        final(m)@ == old(m)@ + spec_u32_to_le_bytes(x),
{
    let mut b = u32_to_le_bytes(x);
    m.append(&mut b);
}

pub fn write_u64(m: &mut Vec<u8>, x: u64)
    ensures
        final(m)@ == old(m)@ + spec_u64_to_le_bytes(x),
{
    let mut b = u64_to_le_bytes(x);
    m.append(&mut b);
}

pub fn write_bytes(m: &mut Vec<u8>, b: &[u8])
    ensures
        final(m)@ == old(m)@ + b@,
{
    let mut v = slice_to_vec(b);
    m.append(&mut v);
}

} // verus!
