//! Construction of foreign values: cells, and hash tables with their buckets.
use vstd::bytes::*;
use vstd::prelude::*;
use vstd::utf8::encode_utf8;

use crate::memory::{
    is_prefix, lemma_is_prefix_append, lemma_is_prefix_refl, lemma_is_prefix_trans, lemma_load_appended,
    lemma_u32_bytes, lemma_u64_bytes, load_u32, load_u64, load_u8, write_u32,
    write_u64, ARRAY_DATA_OFFSET, ARRAY_USED_OFFSET, BUCKET_HASH_OFFSET, BUCKET_KEY_OFFSET,
    ARRAY_HEADER_SIZE, BUCKET_SIZE, ZVAL_TYPE_OFFSET,
};
use crate::string::{construct_zend_string, decode_string, lemma_decode_string_prefix, string_image};
use crate::value::{
    canonical, canonical_entries, encodable, hole_free, lemma_hole_free_canonical, entries_encodable, entries_within_limits,
    lemma_canonical_idempotent, lemma_entries_encodable, lemma_entries_within_limits, within_limits, entries_view, lemma_array_view, ArrayKey, KeyModel, PhpVal,
    ValModel,
};
use crate::zval::{
    decode_array, decode_bucket, decode_buckets, decode_cell, lemma_decode_cell_prefix, ZVal,
    TAG_ARRAY, TAG_DOUBLE, TAG_FALSE, TAG_LONG, TAG_NULL, TAG_STRING, TAG_TRUE, TAG_UNDEF,
    cell_value, load_zval, type_of, MAX_DEPTH, ZValType,
};

verus! {

/// The type word that the engine stores in a hash table's header.
pub const GC_ARRAY: u32 = 7;

/// Header flag of a table whose hash index is not built yet.
pub const HASH_FLAG_UNINITIALIZED: u32 = 8;

/// The bytes of one bucket.
pub open spec fn bucket_image(z: ZVal, h: u64, key: u64) -> Seq<u8> {
    spec_u64_to_le_bytes(z.value) + spec_u64_to_le_bytes(z.type_tag as u64) + spec_u64_to_le_bytes(
        h,
    ) + spec_u64_to_le_bytes(key)
}

fn write_bucket(m: &mut Vec<u8>, z: ZVal, h: u64, key: u64)
    ensures
        final(m)@ == old(m)@ + bucket_image(z, h, key),
        bucket_image(z, h, key).len() == 32,
{
    proof {
        lemma_u64_bytes(z.value);
        lemma_u64_bytes(z.type_tag as u64);
        lemma_u64_bytes(h);
        lemma_u64_bytes(key);
    }
    write_u64(m, z.value);
    write_u64(m, z.type_tag as u64);
    write_u64(m, h);
    write_u64(m, key);
    assert(final(m)@ =~= old(m)@ + bucket_image(z, h, key));
}

proof fn lemma_bucket_loads(m: Seq<u8>, b: int, z: ZVal, h: u64, key: u64)
    requires
        0 <= b,
        b + 32 <= m.len(),
        m.subrange(b, b + 32) == bucket_image(z, h, key),
    ensures
        load_u64(m, b) == Some(z.value),
        load_u8(m, b + ZVAL_TYPE_OFFSET) == Some(z.type_tag),
        load_u64(m, b + BUCKET_HASH_OFFSET) == Some(h),
        load_u64(m, b + BUCKET_KEY_OFFSET) == Some(key),
{
    let t = z.type_tag as u64;
    lemma_u64_bytes(z.value);
    lemma_u64_bytes(t);
    lemma_u64_bytes(h);
    lemma_u64_bytes(key);
    let img = bucket_image(z, h, key);
    assert(m.subrange(b, b + 8) =~= img.subrange(0, 8));
    assert(img.subrange(0, 8) =~= spec_u64_to_le_bytes(z.value));
    assert(m.subrange(b + 16, b + 24) =~= img.subrange(16, 24));
    assert(img.subrange(16, 24) =~= spec_u64_to_le_bytes(h));
    assert(m.subrange(b + 24, b + 32) =~= img.subrange(24, 32));
    assert(img.subrange(24, 32) =~= spec_u64_to_le_bytes(key));
    assert(m[b + 8] == img[8]);
    spec_u64_to_le_bytes_to_open(t);
    let tag = z.type_tag;
    assert(((tag as u64) & 0xff) as u8 == tag) by (bit_vector);
}

/// The hash state after the bytes `b`, starting from 5381 and taking each
/// byte as `h * 33 + byte`, modulo 2^64.
pub open spec fn djb_state(b: Seq<u8>) -> u64
    decreases b.len(),
{
    if b.len() == 0 {
        5381
    } else {
        ((djb_state(b.drop_last()) as int * 33 + b.last() as int) % 0x1_0000_0000_0000_0000) as u64
    }
}

/// The engine's string hash (DJBX33A) with the top bit set, so that it is
/// never zero.
pub open spec fn djb_hash(b: Seq<u8>) -> u64 {
    djb_state(b) | 0x8000_0000_0000_0000
}

pub fn hash_djbx33a(data: &[u8]) -> (r: u64)
    ensures
        r == djb_hash(data@),
{
    let mut hash: u64 = 5381;
    let mut i: usize = 0;
    while i < data.len()
        invariant
            i <= data@.len(),
            hash == djb_state(data@.subrange(0, i as int)),
        decreases data@.len() - i,
    {
        assert(data@.subrange(0, i + 1).drop_last() =~= data@.subrange(0, i as int));
        hash = hash.wrapping_mul(33).wrapping_add(data[i] as u64);
        i = i + 1;
    }
    assert(data@.subrange(0, data@.len() as int) =~= data@);
    hash | 0x8000_0000_0000_0000
}

/// The slot written for entry `e`, a cell, a hash and a key pointer, reads
/// back as `e`'s key and `e`'s canonical value.
pub open spec fn slot_decodes(
    m: Seq<u8>,
    slot: (ZVal, u64, u64),
    e: (KeyModel, ValModel),
    depth: nat,
) -> bool {
    &&& decode_cell(m, slot.0.type_tag, slot.0.value, depth) == Some(canonical(e.1))
    &&& match e.0 {
        KeyModel::Int(k) => slot.2 == 0 && slot.1 == k,
        KeyModel::Str(s) => slot.2 != 0 && decode_string(m, slot.2) == Some(s) && slot.1
            == djb_hash(encode_utf8(s)),
    }
}

/// The bucket at `b` holds entry `e`: its cell reads back as `e`'s canonical
/// value; an integer key stands in the hash word with a null key pointer; a
/// string key has a key string and the string's hash in the hash word.
pub open spec fn bucket_holds(m: Seq<u8>, b: int, e: (KeyModel, ValModel), depth: nat) -> bool {
    &&& load_zval(m, b) matches Some(z) && decode_cell(m, z.type_tag, z.value, depth) == Some(
        canonical(e.1),
    )
    &&& match e.0 {
        KeyModel::Int(k) => load_u64(m, b + BUCKET_HASH_OFFSET) == Some(k) && load_u64(
            m,
            b + BUCKET_KEY_OFFSET,
        ) == Some(0u64),
        KeyModel::Str(s) => {
            &&& load_u64(m, b + BUCKET_HASH_OFFSET) == Some(djb_hash(encode_utf8(s)))
            &&& load_u64(m, b + BUCKET_KEY_OFFSET) matches Some(kp) && kp != 0 && decode_string(
                m,
                kp,
            ) == Some(s)
        },
    }
}

/// The hash table at `p` holds the entries `s`, one bucket each in order,
/// under the header that `create_zend_array` writes: reference count one,
/// `s.len()` buckets used and elements, `table_size` slots.
pub open spec fn table_holds(m: Seq<u8>, p: u64, s: Seq<(KeyModel, ValModel)>, depth: nat) -> bool {
    &&& load_u64(m, p + ARRAY_DATA_OFFSET) is Some
    &&& p + ARRAY_HEADER_SIZE <= m.len()
    &&& m.subrange(p as int, p + ARRAY_HEADER_SIZE) == array_header_image(
        load_u64(m, p + ARRAY_DATA_OFFSET).unwrap(),
        s.len() as u32,
    )
    &&& forall|i: int|
        0 <= i < s.len() ==> #[trigger] bucket_holds(
            m,
            load_u64(m, p + ARRAY_DATA_OFFSET).unwrap() + BUCKET_SIZE * i,
            s[i],
            depth,
        )
}

/// What the bucket written for entry `e` decodes to.
pub open spec fn expected_bucket(e: (KeyModel, ValModel)) -> Option<Option<(KeyModel, ValModel)>> {
    if e.1 is Undef {
        Some(None)
    } else {
        Some(Some((e.0, canonical(e.1))))
    }
}

proof fn lemma_slot_prefix(
    m: Seq<u8>,
    m2: Seq<u8>,
    slot: (ZVal, u64, u64),
    e: (KeyModel, ValModel),
    depth: nat,
)
    requires
        is_prefix(m, m2),
        slot_decodes(m, slot, e, depth),
    ensures
        slot_decodes(m2, slot, e, depth),
{
    lemma_decode_cell_prefix(m, m2, slot.0.type_tag, slot.0.value, depth);
    if let KeyModel::Str(_) = e.0 {
        lemma_decode_string_prefix(m, m2, slot.2);
    }
}

proof fn lemma_bucket_decodes(
    m: Seq<u8>,
    b: int,
    slot: (ZVal, u64, u64),
    e: (KeyModel, ValModel),
    depth: nat,
)
    requires
        slot_decodes(m, slot, e, depth),
        0 <= b,
        b + 32 <= m.len(),
        m.subrange(b, b + 32) == bucket_image(slot.0, slot.1, slot.2),
    ensures
        decode_bucket(m, b, depth) == expected_bucket(e),
{
    lemma_bucket_loads(m, b, slot.0, slot.1, slot.2);
    assert(canonical(e.1) is Undef <==> e.1 is Undef);
}

proof fn lemma_buckets_decode(m: Seq<u8>, data: u64, s: Seq<(KeyModel, ValModel)>, n: int, depth: nat)
    requires
        0 <= n <= s.len(),
        forall|j: int|
            0 <= j < n ==> #[trigger] decode_bucket(m, data + BUCKET_SIZE * j, depth)
                == expected_bucket(s[j]),
    ensures
        decode_buckets(m, data, n, depth) == Some(canonical_entries(s, n)),
    decreases n,
{
    if n > 0 {
        lemma_buckets_decode(m, data, s, n - 1, depth);
        assert(decode_bucket(m, data + BUCKET_SIZE * (n - 1), depth) == expected_bucket(s[n - 1]));
    }
}

/// The smallest table that the engine allocates holds eight buckets.
pub open spec fn table_size(n: u32) -> u32 {
    if n < 8 {
        8
    } else {
        n
    }
}

/// The bytes of a hash table's header whose `n` buckets start at `data`.
pub open spec fn array_header_image(data: u64, n: u32) -> Seq<u8> {
    spec_u32_to_le_bytes(1) + spec_u32_to_le_bytes(GC_ARRAY) + spec_u32_to_le_bytes(
        HASH_FLAG_UNINITIALIZED,
    ) + spec_u32_to_le_bytes(0xffff_fffe) + spec_u64_to_le_bytes(data) + spec_u32_to_le_bytes(n)
        + spec_u32_to_le_bytes(n) + spec_u32_to_le_bytes(table_size(n)) + spec_u32_to_le_bytes(0)
        + spec_u64_to_le_bytes(0x8000_0000_0000_0000) + spec_u64_to_le_bytes(0)
}

fn write_array_header(m: &mut Vec<u8>, data: u64, n: u32)
    ensures
        final(m)@ == old(m)@ + array_header_image(data, n),
        load_u64(final(m)@, old(m)@.len() + ARRAY_DATA_OFFSET) == Some(data),
        load_u32(final(m)@, old(m)@.len() + ARRAY_USED_OFFSET) == Some(n),
        array_header_image(data, n).len() == ARRAY_HEADER_SIZE,
{
    let size = if n < 8 {
        8
    } else {
        n
    };
    write_u32(m, 1);
    write_u32(m, GC_ARRAY);
    write_u32(m, HASH_FLAG_UNINITIALIZED);
    write_u32(m, 0xffff_fffe);
    write_u64(m, data);
    write_u32(m, n);
    write_u32(m, n);
    write_u32(m, size);
    write_u32(m, 0);
    write_u64(m, 0x8000_0000_0000_0000);
    write_u64(m, 0);
    proof {
        let o = old(m)@;
        lemma_u32_bytes(1);
        lemma_u32_bytes(GC_ARRAY);
        lemma_u32_bytes(HASH_FLAG_UNINITIALIZED);
        lemma_u32_bytes(0xffff_fffe);
        lemma_u64_bytes(data);
        lemma_u32_bytes(n);
        lemma_u32_bytes(size);
        lemma_u32_bytes(0);
        lemma_u64_bytes(0x8000_0000_0000_0000);
        lemma_u64_bytes(0);
        assert(final(m)@ =~= o + array_header_image(data, n));
        let head = o + spec_u32_to_le_bytes(1) + spec_u32_to_le_bytes(GC_ARRAY)
            + spec_u32_to_le_bytes(HASH_FLAG_UNINITIALIZED) + spec_u32_to_le_bytes(0xffff_fffe);
        let tail = spec_u32_to_le_bytes(n) + spec_u32_to_le_bytes(n) + spec_u32_to_le_bytes(size)
            + spec_u32_to_le_bytes(0) + spec_u64_to_le_bytes(0x8000_0000_0000_0000)
            + spec_u64_to_le_bytes(0);
        lemma_load_appended(head, spec_u64_to_le_bytes(data), tail);
        assert(head + spec_u64_to_le_bytes(data) + tail =~= final(m)@);
        let head2 = head + spec_u64_to_le_bytes(data);
        let tail2 = spec_u32_to_le_bytes(n) + spec_u32_to_le_bytes(size) + spec_u32_to_le_bytes(0)
            + spec_u64_to_le_bytes(0x8000_0000_0000_0000) + spec_u64_to_le_bytes(0);
        lemma_load_appended(head2, spec_u32_to_le_bytes(n), tail2);
        assert(head2 + spec_u32_to_le_bytes(n) + tail2 =~= final(m)@);
    }
}

proof fn lemma_subrange_kept(m: Seq<u8>, m2: Seq<u8>, a: int, b: int)
    requires
        is_prefix(m, m2),
        0 <= a <= b <= m.len(),
    ensures
        m2.subrange(a, b) == m.subrange(a, b),
{
    assert(m2.subrange(a, b) =~= m.subrange(a, b)) by {
        assert forall|i: int| 0 <= i < b - a implies #[trigger] m2.subrange(a, b)[i] == m.subrange(
            a,
            b,
        )[i] by {
            assert(m2.subrange(0, m.len() as int)[a + i] == m2[a + i]);
        }
    }
}

/// Appends a new hash table holding `entries` in their order, and returns
/// its address. Each value is written first, then each string key, then the
/// buckets, then the table's header. Integer keys go in the bucket's hash
/// with no key pointer; string keys get a key string and its hash.
pub fn create_zend_array(m: &mut Vec<u8>, entries: &Vec<(ArrayKey, PhpVal)>, depth: u32) -> (p: u64)
    requires
        old(m)@.len() > 0,
        entries@.len() <= u32::MAX,
        forall|i: int|
            0 <= i < entries@.len() ==> encodable(#[trigger] entries@[i].1@) && within_limits(
                entries@[i].1@,
                depth as nat,
            ),
    ensures
        is_prefix(old(m)@, final(m)@),
        p as int >= old(m)@.len() > 0,
        decode_array(final(m)@, p, depth as nat) == Some(
            canonical_entries(entries_view(entries@), entries@.len() as int),
        ),
        table_holds(final(m)@, p, entries_view(entries@), depth as nat),
    decreases depth, 1int,
{
    let ghost m0 = m@;
    let ghost s = entries_view(entries@);
    proof {
        lemma_is_prefix_refl(m0);
    }
    let mut slots: Vec<(ZVal, u64, u64)> = Vec::new();
    let mut i: usize = 0;
    while i < entries.len()
        invariant
            i <= entries@.len(),
            slots@.len() == i,
            m@.len() > 0,
            is_prefix(m0, m@),
            s == entries_view(entries@),
            forall|k: int|
                0 <= k < entries@.len() ==> encodable(#[trigger] entries@[k].1@) && within_limits(
                    entries@[k].1@,
                    depth as nat,
                ),
            forall|j: int|
                0 <= j < i ==> #[trigger] slot_decodes(m@, slots@[j], s[j], depth as nat),
        decreases entries@.len() - i,
    {
        let e = &entries[i];
        let ghost before = m@;
        let z = encode_at(m, &e.1, depth);
        let ghost after_value = m@;
        let (h, kp) = match &e.0 {
            ArrayKey::Int(k) => (*k, 0u64),
            ArrayKey::String(key) => {
                let kp = construct_zend_string(m, key.as_str());
                (hash_djbx33a(key.as_str().as_bytes()), kp)
            },
        };
        proof {
            if let ArrayKey::String(_) = e.0 {
                lemma_is_prefix_append(after_value, m@.subrange(after_value.len() as int, m@.len() as int));
                assert(after_value + m@.subrange(after_value.len() as int, m@.len() as int) =~= m@);
            } else {
                lemma_is_prefix_refl(m@);
            }
            assert(is_prefix(after_value, m@));
            lemma_is_prefix_trans(before, after_value, m@);
            lemma_is_prefix_trans(m0, before, m@);
            lemma_decode_cell_prefix(after_value, m@, z.type_tag, z.value, depth as nat);
            assert(slot_decodes(m@, (z, h, kp), s[i as int], depth as nat));
            assert forall|j: int| 0 <= j < i implies #[trigger] slot_decodes(
                m@,
                slots@[j],
                s[j],
                depth as nat,
            ) by {
                lemma_slot_prefix(before, m@, slots@[j], s[j], depth as nat);
            }
        }
        slots.push((z, h, kp));
        i = i + 1;
    }
    let ghost m1 = m@;
    proof {
        lemma_is_prefix_refl(m1);
    }
    let data = m.len() as u64;
    let mut j: usize = 0;
    while j < slots.len()
        invariant
            j <= slots@.len(),
            slots@.len() == entries@.len(),
            data == m1.len(),
            m@.len() == m1.len() + BUCKET_SIZE * j,
            is_prefix(m1, m@),
            forall|k: int|
                0 <= k < j ==> #[trigger] m@.subrange(
                    data + BUCKET_SIZE * k,
                    data + BUCKET_SIZE * k + 32,
                ) == bucket_image(slots@[k].0, slots@[k].1, slots@[k].2),
        decreases slots@.len() - j,
    {
        let ghost before = m@;
        write_bucket(m, slots[j].0, slots[j].1, slots[j].2);
        proof {
            lemma_is_prefix_append(before, bucket_image(slots@[j as int].0, slots@[j as int].1, slots@[j as int].2));
            lemma_is_prefix_trans(m1, before, m@);
            assert forall|k: int| 0 <= k <= j implies #[trigger] m@.subrange(
                data + BUCKET_SIZE * k,
                data + BUCKET_SIZE * k + 32,
            ) == bucket_image(slots@[k].0, slots@[k].1, slots@[k].2) by {
                if k < j {
                    lemma_subrange_kept(before, m@, data + BUCKET_SIZE * k, data + BUCKET_SIZE * k + 32);
                } else {
                    assert(m@.subrange(data + BUCKET_SIZE * k, data + BUCKET_SIZE * k + 32) =~= bucket_image(slots@[k].0, slots@[k].1, slots@[k].2));
                }
            }
        }
        j = j + 1;
    }
    let ghost m2 = m@;
    let p = m.len() as u64;
    let n = entries.len() as u32;
    write_array_header(m, data, n);
    proof {
        lemma_is_prefix_append(m2, array_header_image(data, n));
        lemma_is_prefix_trans(m1, m2, m@);
        lemma_is_prefix_trans(m0, m1, m@);
        assert forall|k: int| 0 <= k < n implies #[trigger] decode_bucket(
            m@,
            data + BUCKET_SIZE * k,
            depth as nat,
        ) == expected_bucket(s[k]) by {
            assert(slot_decodes(m1, slots@[k], s[k], depth as nat));
            lemma_slot_prefix(m1, m@, slots@[k], s[k], depth as nat);
            assert(m2.subrange(data + BUCKET_SIZE * k, data + BUCKET_SIZE * k + 32)
                == bucket_image(slots@[k].0, slots@[k].1, slots@[k].2));
            lemma_subrange_kept(m2, m@, data + BUCKET_SIZE * k, data + BUCKET_SIZE * k + 32);
            lemma_bucket_decodes(m@, data + BUCKET_SIZE * k, slots@[k], s[k], depth as nat);
        }
        lemma_buckets_decode(m@, data, s, n as int, depth as nat);
        assert(m@.subrange(p as int, p + ARRAY_HEADER_SIZE) =~= array_header_image(data, n));
        assert forall|k: int| 0 <= k < n implies #[trigger] bucket_holds(
            m@,
            data + BUCKET_SIZE * k,
            s[k],
            depth as nat,
        ) by {
            assert(slot_decodes(m1, slots@[k], s[k], depth as nat));
            lemma_slot_prefix(m1, m@, slots@[k], s[k], depth as nat);
            assert(m2.subrange(data + BUCKET_SIZE * k, data + BUCKET_SIZE * k + 32)
                == bucket_image(slots@[k].0, slots@[k].1, slots@[k].2));
            lemma_subrange_kept(m2, m@, data + BUCKET_SIZE * k, data + BUCKET_SIZE * k + 32);
            lemma_bucket_loads(m@, data + BUCKET_SIZE * k, slots@[k].0, slots@[k].1, slots@[k].2);
        }
    }
    p
}

/// `z` is the cell written for `v`, and `m2` is `m` with what `z` points to
/// appended: the tag is `v`'s type, the cell reads back as `v` with holes
/// dropped, an integer or float is the payload itself, a string is a new
/// foreign string at the old end of memory, an array a new hash table.
pub open spec fn encoded(m: Seq<u8>, m2: Seq<u8>, v: ValModel, z: ZVal, depth: nat) -> bool {
    &&& is_prefix(m, m2)
    &&& z.type_tag == type_of(v).spec_tag()
    &&& decode_cell(m2, z.type_tag, z.value, depth) == Some(canonical(v))
    &&& match v {
        ValModel::Long(n) => z.value == n as u64 && m2 == m,
        ValModel::Double(d) => z.value == d && m2 == m,
        ValModel::Str(s) => z.value == m.len() && m2 == m + string_image(s),
        ValModel::Array(es) => z.value >= m.len() && table_holds(
            m2,
            z.value,
            es,
            (depth - 1) as nat,
        ),
        _ => z.value == 0 && m2 == m,
    }
}

/// Appends what `v` needs in foreign memory and returns its cell.
fn encode_at(m: &mut Vec<u8>, v: &PhpVal, depth: u32) -> (z: ZVal)
    requires
        old(m)@.len() > 0,
        encodable(v@),
        within_limits(v@, depth as nat),
    ensures
        final(m)@.len() > 0,
        encoded(old(m)@, final(m)@, v@, z, depth as nat),
    decreases depth, 0int,
{
    proof {
        lemma_is_prefix_append(m@, Seq::empty());
        assert(m@ + Seq::<u8>::empty() =~= m@);
    }
    match v {
        PhpVal::Undef => ZVal { value: 0, type_tag: TAG_UNDEF },
        PhpVal::Null => ZVal { value: 0, type_tag: TAG_NULL },
        PhpVal::Bool(b) => if *b {
            ZVal { value: 0, type_tag: TAG_TRUE }
        } else {
            ZVal { value: 0, type_tag: TAG_FALSE }
        },
        PhpVal::Long(n) => {
            let n = *n;
            assert(((n as u64) as i64) == n) by (bit_vector);
            ZVal { value: #[verifier::truncate] (n as u64), type_tag: TAG_LONG }
        },
        PhpVal::Double(d) => ZVal { value: *d, type_tag: TAG_DOUBLE },
        PhpVal::String(s) => {
            let ghost before = m@;
            let p = construct_zend_string(m, s.as_str());
            proof {
                lemma_is_prefix_append(before, m@.subrange(before.len() as int, m@.len() as int));
                assert(before + m@.subrange(before.len() as int, m@.len() as int) =~= m@);
            }
            ZVal { value: p, type_tag: TAG_STRING }
        },
        PhpVal::Array(es) => {
            proof {
                lemma_array_view(*es);
                let s = entries_view(es@);
                assert(v@ == ValModel::Array(s));
                assert forall|i: int| 0 <= i < es@.len() implies encodable(#[trigger] es@[i].1@)
                    && within_limits(es@[i].1@, (depth - 1) as nat) by {
                    assert(s[i].1 == es@[i].1@);
                    lemma_entries_encodable(s, s.len() as int, i);
                    lemma_entries_within_limits(s, s.len() as int, (depth - 1) as nat, i);
                }
            }
            let p = create_zend_array(m, es, depth - 1);
            ZVal { value: p, type_tag: TAG_ARRAY }
        },
        // Not reached: `encodable` rules these out.
        PhpVal::Object(_) => ZVal { value: 0, type_tag: TAG_UNDEF },
        PhpVal::Resource(_) => ZVal { value: 0, type_tag: TAG_UNDEF },
        PhpVal::Reference() => ZVal { value: 0, type_tag: TAG_UNDEF },
    }
}

/// Why a value could not be encoded.
#[derive(Debug, Clone, Copy, PartialEq, Eq, Structural)]
pub enum EncodeError {
    /// The value holds an object, a resource or a reference, which have no
    /// foreign representation; `actual` is the type of the value as a whole.
    Unsupported { actual: ZValType },
    /// The value nests arrays more than `MAX_DEPTH` deep, or holds an array of
    /// more than `u32::MAX` entries.
    TooLarge,
}

/// Whether the arrays in `v` nest at most `depth` deep, each with at most
/// `u32::MAX` entries.
pub fn check_within_limits(v: &PhpVal, depth: u32) -> (r: bool)
    ensures
        r == within_limits(v@, depth as nat),
    decreases depth,
{
    match v {
        PhpVal::Array(es) => {
            proof {
                lemma_array_view(*es);
            }
            if depth == 0 || es.len() > 0xffff_ffff {
                return false;
            }
            let ghost s = entries_view(es@);
            let mut i: usize = 0;
            while i < es.len()
                invariant
                    i <= es@.len(),
                    s == entries_view(es@),
                    v@ == ValModel::Array(s),
                    depth > 0,
                    entries_within_limits(s, i as int, (depth - 1) as nat),
                decreases es@.len() - i,
            {
                assert(s[i as int].1 == es@[i as int].1@);
                if !check_within_limits(&es[i].1, depth - 1) {
                    proof {
                        assert(!entries_within_limits(s, i + 1, (depth - 1) as nat));
                        lemma_entries_within_limits_none(s, i + 1, s.len() as int, (depth - 1) as nat);
                    }
                    return false;
                }
                i = i + 1;
            }
            true
        },
        _ => true,
    }
}

proof fn lemma_entries_within_limits_none(s: Seq<(KeyModel, ValModel)>, n: int, n2: int, depth: nat)
    requires
        0 < n <= n2 <= s.len(),
        !entries_within_limits(s, n, depth),
    ensures
        !entries_within_limits(s, n2, depth),
    decreases n2 - n,
{
    if n2 > n {
        lemma_entries_within_limits_none(s, n, n2 - 1, depth);
    }
}

/// Whether `v` can be encoded: no object, resource or reference occurs in it.
pub fn check_encodable(v: &PhpVal, depth: u32) -> (r: bool)
    requires
        within_limits(v@, depth as nat),
    ensures
        r == encodable(v@),
    decreases depth,
{
    match v {
        PhpVal::Object(_) => false,
        PhpVal::Resource(_) => false,
        PhpVal::Reference() => false,
        PhpVal::Array(es) => {
            proof {
                lemma_array_view(*es);
            }
            let ghost s = entries_view(es@);
            let mut i: usize = 0;
            while i < es.len()
                invariant
                    i <= es@.len(),
                    s == entries_view(es@),
                    v@ == ValModel::Array(s),
                    depth > 0,
                    entries_within_limits(s, s.len() as int, (depth - 1) as nat),
                    entries_encodable(s, i as int),
                decreases es@.len() - i,
            {
                proof {
                    lemma_entries_within_limits(s, s.len() as int, (depth - 1) as nat, i as int);
                }
                if !check_encodable(&es[i].1, depth - 1) {
                    proof {
                        assert(s[i as int].1 == es@[i as int].1@);
                        assert(!entries_encodable(s, i + 1));
                        lemma_entries_encodable_none(s, i + 1, s.len() as int);
                        assert(v@ == ValModel::Array(s));
                    }
                    return false;
                }
                assert(s[i as int].1 == es@[i as int].1@);
                i = i + 1;
            }
            assert(v@ == ValModel::Array(s));
            true
        },
        _ => true,
    }
}

proof fn lemma_entries_encodable_none(s: Seq<(KeyModel, ValModel)>, n: int, n2: int)
    requires
        0 < n <= n2 <= s.len(),
        !entries_encodable(s, n),
    ensures
        !entries_encodable(s, n2),
    decreases n2 - n,
{
    if n2 > n {
        lemma_entries_encodable_none(s, n, n2 - 1);
    }
}

/// Reserved bytes at the start of foreign memory, so that no object ever
/// stands at the null address.
pub const NULL_RESERVED: u64 = 8;

/// A fresh foreign memory: only the reserved bytes at the null address.
pub fn new_memory() -> (m: Vec<u8>)
    ensures
        m@ == spec_u64_to_le_bytes(0),
        m@.len() == NULL_RESERVED,
{
    let mut m: Vec<u8> = Vec::new();
    write_u64(&mut m, 0);
    proof {
        lemma_u64_bytes(0);
    }
    m
}

impl ZVal {
    /// The cell for `v`, with what it points to (strings, hash tables)
    /// appended to `m`, which then owns them. Holes (`Undef` entries) are
    /// written as such and so read back as absent. A value with no foreign
    /// representation is not accepted (see `try_from_php_val`), nor one whose
    /// arrays nest more than `MAX_DEPTH` deep: the decoder, which recurses
    /// once per level, follows no deeper, so as to bound its stack.
    pub fn from_php_val(m: &mut Vec<u8>, v: &PhpVal) -> (z: ZVal)
        requires
            old(m)@.len() > 0,
            encodable(v@),
            within_limits(v@, MAX_DEPTH as nat),
        ensures
            encoded(old(m)@, final(m)@, v@, z, MAX_DEPTH as nat),
    {
        encode_at(m, v, MAX_DEPTH)
    }

    /// As `from_php_val`, for any value: one whose arrays nest more than
    /// `MAX_DEPTH` deep (the decoder's stack limit) or that holds something
    /// with no foreign representation is refused before anything is written.
    pub fn try_from_php_val(m: &mut Vec<u8>, v: &PhpVal) -> (r: Result<ZVal, EncodeError>)
        requires
            old(m)@.len() > 0,
        ensures
            match r {
                Ok(z) => {
                    &&& within_limits(v@, MAX_DEPTH as nat)
                    &&& encodable(v@)
                    &&& encoded(old(m)@, final(m)@, v@, z, MAX_DEPTH as nat)
                },
                Err(EncodeError::TooLarge) => !within_limits(v@, MAX_DEPTH as nat) && final(m)@
                    == old(m)@,
                Err(EncodeError::Unsupported { actual }) => {
                    &&& within_limits(v@, MAX_DEPTH as nat)
                    &&& !encodable(v@)
                    &&& actual == type_of(v@)
                    &&& final(m)@ == old(m)@
                },
            },
    {
        if !check_within_limits(v, MAX_DEPTH) {
            return Err(EncodeError::TooLarge);
        }
        if !check_encodable(v, MAX_DEPTH) {
            return Err(EncodeError::Unsupported { actual: v.get_type() });
        }
        Ok(encode_at(m, v, MAX_DEPTH))
    }
}

/// Round trip: an integer, a float, a boolean or a string that
/// `ZVal::from_php_val` wrote (its contract gives the first `requires`)
/// reads back as itself through `ZVal::as_php_val`; written and read back a
/// second time, it is still the same.
pub proof fn lemma_round_trip(v: ValModel, m: Seq<u8>, z: ZVal, m2: Seq<u8>, z2: ZVal)
    requires
        v is Long || v is Double || v is Bool || v is Str,
        decode_cell(m, z.type_tag, z.value, MAX_DEPTH as nat) == Some(canonical(v)),
        decode_cell(m2, z2.type_tag, z2.value, MAX_DEPTH as nat) == Some(
            canonical(cell_value(m, z.type_tag, z.value)),
        ),
    ensures
        encodable(v),
        within_limits(v, MAX_DEPTH as nat),
        cell_value(m, z.type_tag, z.value) == v,
        cell_value(m2, z2.type_tag, z2.value) == v,
{
}

/// Any encodable value: what reads back after one trip through foreign
/// memory reads back unchanged after a second trip.
pub proof fn lemma_second_round_trip(v: ValModel, m: Seq<u8>, z: ZVal, m2: Seq<u8>, z2: ZVal)
    requires
        decode_cell(m, z.type_tag, z.value, MAX_DEPTH as nat) == Some(canonical(v)),
        decode_cell(m2, z2.type_tag, z2.value, MAX_DEPTH as nat) == Some(
            canonical(cell_value(m, z.type_tag, z.value)),
        ),
    ensures
        cell_value(m2, z2.type_tag, z2.value) == cell_value(m, z.type_tag, z.value),
{
    lemma_canonical_idempotent(v);
}

/// A value whose lists hold no holes, written by `ZVal::from_php_val` (its
/// contract gives the second `requires`), reads back exactly: each list with
/// the same keys, sparse or mixed, in the order written.
pub proof fn lemma_list_round_trip(v: ValModel, m: Seq<u8>, z: ZVal)
    requires
        hole_free(v),
        decode_cell(m, z.type_tag, z.value, MAX_DEPTH as nat) == Some(canonical(v)),
    ensures
        cell_value(m, z.type_tag, z.value) == v,
{
    lemma_hole_free_canonical(v);
}

} // verus!
