//! The owned value model: dynamic values and array keys, their mathematical
//! models, and the order of keys.
use std::collections::HashMap;
use vstd::prelude::*;
use vstd::utf8::encode_utf8;

verus! {

/// Mathematical model of an array key.
pub enum KeyModel {
    Str(Seq<char>),
    Int(u64),
}

/// Mathematical model of a dynamic value.
pub enum ValModel {
    Undef,
    Null,
    Bool(bool),
    Long(i64),
    Double(u64),
    Str(Seq<char>),
    Array(Seq<(KeyModel, ValModel)>),
    /// An object, modelled by its field names: the marshalling never looks
    /// inside one.
    Object(Set<Seq<char>>),
    Resource(u64),
    Reference,
}

/// A key of an engine array: a string or a non-negative integer. Keys order
/// strings before integers.
#[derive(Debug, Clone, PartialEq, Eq, PartialOrd, Ord, Hash)]
pub enum ArrayKey {
    String(String),
    Int(u64),
}

/// A value of the scripting engine, owned on the native side.
#[derive(Debug, PartialEq)]
pub enum PhpVal {
    Undef,
    Null,
    Bool(bool),
    Long(i64),
    /// A 64-bit float, held as its IEEE-754 bit pattern.
    Double(u64),
    String(String),
    Array(Vec<(ArrayKey, PhpVal)>),
    Object(HashMap<String, PhpVal>),
    Resource(u64),
    Reference(),
}

impl View for ArrayKey {
    type V = KeyModel;

    open spec fn view(&self) -> KeyModel {
        match self {
            ArrayKey::String(s) => KeyModel::Str(s@),
            ArrayKey::Int(n) => KeyModel::Int(*n),
        }
    }
}

/// The model of a value: strings as their characters, arrays as sequences of
/// modelled entries.
pub open spec fn value_view(v: PhpVal) -> ValModel
    decreases v,
{
    match v {
        PhpVal::Undef => ValModel::Undef,
        PhpVal::Null => ValModel::Null,
        PhpVal::Bool(b) => ValModel::Bool(b),
        PhpVal::Long(n) => ValModel::Long(n),
        PhpVal::Double(d) => ValModel::Double(d),
        PhpVal::String(s) => ValModel::Str(s@),
        PhpVal::Array(entries) => ValModel::Array(
            Seq::new(
                entries@.len(),
                |i: int|
                    if 0 <= i < entries@.len() {
                        (entries@[i].0@, value_view(entries@[i].1))
                    } else {
                        (KeyModel::Int(0), ValModel::Undef)
                    },
            ),
        ),
        PhpVal::Object(fields) => ValModel::Object(fields@.dom().map(|k: String| k@)),
        PhpVal::Resource(h) => ValModel::Resource(h),
        PhpVal::Reference() => ValModel::Reference,
    }
}

impl View for PhpVal {
    type V = ValModel;

    open spec fn view(&self) -> ValModel {
        value_view(*self)
    }
}

/// The model of a list of array entries.
pub open spec fn entries_view(s: Seq<(ArrayKey, PhpVal)>) -> Seq<(KeyModel, ValModel)> {
    Seq::new(s.len(), |i: int| (s[i].0@, s[i].1@))
}

pub proof fn lemma_array_view(v: Vec<(ArrayKey, PhpVal)>)
    ensures
        PhpVal::Array(v)@ == ValModel::Array(entries_view(v@)),
{
    let a = PhpVal::Array(v);
    assert(value_view(a) is Array);
    assert(value_view(a)->Array_0 =~= entries_view(v@));
}

pub proof fn lemma_entries_view_push(s: Seq<(ArrayKey, PhpVal)>, e: (ArrayKey, PhpVal))
    ensures
        entries_view(s.push(e)) == entries_view(s).push((e.0@, e.1@)),
{
    assert(entries_view(s.push(e)) =~= entries_view(s).push((e.0@, e.1@)));
}

/// `v` as it reads back from foreign memory: array entries whose value is
/// `Undef` are holes and are gone, at every level.
pub open spec fn canonical(v: ValModel) -> ValModel
    decreases v, 0int,
{
    match v {
        ValModel::Array(s) => ValModel::Array(canonical_entries(s, s.len() as int)),
        _ => v,
    }
}

/// The first `n` entries of `s` with holes dropped and values made canonical.
pub open spec fn canonical_entries(s: Seq<(KeyModel, ValModel)>, n: int) -> Seq<
    (KeyModel, ValModel),
>
    decreases s, n,
{
    if n <= 0 || n > s.len() {
        Seq::empty()
    } else {
        let prev = canonical_entries(s, n - 1);
        if s[n - 1].1 is Undef {
            prev
        } else {
            prev.push((s[n - 1].0, canonical(s[n - 1].1)))
        }
    }
}

/// Whether `v` has a foreign representation: no object, resource or
/// reference occurs in it.
pub open spec fn encodable(v: ValModel) -> bool
    decreases v, 0int,
{
    match v {
        ValModel::Object(_) => false,
        ValModel::Resource(_) => false,
        ValModel::Reference => false,
        ValModel::Array(s) => entries_encodable(s, s.len() as int),
        _ => true,
    }
}

/// Whether the values of the first `n` entries of `s` are encodable.
pub open spec fn entries_encodable(s: Seq<(KeyModel, ValModel)>, n: int) -> bool
    decreases s, n,
{
    if n <= 0 || n > s.len() {
        true
    } else {
        entries_encodable(s, n - 1) && encodable(s[n - 1].1)
    }
}

/// Whether the arrays in `v` nest at most `depth` deep and each has at
/// most `u32::MAX` entries, the most that a foreign hash table counts.
pub open spec fn within_limits(v: ValModel, depth: nat) -> bool
    decreases depth, 0int, 0int,
{
    match v {
        ValModel::Array(s) => depth > 0 && s.len() <= u32::MAX && entries_within_limits(
            s,
            s.len() as int,
            (depth - 1) as nat,
        ),
        _ => true,
    }
}

/// Whether the values of the first `n` entries of `s` are within limits at `depth`.
pub open spec fn entries_within_limits(s: Seq<(KeyModel, ValModel)>, n: int, depth: nat) -> bool
    decreases depth, 1int, n,
{
    if n <= 0 || n > s.len() {
        true
    } else {
        entries_within_limits(s, n - 1, depth) && within_limits(s[n - 1].1, depth)
    }
}

pub proof fn lemma_entries_encodable(s: Seq<(KeyModel, ValModel)>, n: int, i: int)
    requires
        entries_encodable(s, n),
        0 <= i < n <= s.len(),
    ensures
        encodable(s[i].1),
    decreases n,
{
    if i < n - 1 {
        lemma_entries_encodable(s, n - 1, i);
    }
}

pub proof fn lemma_entries_within_limits(s: Seq<(KeyModel, ValModel)>, n: int, depth: nat, i: int)
    requires
        entries_within_limits(s, n, depth),
        0 <= i < n <= s.len(),
    ensures
        within_limits(s[i].1, depth),
    decreases n,
{
    if i < n - 1 {
        lemma_entries_within_limits(s, n - 1, depth, i);
    }
}

proof fn lemma_canonical_entries_prefix(
    s: Seq<(KeyModel, ValModel)>,
    e: (KeyModel, ValModel),
    n: int,
)
    requires
        n <= s.len(),
    ensures
        canonical_entries(s.push(e), n) == canonical_entries(s, n),
    decreases n,
{
    if n > 0 {
        lemma_canonical_entries_prefix(s, e, n - 1);
        assert(s.push(e)[n - 1] == s[n - 1]);
    }
}

/// A value that has been through foreign memory once comes back the same
/// from a second trip: canonical values are their own canonical form.
pub proof fn lemma_canonical_idempotent(v: ValModel)
    ensures
        canonical(canonical(v)) == canonical(v),
    decreases v, 1int,
{
    if let ValModel::Array(s) = v {
        lemma_canonical_entries_idempotent(s, s.len() as int);
    }
}

proof fn lemma_canonical_entries_idempotent(s: Seq<(KeyModel, ValModel)>, n: int)
    requires
        0 <= n <= s.len(),
    ensures
        ({
            let c = canonical_entries(s, n);
            canonical_entries(c, c.len() as int) == c
        }),
    decreases s, n,
{
    if n > 0 {
        lemma_canonical_entries_idempotent(s, n - 1);
        let prev = canonical_entries(s, n - 1);
        let e = s[n - 1];
        if !(e.1 is Undef) {
            let c = prev.push((e.0, canonical(e.1)));
            lemma_canonical_idempotent(e.1);
            lemma_canonical_entries_prefix(prev, (e.0, canonical(e.1)), prev.len() as int);
            assert(c[c.len() - 1] == (e.0, canonical(e.1)));
            assert(!(canonical(e.1) is Undef));
        }
    }
}

/// Byte strings in lexicographic order.
pub open spec fn bytes_lt(a: Seq<u8>, b: Seq<u8>) -> bool
    decreases a.len(),
{
    if a.len() == 0 {
        b.len() > 0
    } else if b.len() == 0 {
        false
    } else if a[0] != b[0] {
        a[0] < b[0]
    } else {
        bytes_lt(a.drop_first(), b.drop_first())
    }
}

/// The order of keys: every string key before every integer key, strings
/// by their UTF-8 bytes, integers by value.
pub open spec fn key_lt(a: KeyModel, b: KeyModel) -> bool {
    match (a, b) {
        (KeyModel::Str(x), KeyModel::Str(y)) => bytes_lt(encode_utf8(x), encode_utf8(y)),
        (KeyModel::Str(_), KeyModel::Int(_)) => true,
        (KeyModel::Int(_), KeyModel::Str(_)) => false,
        (KeyModel::Int(x), KeyModel::Int(y)) => x < y,
    }
}

/// Entries whose keys never decrease.
pub open spec fn keys_sorted(s: Seq<(KeyModel, ValModel)>) -> bool {
    forall|i: int| 0 <= i < s.len() - 1 ==> !key_lt(#[trigger] s[i + 1].0, s[i].0)
}

pub proof fn lemma_bytes_lt_asymmetric(a: Seq<u8>, b: Seq<u8>)
    ensures
        bytes_lt(a, b) ==> !bytes_lt(b, a),
    decreases a.len(),
{
    if a.len() > 0 && b.len() > 0 && a[0] == b[0] {
        lemma_bytes_lt_asymmetric(a.drop_first(), b.drop_first());
    }
}

pub proof fn lemma_key_lt_asymmetric(a: KeyModel, b: KeyModel)
    ensures
        key_lt(a, b) ==> !key_lt(b, a),
{
    if let (KeyModel::Str(x), KeyModel::Str(y)) = (a, b) {
        lemma_bytes_lt_asymmetric(encode_utf8(x), encode_utf8(y));
    }
}

fn bytes_less(a: &[u8], b: &[u8]) -> (r: bool)
    ensures
        r == bytes_lt(a@, b@),
{
    let mut i: usize = 0;
    assert(a@.skip(0) =~= a@);
    assert(b@.skip(0) =~= b@);
    while i < a.len() && i < b.len()
        invariant
            i <= a@.len(),
            i <= b@.len(),
            bytes_lt(a@, b@) == bytes_lt(a@.skip(i as int), b@.skip(i as int)),
        decreases a@.len() - i,
    {
        if a[i] != b[i] {
            return a[i] < b[i];
        }
        assert(a@.skip(i as int).drop_first() =~= a@.skip(i + 1));
        assert(b@.skip(i as int).drop_first() =~= b@.skip(i + 1));
        i = i + 1;
    }
    i == a.len() && i < b.len()
}

impl ArrayKey {
    /// Whether this key comes before `other`.
    pub fn less_than(&self, other: &ArrayKey) -> (r: bool)
        ensures
            r == key_lt(self@, other@),
    {
        match (self, other) {
            (ArrayKey::String(x), ArrayKey::String(y)) => bytes_less(
                x.as_str().as_bytes(),
                y.as_str().as_bytes(),
            ),
            (ArrayKey::String(_), ArrayKey::Int(_)) => true,
            (ArrayKey::Int(_), ArrayKey::String(_)) => false,
            (ArrayKey::Int(x), ArrayKey::Int(y)) => *x < *y,
        }
    }
}

pub proof fn lemma_entries_view_insert(s: Seq<(ArrayKey, PhpVal)>, i: int, e: (ArrayKey, PhpVal))
    requires
        0 <= i <= s.len(),
    ensures
        entries_view(s.insert(i, e)) == entries_view(s).insert(i, (e.0@, e.1@)),
{
    assert(entries_view(s.insert(i, e)) =~= entries_view(s).insert(i, (e.0@, e.1@)));
}

pub proof fn lemma_entries_view_drop_last(s: Seq<(ArrayKey, PhpVal)>)
    requires
        s.len() > 0,
    ensures
        entries_view(s) == entries_view(s.drop_last()).push((s.last().0@, s.last().1@)),
{
    assert(entries_view(s) =~= entries_view(s.drop_last()).push((s.last().0@, s.last().1@)));
}

pub proof fn lemma_bytes_lt_transitive(a: Seq<u8>, b: Seq<u8>, c: Seq<u8>)
    requires
        bytes_lt(a, b),
        bytes_lt(b, c),
    ensures
        bytes_lt(a, c),
    decreases a.len(),
{
    if a.len() > 0 && b.len() > 0 && c.len() > 0 && a[0] == b[0] && b[0] == c[0] {
        lemma_bytes_lt_transitive(a.drop_first(), b.drop_first(), c.drop_first());
    }
}

pub proof fn lemma_bytes_lt_total(a: Seq<u8>, b: Seq<u8>)
    ensures
        a == b || bytes_lt(a, b) || bytes_lt(b, a),
    decreases a.len(),
{
    if a.len() > 0 && b.len() > 0 && a[0] == b[0] {
        lemma_bytes_lt_total(a.drop_first(), b.drop_first());
        if a.drop_first() == b.drop_first() {
            assert(a =~= seq![a[0]] + a.drop_first());
            assert(b =~= seq![b[0]] + b.drop_first());
        }
    } else if a.len() == 0 && b.len() == 0 {
        assert(a =~= b);
    }
}

pub proof fn lemma_key_lt_transitive(a: KeyModel, b: KeyModel, c: KeyModel)
    requires
        key_lt(a, b),
        key_lt(b, c),
    ensures
        key_lt(a, c),
{
    if let (KeyModel::Str(x), KeyModel::Str(y), KeyModel::Str(z)) = (a, b, c) {
        lemma_bytes_lt_transitive(encode_utf8(x), encode_utf8(y), encode_utf8(z));
    }
}

pub proof fn lemma_key_lt_total(a: KeyModel, b: KeyModel)
    ensures
        a == b || key_lt(a, b) || key_lt(b, a),
{
    if let (KeyModel::Str(x), KeyModel::Str(y)) = (a, b) {
        lemma_bytes_lt_total(encode_utf8(x), encode_utf8(y));
        vstd::utf8::encode_utf8_decode_utf8(x);
        vstd::utf8::encode_utf8_decode_utf8(y);
    }
}

/// Sorted by adjacent pairs is sorted by every pair.
pub proof fn lemma_keys_sorted_all(s: Seq<(KeyModel, ValModel)>, i: int, j: int)
    requires
        keys_sorted(s),
        0 <= i <= j < s.len(),
    ensures
        !key_lt(s[j].0, s[i].0),
    decreases j - i,
{
    if i == j {
        lemma_key_lt_asymmetric(s[i].0, s[i].0);
    } else {
        lemma_keys_sorted_all(s, i, j - 1);
        assert(!key_lt(s[(j - 1) + 1].0, s[j - 1].0));
        lemma_key_lt_total(s[j - 1].0, s[j].0);
        if key_lt(s[j].0, s[i].0) {
            if key_lt(s[j - 1].0, s[j].0) {
                lemma_key_lt_transitive(s[j - 1].0, s[j].0, s[i].0);
            }
        }
    }
}

/// Entries whose keys strictly increase.
pub open spec fn keys_ascending(s: Seq<(KeyModel, ValModel)>) -> bool {
    forall|i: int| 0 <= i < s.len() - 1 ==> key_lt(s[i].0, #[trigger] s[i + 1].0)
}

/// No two entries share a key.
pub open spec fn keys_distinct(s: Seq<(KeyModel, ValModel)>) -> bool {
    forall|i: int, j: int| 0 <= i < j < s.len() ==> #[trigger] s[i].0 != #[trigger] s[j].0
}

/// Whether no array in `v` holds an `Undef` value, at any depth.
pub open spec fn hole_free(v: ValModel) -> bool
    decreases v, 0int,
{
    match v {
        ValModel::Array(s) => entries_hole_free(s, s.len() as int),
        _ => true,
    }
}

/// Whether the first `n` entries of `s` hold no `Undef`, at any depth.
pub open spec fn entries_hole_free(s: Seq<(KeyModel, ValModel)>, n: int) -> bool
    decreases s, n,
{
    if n <= 0 || n > s.len() {
        true
    } else {
        entries_hole_free(s, n - 1) && !(s[n - 1].1 is Undef) && hole_free(s[n - 1].1)
    }
}

/// A value without holes is its own canonical form: it reads back from
/// foreign memory exactly, lists with their keys and their order as written.
pub proof fn lemma_hole_free_canonical(v: ValModel)
    requires
        hole_free(v),
    ensures
        canonical(v) == v,
    decreases v, 1int,
{
    if let ValModel::Array(s) = v {
        lemma_hole_free_entries_canonical(s, s.len() as int);
        assert(s.take(s.len() as int) =~= s);
    }
}

proof fn lemma_hole_free_entries_canonical(s: Seq<(KeyModel, ValModel)>, n: int)
    requires
        0 <= n <= s.len(),
        entries_hole_free(s, n),
    ensures
        canonical_entries(s, n) == s.take(n),
    decreases s, n,
{
    if n > 0 {
        lemma_hole_free_entries_canonical(s, n - 1);
        lemma_hole_free_canonical(s[n - 1].1);
        assert(s.take(n - 1).push(s[n - 1]) =~= s.take(n));
    } else {
        assert(s.take(0) =~= Seq::<(KeyModel, ValModel)>::empty());
    }
}

} // verus!
