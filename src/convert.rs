//! Conversions from native values into dynamic values and array keys.
use vstd::multiset::Multiset;
use vstd::prelude::*;
use vstd::std_specs::convert::FromSpecImpl;

use crate::value::{
    entries_view, key_lt, keys_ascending, keys_distinct, keys_sorted, lemma_array_view,
    lemma_entries_view_drop_last, lemma_entries_view_insert, lemma_key_lt_asymmetric,
    lemma_key_lt_total, lemma_keys_sorted_all, ArrayKey, KeyModel, PhpVal, ValModel,
};

verus! {

broadcast use {vstd::seq_lib::group_to_multiset_ensures, vstd::multiset::group_multiset_axioms};

impl From<i64> for PhpVal {
    fn from(x: i64) -> (r: PhpVal) {
        PhpVal::Long(x as i64)
    }
}

impl FromSpecImpl<i64> for PhpVal {
    open spec fn obeys_from_spec() -> bool {
        true
    }

    open spec fn from_spec(x: i64) -> PhpVal {
        PhpVal::Long(x as i64)
    }
}

impl From<i32> for PhpVal {
    fn from(x: i32) -> (r: PhpVal) {
        PhpVal::Long(x as i64)
    }
}

impl FromSpecImpl<i32> for PhpVal {
    open spec fn obeys_from_spec() -> bool {
        true
    }

    open spec fn from_spec(x: i32) -> PhpVal {
        PhpVal::Long(x as i64)
    }
}

impl From<i16> for PhpVal {
    fn from(x: i16) -> (r: PhpVal) {
        PhpVal::Long(x as i64)
    }
}

impl FromSpecImpl<i16> for PhpVal {
    open spec fn obeys_from_spec() -> bool {
        true
    }

    open spec fn from_spec(x: i16) -> PhpVal {
        PhpVal::Long(x as i64)
    }
}

impl From<i8> for PhpVal {
    fn from(x: i8) -> (r: PhpVal) {
        PhpVal::Long(x as i64)
    }
}

impl FromSpecImpl<i8> for PhpVal {
    open spec fn obeys_from_spec() -> bool {
        true
    }

    open spec fn from_spec(x: i8) -> PhpVal {
        PhpVal::Long(x as i64)
    }
}

impl From<u64> for PhpVal {
    fn from(x: u64) -> (r: PhpVal) {
        PhpVal::Long(#[verifier::truncate] (x as i64))
    }
}

impl FromSpecImpl<u64> for PhpVal {
    open spec fn obeys_from_spec() -> bool {
        true
    }

    open spec fn from_spec(x: u64) -> PhpVal {
        PhpVal::Long(x as i64)
    }
}

impl From<u32> for PhpVal {
    fn from(x: u32) -> (r: PhpVal) {
        PhpVal::Long(x as i64)
    }
}

impl FromSpecImpl<u32> for PhpVal {
    open spec fn obeys_from_spec() -> bool {
        true
    }

    open spec fn from_spec(x: u32) -> PhpVal {
        PhpVal::Long(x as i64)
    }
}

impl From<u16> for PhpVal {
    fn from(x: u16) -> (r: PhpVal) {
        PhpVal::Long(x as i64)
    }
}

impl FromSpecImpl<u16> for PhpVal {
    open spec fn obeys_from_spec() -> bool {
        true
    }

    open spec fn from_spec(x: u16) -> PhpVal {
        PhpVal::Long(x as i64)
    }
}

impl From<u8> for PhpVal {
    fn from(x: u8) -> (r: PhpVal) {
        PhpVal::Long(x as i64)
    }
}

impl FromSpecImpl<u8> for PhpVal {
    open spec fn obeys_from_spec() -> bool {
        true
    }

    open spec fn from_spec(x: u8) -> PhpVal {
        PhpVal::Long(x as i64)
    }
}

impl From<bool> for PhpVal {
    fn from(x: bool) -> (r: PhpVal) {
        PhpVal::Bool(x)
    }
}

impl FromSpecImpl<bool> for PhpVal {
    open spec fn obeys_from_spec() -> bool {
        true
    }

    open spec fn from_spec(x: bool) -> PhpVal {
        PhpVal::Bool(x)
    }
}

impl From<String> for PhpVal {
    fn from(x: String) -> (r: PhpVal) {
        PhpVal::String(x)
    }
}

impl FromSpecImpl<String> for PhpVal {
    open spec fn obeys_from_spec() -> bool {
        true
    }

    open spec fn from_spec(x: String) -> PhpVal {
        PhpVal::String(x)
    }
}

impl From<()> for PhpVal {
    fn from(x: ()) -> (r: PhpVal) {
        PhpVal::Null
    }
}

impl FromSpecImpl<()> for PhpVal {
    open spec fn obeys_from_spec() -> bool {
        true
    }

    open spec fn from_spec(x: ()) -> PhpVal {
        PhpVal::Null
    }
}

impl From<Vec<(ArrayKey, PhpVal)>> for PhpVal {
    fn from(x: Vec<(ArrayKey, PhpVal)>) -> (r: PhpVal) {
        PhpVal::Array(x)
    }
}

impl FromSpecImpl<Vec<(ArrayKey, PhpVal)>> for PhpVal {
    open spec fn obeys_from_spec() -> bool {
        true
    }

    open spec fn from_spec(x: Vec<(ArrayKey, PhpVal)>) -> PhpVal {
        PhpVal::Array(x)
    }
}

impl From<Option<PhpVal>> for PhpVal {
    fn from(x: Option<PhpVal>) -> (r: PhpVal) {
        match x {
            Some(v) => v,
            None => PhpVal::Null,
        }
    }
}

impl FromSpecImpl<Option<PhpVal>> for PhpVal {
    open spec fn obeys_from_spec() -> bool {
        true
    }

    open spec fn from_spec(x: Option<PhpVal>) -> PhpVal {
        match x {
            Some(v) => v,
            None => PhpVal::Null,
        }
    }
}

impl From<u64> for ArrayKey {
    fn from(x: u64) -> (r: ArrayKey) {
        ArrayKey::Int(x as u64)
    }
}

impl FromSpecImpl<u64> for ArrayKey {
    open spec fn obeys_from_spec() -> bool {
        true
    }

    open spec fn from_spec(x: u64) -> ArrayKey {
        ArrayKey::Int(x as u64)
    }
}

impl From<u32> for ArrayKey {
    fn from(x: u32) -> (r: ArrayKey) {
        ArrayKey::Int(x as u64)
    }
}

impl FromSpecImpl<u32> for ArrayKey {
    open spec fn obeys_from_spec() -> bool {
        true
    }

    open spec fn from_spec(x: u32) -> ArrayKey {
        ArrayKey::Int(x as u64)
    }
}

impl From<u16> for ArrayKey {
    fn from(x: u16) -> (r: ArrayKey) {
        ArrayKey::Int(x as u64)
    }
}

impl FromSpecImpl<u16> for ArrayKey {
    open spec fn obeys_from_spec() -> bool {
        true
    }

    open spec fn from_spec(x: u16) -> ArrayKey {
        ArrayKey::Int(x as u64)
    }
}

impl From<u8> for ArrayKey {
    fn from(x: u8) -> (r: ArrayKey) {
        ArrayKey::Int(x as u64)
    }
}

impl FromSpecImpl<u8> for ArrayKey {
    open spec fn obeys_from_spec() -> bool {
        true
    }

    open spec fn from_spec(x: u8) -> ArrayKey {
        ArrayKey::Int(x as u64)
    }
}

impl From<usize> for ArrayKey {
    fn from(x: usize) -> (r: ArrayKey) {
        ArrayKey::Int(x as u64)
    }
}

impl FromSpecImpl<usize> for ArrayKey {
    open spec fn obeys_from_spec() -> bool {
        true
    }

    open spec fn from_spec(x: usize) -> ArrayKey {
        ArrayKey::Int(x as u64)
    }
}

impl From<String> for ArrayKey {
    fn from(x: String) -> (r: ArrayKey) {
        ArrayKey::String(x)
    }
}

impl FromSpecImpl<String> for ArrayKey {
    open spec fn obeys_from_spec() -> bool {
        true
    }

    open spec fn from_spec(x: String) -> ArrayKey {
        ArrayKey::String(x)
    }
}

/// The entries of a list: each value under its position as key.
pub open spec fn indexed(vs: Seq<ValModel>) -> Seq<(KeyModel, ValModel)> {
    Seq::new(vs.len(), |i: int| (KeyModel::Int(i as u64), vs[i]))
}

impl PhpVal {
    /// A list: the values under the keys 0, 1, 2, ... in order.
    pub fn from_list(values: Vec<PhpVal>) -> (r: PhpVal)
        ensures
            r@ == ValModel::Array(indexed(Seq::new(values@.len(), |i: int| values@[i]@))),
    {
        let ghost vs = Seq::new(values@.len(), |i: int| values@[i]@);
        let n = values.len();
        let mut values = values;
        let mut rev: Vec<PhpVal> = Vec::new();
        while values.len() > 0
            invariant
                values@.len() + rev@.len() == vs.len(),
                vs.len() <= usize::MAX,
                forall|i: int| 0 <= i < values@.len() ==> #[trigger] values@[i]@ == vs[i],
                forall|i: int|
                    0 <= i < rev@.len() ==> #[trigger] rev@[i]@ == vs[vs.len() - 1 - i],
            decreases values@.len(),
        {
            let v = values.pop().unwrap();
            rev.push(v);
        }
        let mut entries: Vec<(ArrayKey, PhpVal)> = Vec::new();
        let mut k: usize = 0;
        while rev.len() > 0
            invariant
                k + rev@.len() == vs.len(),
                vs.len() <= usize::MAX,
                entries@.len() == k,
                forall|i: int|
                    0 <= i < rev@.len() ==> #[trigger] rev@[i]@ == vs[vs.len() - 1 - i],
                forall|i: int|
                    0 <= i < k ==> (#[trigger] entries@[i]).0@ == KeyModel::Int(i as u64)
                        && entries@[i].1@ == vs[i],
            decreases rev@.len(),
        {
            let v = rev.pop().unwrap();
            entries.push((ArrayKey::Int(k as u64), v));
            k = k + 1;
        }
        proof {
            lemma_array_view(entries);
            assert(entries_view(entries@) =~= indexed(vs));
        }
        PhpVal::Array(entries)
    }
}

impl PhpVal {
    /// An array from the entries of an unordered map, sorted by key so that
    /// the result does not depend on the order in which the map was walked.
    /// Keys that are distinct, as a map's are, come out strictly ascending.
    pub fn from_map(entries: Vec<(ArrayKey, PhpVal)>) -> (r: PhpVal)
        ensures
            r@ matches ValModel::Array(s) && keys_sorted(s) && s.to_multiset() == entries_view(
                entries@,
            ).to_multiset() && (keys_distinct(entries_view(entries@)) ==> keys_ascending(s)),
    {
        let ghost all = entries_view(entries@);
        let mut rest = entries;
        let mut sorted: Vec<(ArrayKey, PhpVal)> = Vec::new();
        proof {
            assert(entries_view(sorted@) =~= Seq::<(KeyModel, ValModel)>::empty());
            assert(entries_view(sorted@).to_multiset() =~= Multiset::empty());
        }
        while rest.len() > 0
            invariant
                keys_sorted(entries_view(sorted@)),
                entries_view(sorted@).to_multiset().add(entries_view(rest@).to_multiset()) == all.to_multiset(),
            decreases rest@.len(),
        {
            let ghost before = rest@;
            let e = rest.pop().unwrap();
            proof {
                lemma_entries_view_drop_last(before);
                assert(before.drop_last() == rest@);
                vstd::seq_lib::to_multiset_build(entries_view(rest@), (e.0@, e.1@));
            }
            let mut pos: usize = 0;
            let mut done = false;
            while !done && pos < sorted.len()
                invariant
                    keys_sorted(entries_view(sorted@)),
                    pos <= sorted@.len(),
                    forall|k: int| 0 <= k < pos ==> key_lt(#[trigger] sorted@[k].0@, e.0@),
                    done ==> pos < sorted@.len() && !key_lt(sorted@[pos as int].0@, e.0@),
                decreases sorted@.len() - pos + (if done { 0int } else { 1int }),
            {
                if sorted[pos].0.less_than(&e.0) {
                    pos = pos + 1;
                } else {
                    done = true;
                }
            }
            let ghost s0 = entries_view(sorted@);
            let ghost x = (e.0@, e.1@);
            sorted.insert(pos, e);
            proof {
                lemma_entries_view_insert(sorted@.remove(pos as int), pos as int, e);
                assert(sorted@.remove(pos as int).insert(pos as int, e) =~= sorted@);
                let s1 = entries_view(sorted@);
                assert(s1 == s0.insert(pos as int, x)) by {
                    assert(s1 =~= s0.insert(pos as int, x));
                }
                vstd::seq_lib::to_multiset_insert(s0, pos as int, x);
                assert forall|i: int| 0 <= i < s1.len() - 1 implies !key_lt(
                    #[trigger] s1[i + 1].0,
                    s1[i].0,
                ) by {
                    if i + 1 < pos {
                        assert(s1[i + 1] == s0[i + 1] && s1[i] == s0[i]);
                        assert(!key_lt(s0[i + 1].0, s0[i].0));
                    } else if i + 1 == pos {
                        assert(s1[i] == s0[i]);
                        assert(key_lt(sorted@.remove(pos as int)[i].0@, e.0@));
                        assert(key_lt(s0[i].0, x.0));
                        lemma_key_lt_asymmetric(s0[i].0, x.0);
                    } else if i == pos {
                        assert(s1[i + 1] == s0[i]);
                        assert(!key_lt(s0[i].0, x.0));
                    } else {
                        assert(s1[i + 1] == s0[i] && s1[i] == s0[i - 1]);
                        assert(!key_lt(s0[(i - 1) + 1].0, s0[i - 1].0));
                    }
                }
                assert(s1.to_multiset().add(entries_view(rest@).to_multiset()) =~= all.to_multiset());
            }
        }
        proof {
            assert(entries_view(rest@) =~= Seq::<(KeyModel, ValModel)>::empty());
            assert(entries_view(sorted@).to_multiset() =~= all.to_multiset());
            lemma_array_view(sorted);
            let t = entries_view(sorted@);
            if keys_distinct(all) {
                lemma_distinct_transfer(all, t);
                assert forall|i: int| 0 <= i < t.len() - 1 implies key_lt(
                    t[i].0,
                    #[trigger] t[i + 1].0,
                ) by {
                    lemma_key_lt_total(t[i].0, t[i + 1].0);
                }
            }
        }
        PhpVal::Array(sorted)
    }
}

proof fn lemma_count_two(s: Seq<(KeyModel, ValModel)>, i: int, j: int)
    requires
        0 <= i < s.len(),
        0 <= j < s.len(),
        i != j,
        s[i] == s[j],
    ensures
        s.to_multiset().count(s[i]) >= 2,
{
    let r = s.remove(j);
    let k = if i < j {
        i
    } else {
        i - 1
    };
    assert(r[k] == s[i]);
    assert(r.contains(s[i]));
    vstd::seq_lib::to_multiset_contains(r, s[i]);
    vstd::seq_lib::to_multiset_remove(s, j);
}

proof fn lemma_two_from_count(s: Seq<(KeyModel, ValModel)>, x: (KeyModel, ValModel)) -> (r: (
    int,
    int,
))
    requires
        s.to_multiset().count(x) >= 2,
    ensures
        0 <= r.0 < s.len(),
        0 <= r.1 < s.len(),
        r.0 != r.1,
        s[r.0] == x,
        s[r.1] == x,
{
    vstd::seq_lib::to_multiset_contains(s, x);
    let p = choose|p: int| 0 <= p < s.len() && s[p] == x;
    let t = s.remove(p);
    vstd::seq_lib::to_multiset_remove(s, p);
    vstd::seq_lib::to_multiset_contains(t, x);
    let q = choose|q: int| 0 <= q < t.len() && t[q] == x;
    if q < p {
        assert(s[q] == t[q]);
        (p, q)
    } else {
        assert(s[q + 1] == t[q]);
        (p, q + 1)
    }
}

proof fn lemma_index_of(s: Seq<(KeyModel, ValModel)>, t: Seq<(KeyModel, ValModel)>, i: int) -> (j: int)
    requires
        s.to_multiset() == t.to_multiset(),
        0 <= i < s.len(),
    ensures
        0 <= j < t.len(),
        t[j] == s[i],
{
    assert(s.contains(s[i]));
    vstd::seq_lib::to_multiset_contains(s, s[i]);
    vstd::seq_lib::to_multiset_contains(t, s[i]);
    choose|j: int| 0 <= j < t.len() && t[j] == s[i]
}

/// Entries with distinct keys keep them through any rearrangement.
pub proof fn lemma_distinct_transfer(a: Seq<(KeyModel, ValModel)>, r: Seq<(KeyModel, ValModel)>)
    requires
        a.to_multiset() == r.to_multiset(),
        keys_distinct(a),
    ensures
        keys_distinct(r),
{
    assert forall|i: int, j: int| 0 <= i < j < r.len() implies #[trigger] r[i].0 != #[trigger] r[j].0 by {
        if r[i].0 == r[j].0 {
            if r[i] == r[j] {
                lemma_count_two(r, i, j);
                let (p, q) = lemma_two_from_count(a, r[i]);
                if p < q {
                    assert(a[p].0 != a[q].0);
                } else {
                    assert(a[q].0 != a[p].0);
                }
            } else {
                let p = lemma_index_of(r, a, i);
                let q = lemma_index_of(r, a, j);
                if p < q {
                    assert(a[p].0 != a[q].0);
                } else if q < p {
                    assert(a[q].0 != a[p].0);
                }
            }
        }
    }
}

proof fn lemma_sorted_unique(s1: Seq<(KeyModel, ValModel)>, s2: Seq<(KeyModel, ValModel)>)
    requires
        keys_sorted(s1),
        keys_sorted(s2),
        keys_distinct(s1),
        s1.to_multiset() == s2.to_multiset(),
    ensures
        s1 == s2,
    decreases s1.len(),
{
    vstd::seq_lib::to_multiset_len(s1);
    vstd::seq_lib::to_multiset_len(s2);
    if s1.len() == 0 {
        assert(s1 =~= s2);
    } else {
        let j = lemma_index_of(s1, s2, 0);
        let i = lemma_index_of(s2, s1, 0);
        lemma_keys_sorted_all(s2, 0, j);
        lemma_keys_sorted_all(s1, 0, i);
        lemma_key_lt_total(s1[0].0, s2[0].0);
        if i != 0 {
            assert(s1[0].0 != s1[i].0);
        }
        assert(s1[0] == s2[0]);
        let t1 = s1.drop_first();
        let t2 = s2.drop_first();
        assert(s1.remove(0) =~= t1);
        assert(s2.remove(0) =~= t2);
        vstd::seq_lib::to_multiset_remove(s1, 0);
        vstd::seq_lib::to_multiset_remove(s2, 0);
        assert forall|k: int| 0 <= k < t1.len() - 1 implies !key_lt(#[trigger] t1[k + 1].0, t1[k].0) by {
            assert(!key_lt(s1[(k + 1) + 1].0, s1[k + 1].0));
        }
        assert forall|k: int| 0 <= k < t2.len() - 1 implies !key_lt(#[trigger] t2[k + 1].0, t2[k].0) by {
            assert(!key_lt(s2[(k + 1) + 1].0, s2[k + 1].0));
        }
        assert forall|a: int, b: int| 0 <= a < b < t1.len() implies #[trigger] t1[a].0 != #[trigger] t1[b].0 by {
            assert(s1[a + 1].0 != s1[b + 1].0);
        }
        lemma_sorted_unique(t1, t2);
        assert(s1 =~= s2) by {
            assert forall|k: int| 0 <= k < s1.len() implies s1[k] == s2[k] by {
                if k > 0 {
                    assert(s1[k] == t1[k - 1]);
                    assert(s2[k] == t2[k - 1]);
                }
            }
        }
    }
}

/// Building an array from a map gives the same array whatever order the
/// map's entries came in: `from_map`'s results (sorted, and holding the same
/// entries as its input) for two orders of the same entries with distinct
/// keys are equal.
pub proof fn lemma_from_map_deterministic(
    a: Seq<(KeyModel, ValModel)>,
    b: Seq<(KeyModel, ValModel)>,
    r1: Seq<(KeyModel, ValModel)>,
    r2: Seq<(KeyModel, ValModel)>,
)
    requires
        keys_distinct(a),
        a.to_multiset() == b.to_multiset(),
        keys_sorted(r1),
        r1.to_multiset() == a.to_multiset(),
        keys_sorted(r2),
        r2.to_multiset() == b.to_multiset(),
    ensures
        r1 == r2,
{
    lemma_distinct_transfer(a, r1);
    lemma_sorted_unique(r1, r2);
}

} // verus!
