//! Tagged cells and their decoding into owned values.
use vstd::prelude::*;

use crate::memory::{
    is_prefix, lemma_load_bytes_prefix, load_u32, load_u64, load_u8, read_u32, read_u64, read_u8,
    ARRAY_DATA_OFFSET, ARRAY_USED_OFFSET, BUCKET_HASH_OFFSET, BUCKET_KEY_OFFSET, BUCKET_SIZE,
    ZVAL_SIZE, ZVAL_TYPE_OFFSET,
};
use crate::string::{decode_string, lemma_decode_string_prefix, parse_zend_string};
use crate::value::{
    entries_view, lemma_array_view, lemma_entries_view_push, ArrayKey, KeyModel, PhpVal, ValModel,
};

verus! {

/// How many nested arrays the decoder follows before it gives up. It
/// recurses once per level, so this bounds its stack.
pub const MAX_DEPTH: u32 = 256;

pub const TAG_UNDEF: u8 = 0;
pub const TAG_NULL: u8 = 1;
pub const TAG_FALSE: u8 = 2;
pub const TAG_TRUE: u8 = 3;
pub const TAG_LONG: u8 = 4;
pub const TAG_DOUBLE: u8 = 5;
pub const TAG_STRING: u8 = 6;
pub const TAG_ARRAY: u8 = 7;

/// The value of the cell with type tag `tag` and payload `payload`.
/// `None` where some memory that it points to cannot be read, a string is not
/// UTF-8, or arrays nest deeper than `depth`. Tags that the marshalling does
/// not support decode as `Undef`.
pub open spec fn decode_cell(m: Seq<u8>, tag: u8, payload: u64, depth: nat) -> Option<ValModel>
    decreases depth, 0int, 0int,
{
    if tag == TAG_UNDEF {
        Some(ValModel::Undef)
    } else if tag == TAG_NULL {
        Some(ValModel::Null)
    } else if tag == TAG_FALSE {
        Some(ValModel::Bool(false))
    } else if tag == TAG_TRUE {
        Some(ValModel::Bool(true))
    } else if tag == TAG_LONG {
        Some(ValModel::Long(payload as i64))
    } else if tag == TAG_DOUBLE {
        Some(ValModel::Double(payload))
    } else if tag == TAG_STRING {
        match decode_string(m, payload) {
            Some(s) => Some(ValModel::Str(s)),
            None => None,
        }
    } else if tag == TAG_ARRAY {
        if depth == 0 {
            None
        } else {
            match decode_array(m, payload, (depth - 1) as nat) {
                Some(es) => Some(ValModel::Array(es)),
                None => None,
            }
        }
    } else {
        Some(ValModel::Undef)
    }
}

/// The entries of the hash table at `p`, in bucket order.
pub open spec fn decode_array(m: Seq<u8>, p: u64, depth: nat) -> Option<Seq<(KeyModel, ValModel)>>
    decreases depth, 3int, 0int,
{
    match (load_u64(m, p + ARRAY_DATA_OFFSET), load_u32(m, p + ARRAY_USED_OFFSET)) {
        (Some(data), Some(used)) => decode_buckets(m, data, used as int, depth),
        _ => None,
    }
}

/// The entries of the first `n` buckets from `data`; a bucket whose value is
/// `Undef` is a hole and gives no entry.
pub open spec fn decode_buckets(m: Seq<u8>, data: u64, n: int, depth: nat) -> Option<
    Seq<(KeyModel, ValModel)>,
>
    decreases depth, 2int, n,
{
    if n <= 0 {
        Some(Seq::empty())
    } else {
        match decode_buckets(m, data, n - 1, depth) {
            Some(prev) => match decode_bucket(m, data + BUCKET_SIZE * (n - 1), depth) {
                Some(Some(e)) => Some(prev.push(e)),
                Some(None) => Some(prev),
                None => None,
            },
            None => None,
        }
    }
}

/// The entry of the bucket at `b`: `Some(None)` for a hole.
pub open spec fn decode_bucket(m: Seq<u8>, b: int, depth: nat) -> Option<
    Option<(KeyModel, ValModel)>,
>
    decreases depth, 1int, 0int,
{
    match (
        load_u64(m, b),
        load_u8(m, b + ZVAL_TYPE_OFFSET),
        load_u64(m, b + BUCKET_HASH_OFFSET),
        load_u64(m, b + BUCKET_KEY_OFFSET),
    ) {
        (Some(payload), Some(tag), Some(h), Some(key)) => match decode_cell(m, tag, payload, depth) {
            Some(v) => if v is Undef {
                Some(None)
            } else if key == 0 {
                Some(Some((KeyModel::Int(h), v)))
            } else {
                match decode_string(m, key as u64) {
                    Some(k) => Some(Some((KeyModel::Str(k), v))),
                    None => None,
                }
            },
            None => None,
        },
        _ => None,
    }
}

pub proof fn lemma_decode_buckets_none(m: Seq<u8>, data: u64, n: int, n2: int, depth: nat)
    requires
        0 <= n <= n2,
        decode_buckets(m, data, n, depth) is None,
    ensures
        decode_buckets(m, data, n2, depth) is None,
    decreases n2 - n,
{
    if n2 > n {
        lemma_decode_buckets_none(m, data, n, n2 - 1, depth);
    }
}

/// Decodes the cell with type tag `tag` and payload `payload`.
pub fn decode_value(m: &Vec<u8>, tag: u8, payload: u64, depth: u32) -> (r: Option<PhpVal>)
    ensures
        match r {
            Some(v) => decode_cell(m@, tag, payload, depth as nat) == Some(v@),
            None => decode_cell(m@, tag, payload, depth as nat) is None,
        },
    decreases depth, 0int,
{
    if tag == TAG_UNDEF {
        Some(PhpVal::Undef)
    } else if tag == TAG_NULL {
        Some(PhpVal::Null)
    } else if tag == TAG_FALSE {
        Some(PhpVal::Bool(false))
    } else if tag == TAG_TRUE {
        Some(PhpVal::Bool(true))
    } else if tag == TAG_LONG {
        Some(PhpVal::Long(#[verifier::truncate] (payload as i64)))
    } else if tag == TAG_DOUBLE {
        Some(PhpVal::Double(payload))
    } else if tag == TAG_STRING {
        match parse_zend_string(m, payload) {
            Some(s) => Some(PhpVal::String(s)),
            None => None,
        }
    } else if tag == TAG_ARRAY {
        if depth == 0 {
            None
        } else {
            match parse_zend_array(m, payload, depth - 1) {
                Some(es) => {
                    proof {
                        lemma_array_view(es);
                    }
                    Some(PhpVal::Array(es))
                },
                None => None,
            }
        }
    } else {
        Some(PhpVal::Undef)
    }
}

/// Reads the hash table at `p` into its live entries, in bucket order.
pub fn parse_zend_array(m: &Vec<u8>, p: u64, depth: u32) -> (r: Option<Vec<(ArrayKey, PhpVal)>>)
    ensures
        match r {
            Some(es) => decode_array(m@, p, depth as nat) == Some(entries_view(es@)),
            None => decode_array(m@, p, depth as nat) is None,
        },
    decreases depth, 2int,
{
    assert(m@.len() == m.len() <= u64::MAX);
    let data = match p.checked_add(ARRAY_DATA_OFFSET) {
        Some(a) => match read_u64(m, a) {
            Some(d) => d,
            None => return None,
        },
        None => return None,
    };
    let used = match p.checked_add(ARRAY_USED_OFFSET) {
        Some(a) => match read_u32(m, a) {
            Some(u) => u,
            None => return None,
        },
        None => return None,
    };
    let mut result: Vec<(ArrayKey, PhpVal)> = Vec::new();
    let mut i: u32 = 0;
    while i < used
        invariant
            i <= used,
            m@.len() <= u64::MAX,
            decode_array(m@, p, depth as nat) == decode_buckets(m@, data, used as int, depth as nat),
            decode_buckets(m@, data, i as int, depth as nat) == Some(entries_view(result@)),
        decreases used - i,
    {
        let offset = (i as u64) * BUCKET_SIZE;
        let entry = match data.checked_add(offset) {
            Some(b) => decode_bucket_at(m, b, depth),
            None => None,
        };
        match entry {
            Some(Some(e)) => {
                proof {
                    lemma_entries_view_push(result@, e);
                }
                result.push(e);
            },
            Some(None) => {},
            None => {
                proof {
                    assert(decode_bucket(m@, data + BUCKET_SIZE * i, depth as nat) is None);
                    assert(decode_buckets(m@, data, i + 1, depth as nat) is None);
                    lemma_decode_buckets_none(m@, data, i + 1, used as int, depth as nat);
                }
                return None;
            },
        }
        i = i + 1;
    }
    Some(result)
}

/// Decodes the bucket at `b`: `Some(None)` for a hole.
fn decode_bucket_at(m: &Vec<u8>, b: u64, depth: u32) -> (r: Option<Option<(ArrayKey, PhpVal)>>)
    ensures
        match r {
            Some(Some(e)) => decode_bucket(m@, b as int, depth as nat) == Some(Some((e.0@, e.1@))),
            Some(None) => decode_bucket(m@, b as int, depth as nat) == Some(
                None::<(KeyModel, ValModel)>,
            ),
            None => decode_bucket(m@, b as int, depth as nat) is None,
        },
    decreases depth, 1int,
{
    assert(m@.len() == m.len() <= u64::MAX);
    let payload = match read_u64(m, b) {
        Some(x) => x,
        None => return None,
    };
    let tag = match b.checked_add(ZVAL_TYPE_OFFSET) {
        Some(a) => match read_u8(m, a) {
            Some(x) => x,
            None => return None,
        },
        None => return None,
    };
    let h = match b.checked_add(BUCKET_HASH_OFFSET) {
        Some(a) => match read_u64(m, a) {
            Some(x) => x,
            None => return None,
        },
        None => return None,
    };
    let key = match b.checked_add(BUCKET_KEY_OFFSET) {
        Some(a) => match read_u64(m, a) {
            Some(x) => x,
            None => return None,
        },
        None => return None,
    };
    let v = match decode_value(m, tag, payload, depth) {
        Some(v) => v,
        None => return None,
    };
    if let PhpVal::Undef = v {
        return Some(None);
    }
    if key == 0 {
        Some(Some((ArrayKey::Int(h), v)))
    } else {
        match parse_zend_string(m, key) {
            Some(k) => Some(Some((ArrayKey::String(k), v))),
            None => None,
        }
    }
}

/// The engine's type tags, as carried by a tagged cell.
#[derive(Debug, Clone, Copy, PartialEq, Eq, Structural)]
pub enum ZValType {
    Undef,
    Null,
    False,
    True,
    Long,
    Double,
    String,
    Array,
    Object,
    Resource,
    Reference,
    ConstantAST,
    Indirect,
    Ptr,
    Error,
    Bool,
    Callable,
    Iterable,
    Void,
    Number,
}

impl ZValType {
    pub open spec fn spec_tag(self) -> u8 {
        match self {
            ZValType::Undef => 0,
            ZValType::Null => 1,
            ZValType::False => 2,
            ZValType::True => 3,
            ZValType::Long => 4,
            ZValType::Double => 5,
            ZValType::String => 6,
            ZValType::Array => 7,
            ZValType::Object => 8,
            ZValType::Resource => 9,
            ZValType::Reference => 10,
            ZValType::ConstantAST => 11,
            ZValType::Indirect => 13,
            ZValType::Ptr => 14,
            ZValType::Error => 15,
            ZValType::Bool => 16,
            ZValType::Callable => 17,
            ZValType::Iterable => 18,
            ZValType::Void => 19,
            ZValType::Number => 20,
        }
    }

    /// The byte that stands for this type in a cell.
    pub fn tag(self) -> (r: u8)
        ensures
            r == self.spec_tag(),
    {
        match self {
            ZValType::Undef => 0,
            ZValType::Null => 1,
            ZValType::False => 2,
            ZValType::True => 3,
            ZValType::Long => 4,
            ZValType::Double => 5,
            ZValType::String => 6,
            ZValType::Array => 7,
            ZValType::Object => 8,
            ZValType::Resource => 9,
            ZValType::Reference => 10,
            ZValType::ConstantAST => 11,
            ZValType::Indirect => 13,
            ZValType::Ptr => 14,
            ZValType::Error => 15,
            ZValType::Bool => 16,
            ZValType::Callable => 17,
            ZValType::Iterable => 18,
            ZValType::Void => 19,
            ZValType::Number => 20,
        }
    }

    /// The type of a value cell's tag: one of the first eleven types, `None`
    /// for any other byte.
    pub fn from_tag(t: u8) -> (r: Option<ZValType>)
        ensures
            match r {
                Some(ty) => t <= 10 && ty.spec_tag() == t,
                None => t > 10,
            },
    {
        match t {
            0 => Some(ZValType::Undef),
            1 => Some(ZValType::Null),
            2 => Some(ZValType::False),
            3 => Some(ZValType::True),
            4 => Some(ZValType::Long),
            5 => Some(ZValType::Double),
            6 => Some(ZValType::String),
            7 => Some(ZValType::Array),
            8 => Some(ZValType::Object),
            9 => Some(ZValType::Resource),
            10 => Some(ZValType::Reference),
            _ => None,
        }
    }

    pub open spec fn spec_name(self) -> &'static str {
        match self {
            ZValType::Undef => "undefined",
            ZValType::Null => "null",
            ZValType::False => "bool",
            ZValType::True => "bool",
            ZValType::Long => "long",
            ZValType::Double => "double",
            ZValType::String => "string",
            ZValType::Array => "array",
            ZValType::Object => "object",
            ZValType::Resource => "resource",
            ZValType::Reference => "reference",
            ZValType::ConstantAST => "constant ast",
            ZValType::Indirect => "indirect",
            ZValType::Ptr => "pointer",
            ZValType::Error => "error",
            ZValType::Bool => "bool",
            ZValType::Callable => "callable",
            ZValType::Iterable => "iterable",
            ZValType::Void => "void",
            ZValType::Number => "number",
        }
    }

    /// The name of the type as diagnostics show it.
    pub fn name(self) -> (r: &'static str)
        ensures
            r == self.spec_name(),
    {
        match self {
            ZValType::Undef => "undefined",
            ZValType::Null => "null",
            ZValType::False => "bool",
            ZValType::True => "bool",
            ZValType::Long => "long",
            ZValType::Double => "double",
            ZValType::String => "string",
            ZValType::Array => "array",
            ZValType::Object => "object",
            ZValType::Resource => "resource",
            ZValType::Reference => "reference",
            ZValType::ConstantAST => "constant ast",
            ZValType::Indirect => "indirect",
            ZValType::Ptr => "pointer",
            ZValType::Error => "error",
            ZValType::Bool => "bool",
            ZValType::Callable => "callable",
            ZValType::Iterable => "iterable",
            ZValType::Void => "void",
            ZValType::Number => "number",
        }
    }
}

/// The type tag of a value.
pub open spec fn type_of(v: ValModel) -> ZValType {
    match v {
        ValModel::Undef => ZValType::Undef,
        ValModel::Null => ZValType::Null,
        ValModel::Bool(b) => if b {
            ZValType::True
        } else {
            ZValType::False
        },
        ValModel::Long(_) => ZValType::Long,
        ValModel::Double(_) => ZValType::Double,
        ValModel::Str(_) => ZValType::String,
        ValModel::Array(_) => ZValType::Array,
        ValModel::Object(_) => ZValType::Object,
        ValModel::Resource(_) => ZValType::Resource,
        ValModel::Reference => ZValType::Reference,
    }
}

impl PhpVal {
    pub fn get_type(&self) -> (r: ZValType)
        ensures
            r == type_of(self@),
    {
        match self {
            PhpVal::Undef => ZValType::Undef,
            PhpVal::Null => ZValType::Null,
            PhpVal::Bool(b) => if *b {
                ZValType::True
            } else {
                ZValType::False
            },
            PhpVal::Long(_) => ZValType::Long,
            PhpVal::Double(_) => ZValType::Double,
            PhpVal::String(_) => ZValType::String,
            PhpVal::Array(_) => ZValType::Array,
            PhpVal::Object(_) => ZValType::Object,
            PhpVal::Resource(_) => ZValType::Resource,
            PhpVal::Reference() => ZValType::Reference,
        }
    }
}

/// A tagged cell: an 8-byte payload (an integer, the bits of a float, or the
/// address of a string or hash table) and a one-byte type tag.
#[derive(Debug, Clone, Copy, PartialEq, Eq, Structural)]
pub struct ZVal {
    pub value: u64,
    pub type_tag: u8,
}

/// What the cell `(tag, payload)` holds, read as the call boundary reads it:
/// whatever cannot be decoded is `Undef`.
pub open spec fn cell_value(m: Seq<u8>, tag: u8, payload: u64) -> ValModel {
    match decode_cell(m, tag, payload, MAX_DEPTH as nat) {
        Some(v) => v,
        None => ValModel::Undef,
    }
}

/// The cell stored at `at`.
pub open spec fn load_zval(m: Seq<u8>, at: int) -> Option<ZVal> {
    match (load_u64(m, at), load_u8(m, at + ZVAL_TYPE_OFFSET)) {
        (Some(value), Some(type_tag)) => Some(ZVal { value, type_tag }),
        _ => None,
    }
}

/// Reads the cell stored at `at`.
pub fn read_zval(m: &Vec<u8>, at: u64) -> (r: Option<ZVal>)
    ensures
        r == load_zval(m@, at as int),
{
    assert(m@.len() == m.len() <= u64::MAX);
    let value = match read_u64(m, at) {
        Some(v) => v,
        None => return None,
    };
    let type_tag = match at.checked_add(ZVAL_TYPE_OFFSET) {
        Some(a) => match read_u8(m, a) {
            Some(t) => t,
            None => return None,
        },
        None => return None,
    };
    Some(ZVal { value, type_tag })
}

impl ZVal {
    /// The type that the cell's tag names, if it is a value type.
    pub fn get_type(&self) -> (r: Option<ZValType>)
        ensures
            match r {
                Some(ty) => self.type_tag <= 10 && ty.spec_tag() == self.type_tag,
                None => self.type_tag > 10,
            },
    {
        ZValType::from_tag(self.type_tag)
    }

    /// The payload read as an integer.
    pub fn as_i64(&self) -> (r: i64)
        ensures
            r == self.value as i64,
    {
        #[verifier::truncate]
        (self.value as i64)
    }

    /// The payload read as the address of a foreign string.
    pub fn as_str(&self, m: &Vec<u8>) -> (r: Option<String>)
        ensures
            match r {
                Some(s) => decode_string(m@, self.value) == Some(s@),
                None => decode_string(m@, self.value) is None,
            },
    {
        parse_zend_string(m, self.value)
    }

    /// The payload read as the address of a foreign hash table.
    pub fn as_array(&self, m: &Vec<u8>) -> (r: Option<Vec<(ArrayKey, PhpVal)>>)
        ensures
            match r {
                Some(es) => decode_array(m@, self.value, (MAX_DEPTH - 1) as nat) == Some(
                    entries_view(es@),
                ),
                None => decode_array(m@, self.value, (MAX_DEPTH - 1) as nat) is None,
            },
    {
        parse_zend_array(m, self.value, MAX_DEPTH - 1)
    }

    /// The owned value that the cell holds. Arrays nested more than
    /// `MAX_DEPTH` deep (the decoder's stack limit), like memory that cannot
    /// be read, make the whole value `Undef`.
    pub fn as_php_val(&self, m: &Vec<u8>) -> (r: PhpVal)
        ensures
            r@ == cell_value(m@, self.type_tag, self.value),
    {
        match decode_value(m, self.type_tag, self.value, MAX_DEPTH) {
            Some(v) => v,
            None => PhpVal::Undef,
        }
    }
}

/// Size of the engine's call frame.
pub const EXECUTE_DATA_SIZE: u64 = 72;

/// Offset of the argument count inside a call frame.
pub const NUM_ARGS_OFFSET: u64 = 44;

/// Offset of the first argument cell: the frame's size rounded up to whole cells.
pub const ARGS_OFFSET: u64 = (EXECUTE_DATA_SIZE + ZVAL_SIZE - 1) / ZVAL_SIZE * ZVAL_SIZE;

/// A call frame of the engine, at address `frame`.
#[derive(Debug, Clone, Copy, PartialEq, Eq, Structural)]
pub struct ExecuteData {
    pub frame: u64,
}

/// The value of argument `i` of the frame at `f`.
pub open spec fn frame_arg(m: Seq<u8>, f: u64, i: int) -> ValModel {
    match load_zval(m, f + ARGS_OFFSET + ZVAL_SIZE * i) {
        Some(z) => cell_value(m, z.type_tag, z.value),
        None => ValModel::Undef,
    }
}

impl ExecuteData {
    /// The number of arguments that the caller passed.
    pub fn num_args(&self, m: &Vec<u8>) -> (r: Option<u32>)
        ensures
            r == load_u32(m@, self.frame + NUM_ARGS_OFFSET),
    {
        assert(m@.len() == m.len() <= u64::MAX);
        match self.frame.checked_add(NUM_ARGS_OFFSET) {
            Some(a) => read_u32(m, a),
            None => None,
        }
    }

    /// The cell of argument `i`.
    pub fn get_arg(&self, m: &Vec<u8>, i: u32) -> (r: Option<ZVal>)
        ensures
            r == load_zval(m@, self.frame + ARGS_OFFSET + ZVAL_SIZE * i),
    {
        assert(m@.len() == m.len() <= u64::MAX);
        let offset = ARGS_OFFSET + ZVAL_SIZE * (i as u64);
        match self.frame.checked_add(offset) {
            Some(a) => read_zval(m, a),
            None => None,
        }
    }

    /// The values of all arguments that the caller passed, in order; `None`
    /// where the argument count cannot be read.
    pub fn args(&self, m: &Vec<u8>) -> (r: Option<Vec<PhpVal>>)
        ensures
            match r {
                Some(vs) => load_u32(m@, self.frame + NUM_ARGS_OFFSET) matches Some(n) && vs@.len()
                    == n && forall|i: int|
                    0 <= i < n ==> #[trigger] vs@[i]@ == frame_arg(m@, self.frame, i),
                None => load_u32(m@, self.frame + NUM_ARGS_OFFSET) is None,
            },
    {
        let n = match self.num_args(m) {
            Some(n) => n,
            None => return None,
        };
        let mut vs: Vec<PhpVal> = Vec::new();
        let mut i: u32 = 0;
        while i < n
            invariant
                i <= n,
                vs@.len() == i,
                forall|j: int| 0 <= j < i ==> #[trigger] vs@[j]@ == frame_arg(m@, self.frame, j),
            decreases n - i,
        {
            let v = match self.get_arg(m, i) {
                Some(z) => z.as_php_val(m),
                None => PhpVal::Undef,
            };
            vs.push(v);
            i = i + 1;
        }
        Some(vs)
    }
}

proof fn lemma_loads_prefix(m: Seq<u8>, m2: Seq<u8>, at: int)
    requires
        is_prefix(m, m2),
    ensures
        load_u64(m, at) is Some ==> load_u64(m2, at) == load_u64(m, at),
        load_u32(m, at) is Some ==> load_u32(m2, at) == load_u32(m, at),
        load_u8(m, at) is Some ==> load_u8(m2, at) == load_u8(m, at),
{
    if load_u64(m, at) is Some {
        lemma_load_bytes_prefix(m, m2, at, 8);
    }
    if load_u32(m, at) is Some {
        lemma_load_bytes_prefix(m, m2, at, 4);
    }
    if load_u8(m, at) is Some {
        assert(m2.subrange(0, m.len() as int)[at] == m2[at]);
    }
}

/// Decoding looks only at memory that it could read: a value that decodes
/// from `m` decodes the same from any longer buffer that begins with `m`.
pub proof fn lemma_decode_cell_prefix(m: Seq<u8>, m2: Seq<u8>, tag: u8, payload: u64, depth: nat)
    requires
        is_prefix(m, m2),
        decode_cell(m, tag, payload, depth) is Some,
    ensures
        decode_cell(m2, tag, payload, depth) == decode_cell(m, tag, payload, depth),
    decreases depth, 0int, 0int,
{
    if tag == TAG_STRING {
        lemma_decode_string_prefix(m, m2, payload);
    } else if tag == TAG_ARRAY {
        lemma_decode_array_prefix(m, m2, payload, (depth - 1) as nat);
    }
}

pub proof fn lemma_decode_array_prefix(m: Seq<u8>, m2: Seq<u8>, p: u64, depth: nat)
    requires
        is_prefix(m, m2),
        decode_array(m, p, depth) is Some,
    ensures
        decode_array(m2, p, depth) == decode_array(m, p, depth),
    decreases depth, 3int, 0int,
{
    lemma_loads_prefix(m, m2, p + ARRAY_DATA_OFFSET);
    lemma_loads_prefix(m, m2, p + ARRAY_USED_OFFSET);
    let data = load_u64(m, p + ARRAY_DATA_OFFSET).unwrap();
    let used = load_u32(m, p + ARRAY_USED_OFFSET).unwrap();
    lemma_decode_buckets_prefix(m, m2, data, used as int, depth);
}

pub proof fn lemma_decode_buckets_prefix(m: Seq<u8>, m2: Seq<u8>, data: u64, n: int, depth: nat)
    requires
        is_prefix(m, m2),
        decode_buckets(m, data, n, depth) is Some,
    ensures
        decode_buckets(m2, data, n, depth) == decode_buckets(m, data, n, depth),
    decreases depth, 2int, n,
{
    if n > 0 {
        lemma_decode_buckets_prefix(m, m2, data, n - 1, depth);
        lemma_decode_bucket_prefix(m, m2, data + BUCKET_SIZE * (n - 1), depth);
    }
}

pub proof fn lemma_decode_bucket_prefix(m: Seq<u8>, m2: Seq<u8>, b: int, depth: nat)
    requires
        is_prefix(m, m2),
        decode_bucket(m, b, depth) is Some,
    ensures
        decode_bucket(m2, b, depth) == decode_bucket(m, b, depth),
    decreases depth, 1int, 0int,
{
    lemma_loads_prefix(m, m2, b);
    lemma_loads_prefix(m, m2, b + ZVAL_TYPE_OFFSET);
    lemma_loads_prefix(m, m2, b + BUCKET_HASH_OFFSET);
    lemma_loads_prefix(m, m2, b + BUCKET_KEY_OFFSET);
    let payload = load_u64(m, b).unwrap();
    let tag = load_u8(m, b + ZVAL_TYPE_OFFSET).unwrap();
    let key = load_u64(m, b + BUCKET_KEY_OFFSET).unwrap();
    lemma_decode_cell_prefix(m, m2, tag, payload, depth);
    let v = decode_cell(m, tag, payload, depth).unwrap();
    if !(v is Undef) && key != 0 {
        lemma_decode_string_prefix(m, m2, key);
    }
}

/// Holes are dropped: no entry of a decoded array is `Undef`, and an array
/// has at most as many entries as buckets in use.
pub proof fn lemma_decoded_buckets_live(m: Seq<u8>, data: u64, n: int, depth: nat)
    requires
        n >= 0,
        decode_buckets(m, data, n, depth) is Some,
    ensures
        decode_buckets(m, data, n, depth).unwrap().len() <= n,
        forall|i: int|
            0 <= i < decode_buckets(m, data, n, depth).unwrap().len() ==> !((
            #[trigger] decode_buckets(m, data, n, depth).unwrap()[i]).1 is Undef),
    decreases n,
{
    if n > 0 {
        lemma_decoded_buckets_live(m, data, n - 1, depth);
        let prev = decode_buckets(m, data, n - 1, depth).unwrap();
        let es = decode_buckets(m, data, n, depth).unwrap();
        if let Some(Some(e)) = decode_bucket(m, data + BUCKET_SIZE * (n - 1), depth) {
            assert(!(e.1 is Undef));
            assert(es == prev.push(e));
            assert forall|i: int| 0 <= i < es.len() implies !((#[trigger] es[i]).1 is Undef) by {
                if i < prev.len() {
                    assert(es[i] == prev[i]);
                }
            }
        }
    }
}

/// Holes are dropped from every decoded array.
pub proof fn lemma_decoded_array_live(m: Seq<u8>, p: u64, depth: nat)
    requires
        decode_array(m, p, depth) is Some,
    ensures
        load_u32(m, p + ARRAY_USED_OFFSET) matches Some(used) && decode_array(
            m,
            p,
            depth,
        ).unwrap().len() <= used,
        forall|i: int|
            0 <= i < decode_array(m, p, depth).unwrap().len() ==> !((#[trigger] decode_array(
                m,
                p,
                depth,
            ).unwrap()[i]).1 is Undef),
{
    let data = load_u64(m, p + ARRAY_DATA_OFFSET).unwrap();
    let used = load_u32(m, p + ARRAY_USED_OFFSET).unwrap();
    lemma_decoded_buckets_live(m, data, used as int, depth);
}

} // verus!
