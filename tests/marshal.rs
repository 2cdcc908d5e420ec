use std::collections::HashMap;

use ivory::array::{check_within_limits, hash_djbx33a, new_memory, EncodeError};
use ivory::call::{bind_arguments, check_param, NativeType, ParamType};
use ivory::cast::{
    cast_bool, cast_f64_bits, cast_i16, cast_i32, cast_i64, cast_i8, cast_option_bool,
    cast_option_i64, cast_option_string, cast_string, cast_u16, cast_u32, cast_u64, cast_u8,
};
use ivory::module::{build_module, get_funcs, ArgInfo, Function, FunctionMeta, ModuleInternal, MODULE_ENTRY_SIZE};
use ivory::memory::{read_u32, read_u64, write_bytes, write_u32, write_u64};
use ivory::registry::{
    cache_function, get_functions, ArgumentDefinition, FunctionCache, FunctionDefinition,
};
use ivory::string::{construct_zend_string, parse_zend_string};
use ivory::zval::{parse_zend_array, ExecuteData, ZVal, ZValType, MAX_DEPTH};
use ivory::{ArgError, ArrayKey, CastError, PhpVal};

fn round_trip(v: &PhpVal) -> PhpVal {
    let mut memory = new_memory();
    let cell = ZVal::from_php_val(&mut memory, v);
    cell.as_php_val(&memory)
}

fn long_list(pairs: Vec<(ArrayKey, i64)>) -> PhpVal {
    PhpVal::Array(pairs.into_iter().map(|(k, v)| (k, PhpVal::Long(v))).collect())
}

#[test]
fn list_round_trip_keeps_order() {
    let make = || long_list(vec![(ArrayKey::Int(0), 1), (ArrayKey::Int(1), 2), (ArrayKey::Int(2), 3)]);
    assert_eq!(round_trip(&make()), make());
}

#[test]
fn list_round_trip_keeps_sparse_keys() {
    let make = || long_list(vec![(ArrayKey::Int(0), 1), (ArrayKey::Int(3), 2), (ArrayKey::Int(6), 3)]);
    assert_eq!(round_trip(&make()), make());
}

#[test]
fn list_round_trip_keeps_mixed_keys() {
    let make = || {
        long_list(vec![
            (ArrayKey::Int(0), 1),
            (ArrayKey::String("foo".to_string()), 2),
            (ArrayKey::String("bar".to_string()), 3),
        ])
    };
    assert_eq!(round_trip(&make()), make());
}

#[test]
fn nested_list_round_trip_drops_holes() {
    let inner = PhpVal::Array(vec![
        (ArrayKey::Int(0), PhpVal::Long(1)),
        (ArrayKey::Int(1), PhpVal::Undef),
        (ArrayKey::Int(2), PhpVal::Null),
    ]);
    let v = PhpVal::Array(vec![
        (ArrayKey::String("inner".to_string()), inner),
        (ArrayKey::Int(7), PhpVal::Undef),
        (ArrayKey::Int(8), PhpVal::String("".to_string())),
    ]);
    let expected = PhpVal::Array(vec![
        (
            ArrayKey::String("inner".to_string()),
            PhpVal::Array(vec![
                (ArrayKey::Int(0), PhpVal::Long(1)),
                (ArrayKey::Int(2), PhpVal::Null),
            ]),
        ),
        (ArrayKey::Int(8), PhpVal::String("".to_string())),
    ]);
    let once = round_trip(&v);
    assert_eq!(once, expected);
    assert_eq!(round_trip(&once), expected);
}

#[test]
fn scalars_round_trip() {
    for v in vec![
        PhpVal::Long(i64::MIN),
        PhpVal::Long(-1),
        PhpVal::Double((-0.5f64).to_bits()),
        PhpVal::Null,
        PhpVal::Undef,
        PhpVal::String("héllo wörld".to_string()),
    ] {
        let back = round_trip(&v);
        assert_eq!(back, v);
    }
}

#[test]
fn map_is_sorted_whatever_the_order() {
    let a = PhpVal::from_map(vec![
        (ArrayKey::Int(0), PhpVal::Long(1)),
        (ArrayKey::Int(3), PhpVal::Long(2)),
        (ArrayKey::Int(6), PhpVal::Long(3)),
    ]);
    let b = PhpVal::from_map(vec![
        (ArrayKey::Int(6), PhpVal::Long(3)),
        (ArrayKey::Int(3), PhpVal::Long(2)),
        (ArrayKey::Int(0), PhpVal::Long(1)),
    ]);
    let expected = long_list(vec![(ArrayKey::Int(0), 1), (ArrayKey::Int(3), 2), (ArrayKey::Int(6), 3)]);
    assert_eq!(a, expected);
    assert_eq!(b, expected);
}

#[test]
fn map_puts_string_keys_first() {
    let v = PhpVal::from_map(vec![
        (ArrayKey::Int(1), PhpVal::Long(1)),
        (ArrayKey::String("b".to_string()), PhpVal::Long(2)),
        (ArrayKey::String("a".to_string()), PhpVal::Long(3)),
        (ArrayKey::String("ab".to_string()), PhpVal::Long(4)),
    ]);
    let expected = long_list(vec![
        (ArrayKey::String("a".to_string()), 3),
        (ArrayKey::String("ab".to_string()), 4),
        (ArrayKey::String("b".to_string()), 2),
        (ArrayKey::Int(1), 1),
    ]);
    assert_eq!(v, expected);
    assert!(ArrayKey::String("zz".to_string()).less_than(&ArrayKey::Int(0)));
    assert!(!ArrayKey::Int(0).less_than(&ArrayKey::String("zz".to_string())));
}

#[test]
fn too_many_arguments() {
    let params = vec![ParamType { native: NativeType::Bool, optional: false }];
    let r = bind_arguments(&params, vec![PhpVal::Bool(true), PhpVal::Bool(false)]);
    assert_eq!(r, Err(ArgError::TooManyArguments { expected: 1, got: 2 }));
}

#[test]
fn missing_required_argument_fails_its_cast() {
    let params = vec![ParamType { native: NativeType::Bool, optional: false }];
    let r = bind_arguments(&params, vec![]);
    assert_eq!(r, Err(ArgError::CastError(CastError { actual: ZValType::Undef })));
}

#[test]
fn missing_optional_argument_is_absent() {
    let params = vec![ParamType { native: NativeType::Bool, optional: true }];
    let r = bind_arguments(&params, vec![]).unwrap();
    assert_eq!(r, vec![PhpVal::Undef]);
    assert_eq!(cast_option_bool(&r[0]), Ok(None));
}

#[test]
fn first_rejected_parameter_is_reported() {
    let params = vec![
        ParamType { native: NativeType::Long, optional: false },
        ParamType { native: NativeType::String, optional: false },
        ParamType { native: NativeType::Double, optional: false },
    ];
    let r = bind_arguments(&params, vec![PhpVal::Long(1), PhpVal::Bool(true), PhpVal::Null]);
    assert_eq!(r, Err(ArgError::CastError(CastError { actual: ZValType::True })));
    let any = ParamType { native: NativeType::Value, optional: false };
    assert_eq!(check_param(any, &PhpVal::Resource(3)), Ok(()));
}

#[test]
fn optional_bool_leniency() {
    assert_eq!(cast_option_bool(&PhpVal::Null), Ok(None));
    assert_eq!(cast_option_bool(&PhpVal::Undef), Ok(None));
    assert_eq!(cast_option_bool(&PhpVal::Bool(true)), Ok(Some(true)));
    assert_eq!(
        cast_option_bool(&PhpVal::Long(17)),
        Err(CastError { actual: ZValType::Long })
    );
    assert_eq!(
        cast_option_bool(&PhpVal::String("true".to_string())),
        Err(CastError { actual: ZValType::String })
    );
    assert_eq!(cast_bool(&PhpVal::Null), Err(CastError { actual: ZValType::Null }));
}

#[test]
fn integer_casts_truncate() {
    assert_eq!(cast_i64(&PhpVal::Long(-5)), Ok(-5));
    assert_eq!(cast_i32(&PhpVal::Long(1 << 32 | 7)), Ok(7));
    assert_eq!(cast_i16(&PhpVal::Long(65535)), Ok(-1));
    assert_eq!(cast_i8(&PhpVal::Long(300)), Ok(44));
    assert_eq!(cast_u64(&PhpVal::Long(-1)), Ok(u64::MAX));
    assert_eq!(cast_u32(&PhpVal::Long(-1)), Ok(u32::MAX));
    assert_eq!(cast_u16(&PhpVal::Long(70000)), Ok(4464));
    assert_eq!(cast_u8(&PhpVal::Long(256)), Ok(0));
    assert_eq!(
        cast_i64(&PhpVal::Double(1.0f64.to_bits())),
        Err(CastError { actual: ZValType::Double })
    );
    assert_eq!(cast_option_i64(&PhpVal::Null), Ok(None));
}

#[test]
fn other_casts() {
    assert_eq!(cast_f64_bits(&PhpVal::Double(2.5f64.to_bits())), Ok(2.5f64.to_bits()));
    assert_eq!(cast_f64_bits(&PhpVal::Long(2)), Err(CastError { actual: ZValType::Long }));
    assert_eq!(cast_string(&PhpVal::String("x".to_string())), Ok("x".to_string()));
    assert_eq!(
        cast_string(&PhpVal::Array(vec![])),
        Err(CastError { actual: ZValType::Array })
    );
    assert_eq!(cast_option_string(&PhpVal::Undef), Ok(None));
    assert_eq!(cast_bool(&PhpVal::Bool(false)), Ok(false));
}

#[test]
fn cast_error_message() {
    let e = CastError { actual: ZValType::Long };
    assert_eq!(e.message(), "Incorrect variable type, got long");
    assert_eq!(ArgError::from(e), ArgError::CastError(e));
}

#[test]
fn holes_are_dropped_when_decoding() {
    let mut m = new_memory();
    let data = m.len() as u64;
    // bucket 0: 10 under key 0
    write_u64(&mut m, 10);
    write_u64(&mut m, 4);
    write_u64(&mut m, 0);
    write_u64(&mut m, 0);
    // bucket 1: a deleted slot
    write_u64(&mut m, 0);
    write_u64(&mut m, 0);
    write_u64(&mut m, 1);
    write_u64(&mut m, 0);
    // bucket 2: 30 under key 2
    write_u64(&mut m, 30);
    write_u64(&mut m, 4);
    write_u64(&mut m, 2);
    write_u64(&mut m, 0);
    let p = m.len() as u64;
    write_u32(&mut m, 1);
    write_u32(&mut m, 7);
    write_u32(&mut m, 0);
    write_u32(&mut m, 0);
    write_u64(&mut m, data);
    write_u32(&mut m, 3);
    write_u32(&mut m, 2);
    let entries = parse_zend_array(&m, p, MAX_DEPTH).unwrap();
    assert_eq!(
        entries,
        vec![(ArrayKey::Int(0), PhpVal::Long(10)), (ArrayKey::Int(2), PhpVal::Long(30))]
    );
    let cell = ZVal { value: p, type_tag: 7 };
    assert_eq!(cell.as_php_val(&m), PhpVal::Array(entries));
}

#[test]
fn unreadable_memory_decodes_as_undef() {
    let m = new_memory();
    assert_eq!(ZVal { value: 1000, type_tag: 6 }.as_php_val(&m), PhpVal::Undef);
    assert_eq!(ZVal { value: 1000, type_tag: 7 }.as_php_val(&m), PhpVal::Undef);
    assert_eq!(ZVal { value: 0, type_tag: 8 }.as_php_val(&m), PhpVal::Undef);
    assert_eq!(ZVal { value: 5, type_tag: 4 }.as_php_val(&m), PhpVal::Long(5));
    assert_eq!(ZVal { value: 0, type_tag: 3 }.as_php_val(&m), PhpVal::Bool(true));
}

#[test]
fn invalid_utf8_string_is_refused() {
    let mut m = new_memory();
    let p = m.len() as u64;
    write_u32(&mut m, 1);
    write_u32(&mut m, 6);
    write_u64(&mut m, 0);
    write_u64(&mut m, 2);
    write_bytes(&mut m, &[0xff, 0xfe]);
    assert_eq!(parse_zend_string(&m, p), None);
    assert_eq!(ZVal { value: p, type_tag: 6 }.as_php_val(&m), PhpVal::Undef);
}

#[test]
fn strings_are_written_with_header() {
    let mut m = new_memory();
    let p = construct_zend_string(&mut m, "abc");
    assert_eq!(p, 8);
    assert_eq!(read_u32(&m, p), Some(1));
    assert_eq!(read_u64(&m, p + 16), Some(3));
    assert_eq!(&m[(p as usize + 24)..], b"abc");
    assert_eq!(parse_zend_string(&m, p), Some("abc".to_string()));
}

#[test]
fn string_keys_get_their_hash() {
    assert_eq!(hash_djbx33a(b"foo"), 9223372037048267657);
    assert_eq!(hash_djbx33a(b""), 9223372036854781189);
    let mut m = new_memory();
    let v = long_list(vec![(ArrayKey::String("foo".to_string()), 1)]);
    let cell = ZVal::from_php_val(&mut m, &v);
    assert_eq!(cell.type_tag, 7);
    let data = read_u64(&m, cell.value + 16).unwrap();
    assert_eq!(read_u32(&m, cell.value + 24), Some(1));
    assert_eq!(read_u64(&m, data + 16), Some(9223372037048267657));
}

#[test]
fn unsupported_values_are_not_encoded() {
    let mut m = new_memory();
    let before = m.clone();
    assert_eq!(
        ZVal::try_from_php_val(&mut m, &PhpVal::Resource(1)),
        Err(EncodeError::Unsupported { actual: ZValType::Resource })
    );
    let nested = PhpVal::Array(vec![
        (ArrayKey::Int(0), PhpVal::String("kept".to_string())),
        (ArrayKey::Int(1), PhpVal::Object(HashMap::new())),
    ]);
    assert_eq!(
        ZVal::try_from_php_val(&mut m, &nested),
        Err(EncodeError::Unsupported { actual: ZValType::Array })
    );
    assert_eq!(ZVal::try_from_php_val(&mut m, &PhpVal::Reference()).is_err(), true);
    assert_eq!(m, before);
}

#[test]
fn call_frame_arguments() {
    let mut m = new_memory();
    let s = construct_zend_string(&mut m, "hi");
    while m.len() % 16 != 0 {
        m.push(0);
    }
    let frame = m.len() as u64;
    m.resize(m.len() + 80, 0);
    m[frame as usize + 44..frame as usize + 48].copy_from_slice(&2u32.to_le_bytes());
    write_u64(&mut m, 42);
    write_u64(&mut m, 4);
    write_u64(&mut m, s);
    write_u64(&mut m, 6);
    let data = ExecuteData { frame };
    assert_eq!(data.num_args(&m), Some(2));
    assert_eq!(data.get_arg(&m, 0), Some(ZVal { value: 42, type_tag: 4 }));
    assert_eq!(
        data.args(&m),
        Some(vec![PhpVal::Long(42), PhpVal::String("hi".to_string())])
    );
    assert_eq!(ExecuteData { frame: 10_000 }.args(&m), None);
}

#[test]
fn type_tags_and_names() {
    assert_eq!(ZValType::Array.tag(), 7);
    assert_eq!(ZValType::Error.tag(), 15);
    assert_eq!(ZValType::from_tag(4), Some(ZValType::Long));
    assert_eq!(ZValType::from_tag(11), None);
    assert_eq!(ZValType::True.name(), "bool");
    assert_eq!(ZValType::ConstantAST.name(), "constant ast");
    assert_eq!(PhpVal::Bool(false).get_type(), ZValType::False);
    assert_eq!(PhpVal::Object(HashMap::new()).get_type(), ZValType::Object);
    assert_eq!(ZVal { value: 0, type_tag: 9 }.get_type(), Some(ZValType::Resource));
}

#[test]
fn registry_keeps_registration_order() {
    let mut cache = FunctionCache::new();
    cache_function(
        &mut cache,
        FunctionDefinition { name: "first".to_string(), handler: 0x10, args: vec![] },
    );
    cache_function(
        &mut cache,
        FunctionDefinition {
            name: "second".to_string(),
            handler: 0x20,
            args: vec![ArgumentDefinition { name: "x".to_string(), is_ref: true }],
        },
    );
    let fs = get_functions(&cache);
    assert_eq!(fs.len(), 2);
    assert_eq!(fs[0].name, "first");
    assert_eq!(fs[1].name, "second");
    assert_eq!(fs[1].args[0].name, "x");
    assert!(fs[1].args[0].is_ref);
}

#[test]
fn function_table_and_module() {
    let metas = vec![
        FunctionMeta { name: "no_args".to_string(), func: 0x1000, args: vec![] },
        FunctionMeta {
            name: "two_args".to_string(),
            func: 0x2000,
            args: vec![
                ArgInfo::new("a".to_string(), ZValType::Long, false, false, false),
                ArgInfo::new("b".to_string(), ZValType::Bool, true, false, true),
            ],
        },
    ];
    let table = get_funcs(&metas);
    assert_eq!(table.len(), 3);
    assert_eq!(table[0].fname, "no_args");
    assert_eq!(table[0].num_args, 0);
    assert_eq!(table[1].handler, 0x2000);
    assert_eq!(table[1].num_args, 2);
    assert_eq!(table[1].arg_info.len(), 3);
    assert_eq!(table[1].arg_info[0].required_num_args, 2);
    assert_eq!(table[1].arg_info[0].name, "");
    assert_eq!(table[1].arg_info[1].name, "a");
    assert_eq!(table[1].arg_info[2].name, "b");
    assert!(table[1].arg_info[2].allow_null);
    assert!(table[1].arg_info[2].pass_by_reference);
    assert_eq!(table[1].arg_info[2].required_num_args, 0);
    assert_eq!(table[0].arg_info.len(), 0);
    assert_eq!(table[2].fname, "");
    assert_eq!(table[2].handler, 0);

    let mut module = ModuleInternal::new("tests".to_string(), "0.0.1".to_string());
    assert_eq!(module.zend_api, 20180731);
    assert_eq!(module.build_id, "API20180731,NTS");
    module.set_info_func(0x3000);
    assert_eq!(module.info_func, Some(0x3000));
    module.set_functions(vec![Function::new("f".to_string(), 0x4000)]);
    assert_eq!(module.functions.len(), 2);
    assert_eq!(module.functions[1].fname, "");
    module.set_functions(get_funcs(&metas));
    assert_eq!(module.functions.len(), 3);
}

#[test]
fn arg_error_messages() {
    let e = ArgError::TooManyArguments { expected: 1, got: 12 };
    assert_eq!(e.message(), "unexpected number of arguments, expected 1, got 12");
    let e = ArgError::CastError(CastError { actual: ZValType::Null });
    assert_eq!(e.message(), "Incorrect variable type, got null");
}

#[test]
fn encoded_cells_carry_their_type_tag() {
    let mut m = new_memory();
    let cases = vec![
        (PhpVal::Undef, 0u8),
        (PhpVal::Null, 1),
        (PhpVal::Bool(false), 2),
        (PhpVal::Bool(true), 3),
        (PhpVal::Long(-2), 4),
        (PhpVal::Double(0.5f64.to_bits()), 5),
        (PhpVal::String("s".to_string()), 6),
        (PhpVal::Array(vec![]), 7),
    ];
    for (v, tag) in cases {
        assert_eq!(ZVal::from_php_val(&mut m, &v).type_tag, tag);
    }
    assert_eq!(ZVal::from_php_val(&mut m, &PhpVal::Long(-2)).value, u64::MAX - 1);
}

#[test]
fn encoded_string_is_new_with_one_reference() {
    let mut m = new_memory();
    let before = m.len() as u64;
    let cell = ZVal::from_php_val(&mut m, &PhpVal::String("héllo".to_string()));
    assert_eq!(cell.value, before);
    assert_eq!(read_u32(&m, cell.value), Some(1));
    assert_eq!(read_u64(&m, cell.value + 16), Some(6));
    assert_eq!(&m[(cell.value as usize + 24)..], "héllo".as_bytes());
}

#[test]
fn encoded_table_header() {
    let mut m = new_memory();
    let v = long_list((0..10).map(|i| (ArrayKey::Int(i * 2), i as i64)).collect());
    let cell = ZVal::from_php_val(&mut m, &v);
    let p = cell.value;
    assert_eq!(read_u32(&m, p), Some(1));
    assert_eq!(read_u32(&m, p + 4), Some(7));
    assert_eq!(read_u32(&m, p + 24), Some(10));
    assert_eq!(read_u32(&m, p + 28), Some(10));
    assert_eq!(read_u32(&m, p + 32), Some(10));
    let data = read_u64(&m, p + 16).unwrap();
    assert_eq!(read_u64(&m, data + 32 * 3 + 16), Some(6));
    assert_eq!(read_u64(&m, data + 32 * 3 + 24), Some(0));
    let small = ZVal::from_php_val(&mut m, &long_list(vec![(ArrayKey::Int(0), 1)]));
    assert_eq!(read_u32(&m, small.value + 32), Some(8));
}

#[test]
fn too_deep_values_are_refused() {
    let mut v = PhpVal::Long(1);
    for _ in 0..257 {
        v = PhpVal::Array(vec![(ArrayKey::Int(0), v)]);
    }
    assert!(!check_within_limits(&v, 256));
    let mut m = new_memory();
    assert_eq!(ZVal::try_from_php_val(&mut m, &v), Err(EncodeError::TooLarge));
    assert_eq!(m.len(), 8);
    if let PhpVal::Array(mut es) = v {
        let inner = es.pop().unwrap().1;
        assert!(check_within_limits(&inner, 256));
        let cell = ZVal::try_from_php_val(&mut m, &inner).unwrap();
        assert_eq!(cell.as_php_val(&m), inner);
    }
}

#[test]
fn module_descriptor_starts_empty() {
    let module = ModuleInternal::new("m".to_string(), "1".to_string());
    assert_eq!(module.size, MODULE_ENTRY_SIZE);
    assert_eq!(module.size, 168);
    assert_eq!(module.ini_entry, 0);
    assert_eq!(module.request_startup_func, None);
    assert_eq!(module.globals_size, 0);
    assert_eq!(module.globals_ctor, None);
    assert_eq!(module.post_deactivate_func, None);
    assert_eq!(module.module_number, 0);
    assert_eq!(module.handle, 0);
}

#[test]
fn module_built_from_registered_functions() {
    let mut cache = FunctionCache::new();
    cache_function(
        &mut cache,
        FunctionDefinition { name: "ping".to_string(), handler: 0x100, args: vec![] },
    );
    cache_function(
        &mut cache,
        FunctionDefinition {
            name: "swap".to_string(),
            handler: 0x200,
            args: vec![
                ArgumentDefinition { name: "a".to_string(), is_ref: true },
                ArgumentDefinition { name: "b".to_string(), is_ref: false },
            ],
        },
    );
    let module = build_module("ext".to_string(), "0.1".to_string(), &cache);
    assert_eq!(module.name, "ext");
    assert_eq!(module.version, "0.1");
    assert_eq!(module.size, MODULE_ENTRY_SIZE);
    assert_eq!(module.functions.len(), 3);
    assert_eq!(module.functions[0].fname, "ping");
    assert_eq!(module.functions[0].handler, 0x100);
    assert_eq!(module.functions[0].arg_info.len(), 0);
    let swap = &module.functions[1];
    assert_eq!(swap.fname, "swap");
    assert_eq!(swap.num_args, 2);
    assert_eq!(swap.arg_info.len(), 3);
    assert_eq!(swap.arg_info[0].required_num_args, 2);
    assert_eq!(swap.arg_info[1].name, "a");
    assert!(swap.arg_info[1].pass_by_reference);
    assert_eq!(swap.arg_info[2].name, "b");
    assert!(!swap.arg_info[2].pass_by_reference);
    assert_eq!(module.functions[2].fname, "");
    assert_eq!(module.functions[2].handler, 0);
}

#[test]
fn count_entry_and_fresh_memory() {
    let count = ArgInfo::arg_count(4);
    assert_eq!(count.required_num_args, 4);
    assert_eq!(count.name, "");
    assert_eq!(count.type_hint, ZValType::Undef);
    assert_eq!(new_memory(), vec![0u8; 8]);
    let mut module = ModuleInternal::new("m".to_string(), "1".to_string());
    module.set_startup_func(7);
    assert_eq!(module.module_startup_func, Some(7));
    assert_eq!(module.name, "m");
    assert_eq!(module.info_func, None);
}
