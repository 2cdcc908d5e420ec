use ivory::array::new_memory;
use ivory::call::{bind_arguments, NativeType, ParamType};
use ivory::cast::cast_option_bool;
use ivory::string::construct_zend_string;
use ivory::zval::ZVal;
use ivory::{ArgError, ArrayKey, CastError, PhpVal};

/// Decodes `cell` from `memory`, as the call boundary reads an argument.
fn dump_arg(memory: &Vec<u8>, cell: ZVal) -> PhpVal {
    cell.as_php_val(memory)
}

/// Lays `v` out in a fresh foreign memory, as the engine would pass it.
fn pass(v: &PhpVal) -> (Vec<u8>, ZVal) {
    let mut memory = new_memory();
    let cell = ZVal::from_php_val(&mut memory, v);
    (memory, cell)
}

#[test]
fn zval_parsing() {
    let memory = new_memory();
    assert_eq!(dump_arg(&memory, ZVal { value: 1, type_tag: 4 }), PhpVal::Long(1));
    assert_eq!(
        dump_arg(&memory, ZVal { value: 1.1f64.to_bits(), type_tag: 5 }),
        PhpVal::Double(1.1f64.to_bits())
    );
    assert_eq!(dump_arg(&memory, ZVal { value: 0, type_tag: 3 }), PhpVal::Bool(true));
    assert_eq!(dump_arg(&memory, ZVal { value: 0, type_tag: 2 }), PhpVal::Bool(false));
    assert_eq!(dump_arg(&memory, ZVal { value: 0, type_tag: 1 }), PhpVal::Null);

    for text in ["test", "longer_string_to_cover_some_more_bytes"] {
        let mut memory = new_memory();
        let p = construct_zend_string(&mut memory, text);
        assert_eq!(
            dump_arg(&memory, ZVal { value: p, type_tag: 6 }),
            PhpVal::String(text.to_string())
        );
    }

    let cases: Vec<PhpVal> = vec![
        PhpVal::from_list(vec![1.into(), 2.into(), 3.into()]),
        PhpVal::from_list(vec![PhpVal::Long(1), PhpVal::Long(2), PhpVal::String("foo".into())]),
        PhpVal::from(vec![
            (ArrayKey::from(0u64), PhpVal::from(1)),
            (ArrayKey::from(1u64), PhpVal::from(2)),
            (ArrayKey::from(4u64), PhpVal::from(3)),
        ]),
        PhpVal::from(vec![
            (ArrayKey::from(0u64), PhpVal::from(1)),
            (ArrayKey::from(1u64), PhpVal::from(2)),
            (ArrayKey::from("foo".to_string()), PhpVal::from(3)),
        ]),
    ];
    for expected in cases {
        let (memory, cell) = pass(&expected);
        assert_eq!(dump_arg(&memory, cell), expected);
    }
}

/// Calls a function declared as `expect_option_bool(arg: Option<bool>)`.
fn expect_option_bool(args: Vec<PhpVal>) -> Result<Option<bool>, ArgError> {
    let params = vec![ParamType { native: NativeType::Bool, optional: true }];
    let args = bind_arguments(&params, args)?;
    Ok(cast_option_bool(&args[0])?)
}

#[test]
fn test_cast_option() {
    assert_eq!(expect_option_bool(vec![PhpVal::Bool(true)]), Ok(Some(true)));
    assert_eq!(
        expect_option_bool(vec![PhpVal::Long(17)]),
        Err(ArgError::CastError(CastError { actual: ivory::zval::ZValType::Long }))
    );
    assert_eq!(expect_option_bool(vec![PhpVal::Null]), Ok(None));
    assert_eq!(expect_option_bool(vec![]), Ok(None));
}
