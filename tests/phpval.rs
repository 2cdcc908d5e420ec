use ivory::array::new_memory;
use ivory::zval::ZVal;
use ivory::{ArrayKey, PhpVal};

fn cast_into_php_val_cases() {
    assert_eq!(PhpVal::Long(1), 1.into());
    assert_eq!(PhpVal::String("foo".to_string()), "foo".to_string().into());
    assert_eq!(PhpVal::Bool(true), true.into());
    assert_eq!(PhpVal::Bool(false), false.into());
    assert_eq!(
        PhpVal::Array(vec![
            (ArrayKey::Int(0), PhpVal::Long(1)),
            (ArrayKey::Int(1), PhpVal::Long(2)),
            (ArrayKey::Int(2), PhpVal::Long(3))
        ]),
        PhpVal::from_list(vec![1.into(), 2.into(), 3.into()])
    );
    assert_eq!(
        PhpVal::Array(vec![
            (ArrayKey::Int(0), PhpVal::Long(1)),
            (ArrayKey::Int(1), PhpVal::Double(2.1f64.to_bits())),
            (ArrayKey::Int(2), PhpVal::String("3".to_string()))
        ]),
        PhpVal::from_list(vec![
            PhpVal::Long(1),
            PhpVal::Double(2.1f64.to_bits()),
            PhpVal::String("3".to_string())
        ])
    );
    assert_eq!(
        PhpVal::Array(vec![
            (ArrayKey::Int(0), PhpVal::Long(1)),
            (ArrayKey::Int(3), PhpVal::Long(2)),
            (ArrayKey::Int(6), PhpVal::Long(3))
        ]),
        PhpVal::from(vec![
            (ArrayKey::from(0u8), PhpVal::from(1)),
            (ArrayKey::from(3u8), PhpVal::from(2)),
            (ArrayKey::from(6u8), PhpVal::from(3))
        ])
    );
}

#[test]
fn phpval_cast_into_php_val() {
    cast_into_php_val_cases();
    assert_eq!(
        PhpVal::Array(vec![
            (ArrayKey::String("asd".to_string()), PhpVal::Long(1)),
            (ArrayKey::String("foo".to_string()), PhpVal::Long(2)),
            (ArrayKey::String("bar".to_string()), PhpVal::Long(3))
        ]),
        PhpVal::from(vec![
            (ArrayKey::from("asd".to_string()), PhpVal::from(1)),
            (ArrayKey::from("foo".to_string()), PhpVal::from(2)),
            (ArrayKey::from("bar".to_string()), PhpVal::from(3))
        ])
    );
    assert_eq!(
        PhpVal::Array(vec![
            (ArrayKey::Int(0), PhpVal::Long(1)),
            (ArrayKey::Int(3), PhpVal::Long(2)),
            (ArrayKey::String("foo".to_string()), PhpVal::Long(3))
        ]),
        PhpVal::from(vec![
            (ArrayKey::Int(0), PhpVal::from(1)),
            (ArrayKey::Int(3), PhpVal::from(2)),
            (ArrayKey::String("foo".to_string()), PhpVal::from(3))
        ])
    );
    assert_eq!(
        PhpVal::Array(vec![
            (ArrayKey::Int(0), PhpVal::Long(1)),
            (ArrayKey::Int(3), PhpVal::Long(2)),
            (ArrayKey::Int(6), PhpVal::Long(3))
        ]),
        PhpVal::from_map(vec![
            (ArrayKey::from(6u8), PhpVal::from(3)),
            (ArrayKey::from(0u8), PhpVal::from(1)),
            (ArrayKey::from(3u8), PhpVal::from(2))
        ])
    );
}

#[test]
fn tests_cast_into_php_val() {
    cast_into_php_val_cases();
    assert_eq!(
        PhpVal::Array(vec![
            (ArrayKey::Int(0), PhpVal::Long(1)),
            (ArrayKey::Int(3), PhpVal::Long(2)),
            (ArrayKey::String("foo".to_string()), PhpVal::Long(3))
        ]),
        PhpVal::from(vec![
            (ArrayKey::Int(0), PhpVal::from(1)),
            (ArrayKey::Int(3), PhpVal::from(2)),
            (ArrayKey::String("foo".to_string()), PhpVal::from(3))
        ])
    );
    assert_eq!(
        PhpVal::Array(vec![
            (ArrayKey::Int(0), PhpVal::Long(1)),
            (ArrayKey::Int(3), PhpVal::Long(2)),
            (ArrayKey::Int(6), PhpVal::Long(3))
        ]),
        PhpVal::from_map(vec![
            (ArrayKey::from(3u8), PhpVal::from(2)),
            (ArrayKey::from(6u8), PhpVal::from(3)),
            (ArrayKey::from(0u8), PhpVal::from(1))
        ])
    );
}

fn round_trip_values() -> Vec<PhpVal> {
    vec![
        1.into(),
        PhpVal::Double((0.2f64).to_bits()),
        true.into(),
        false.into(),
        "foo".to_string().into(),
    ]
}

#[test]
fn cast_into_php_val_round_trip() {
    let originals = round_trip_values();
    for (i, original) in round_trip_values().into_iter().enumerate() {
        let mut memory = new_memory();
        let first_cast: ZVal = ZVal::from_php_val(&mut memory, &original);
        let cast_back: PhpVal = first_cast.as_php_val(&memory);
        assert_eq!(originals[i], cast_back);

        // the first round trip should cast back into the same round trip
        let second_cast: ZVal = ZVal::from_php_val(&mut memory, &cast_back);
        let cast_back: PhpVal = second_cast.as_php_val(&memory);
        assert_eq!(originals[i], cast_back);
    }
}
