//! Behavioural checks of the conversion rules, the error texts, and the
//! edge cases of parsing and formatting.

use columnar_cast::array::ArrayRef;
use columnar_cast::builder::{
    new_bool_array, new_float_array, new_int_array, new_list_array, new_struct_array,
    new_utf8_array,
};
use columnar_cast::cast;
use columnar_cast::error::CastError;
use columnar_cast::types::{LogicalType, TimeUnit};

fn expect_err(r: Result<ArrayRef, CastError>) -> CastError {
    match r {
        Err(e) => e,
        Ok(_) => panic!("expected an error"),
    }
}

fn utf8_array(rows: Vec<Option<&str>>) -> ArrayRef {
    new_utf8_array(rows.into_iter().map(|r| r.map(|s| s.as_bytes().to_vec())).collect()).unwrap()
}

#[test]
fn identity_cast_shares_the_source() {
    let a = new_bool_array(vec![Some(true), None, Some(false)]).unwrap();
    let b = cast(&a, &LogicalType::Boolean).unwrap();
    assert_eq!(a.length(), b.length());
    assert_eq!(a.null_count(), b.null_count());
    for i in 0..a.length() {
        assert_eq!(a.is_valid(i), b.is_valid(i));
        if a.is_valid(i) {
            assert_eq!(a.value_bool(i), b.value_bool(i));
        }
    }
}

#[test]
fn identity_cast_of_floats_is_bit_identical() {
    let bits = vec![
        Some((1.5f64).to_bits()),
        Some((-0.0f64).to_bits()),
        Some(f64::NAN.to_bits()),
        None,
    ];
    let a = new_float_array(LogicalType::Float64, bits.clone()).unwrap();
    let b = cast(&a, &LogicalType::Float64).unwrap();
    for i in 0..a.length() {
        assert_eq!(a.is_valid(i), b.is_valid(i));
        if let Some(expected) = bits[i] {
            assert_eq!(expected, b.value_float_bits(i));
        }
    }
}

#[test]
fn identity_cast_of_nested_list() {
    let child = new_int_array(LogicalType::Int32, vec![Some(1), None, Some(3)]).unwrap();
    let list = new_list_array(LogicalType::Int32, 2, vec![0, 1, 3], child, None, 0).unwrap();
    let target = LogicalType::List(Box::new(LogicalType::Int32));
    let b = cast(&list, &target).unwrap();
    assert_eq!(2, b.length());
    assert_eq!(LogicalType::Int32, b.value_type());
    assert_eq!(0, b.value_offset(0));
    assert_eq!(1, b.value_offset(1));
    assert_eq!(2, b.value_length(1));
    let values = b.list_values();
    assert_eq!(1, values.value_int(0));
    assert_eq!(false, values.is_valid(1));
    assert_eq!(3, values.value_int(2));
}

#[test]
fn nulls_survive_every_elementwise_converter() {
    let int_src = new_int_array(LogicalType::Int64, vec![Some(7), None]).unwrap();
    let bool_src = new_bool_array(vec![Some(true), None]).unwrap();
    let text_src = utf8_array(vec![Some("7"), None]);
    let float_src =
        new_float_array(LogicalType::Float64, vec![Some((7.0f64).to_bits()), None]).unwrap();

    for target in [
        LogicalType::Int8,
        LogicalType::UInt64,
        LogicalType::Boolean,
        LogicalType::Utf8,
    ] {
        let out = cast(&int_src, &target).unwrap();
        assert!(out.is_valid(0));
        assert!(out.is_null(1));
    }
    for target in [LogicalType::Int32, LogicalType::Float32, LogicalType::Utf8] {
        let out = cast(&bool_src, &target).unwrap();
        assert!(out.is_valid(0));
        assert!(out.is_null(1));
    }
    let out = cast(&text_src, &LogicalType::Int16).unwrap();
    assert!(out.is_valid(0));
    assert!(out.is_null(1));
    let out = cast(&float_src, &LogicalType::Boolean).unwrap();
    assert!(out.is_valid(0));
    assert!(out.is_null(1));
}

#[test]
fn numeric_to_bool_distinguishes_only_zero() {
    let a = new_int_array(
        LogicalType::Int32,
        vec![Some(0), Some(1), Some(-5), None],
    )
    .unwrap();
    let c = cast(&a, &LogicalType::Boolean).unwrap();
    assert_eq!(false, c.value_bool(0));
    assert_eq!(true, c.value_bool(1));
    assert_eq!(true, c.value_bool(2));
    assert!(c.is_null(3));
}

#[test]
fn float_to_bool_ignores_the_sign_of_zero() {
    let bits = vec![
        Some((0.0f64).to_bits()),
        Some((-0.0f64).to_bits()),
        Some((2.5f64).to_bits()),
        Some(f64::NAN.to_bits()),
        None,
    ];
    let a = new_float_array(LogicalType::Float64, bits).unwrap();
    let c = cast(&a, &LogicalType::Boolean).unwrap();
    assert_eq!(false, c.value_bool(0));
    assert_eq!(false, c.value_bool(1));
    assert_eq!(true, c.value_bool(2));
    assert_eq!(true, c.value_bool(3));
    assert!(c.is_null(4));
}

#[test]
fn f32_to_bool_and_bool_to_f32() {
    let bits = vec![
        Some((0.0f32).to_bits() as u64),
        Some((-0.0f32).to_bits() as u64),
        Some((3.5f32).to_bits() as u64),
    ];
    let a = new_float_array(LogicalType::Float32, bits).unwrap();
    let c = cast(&a, &LogicalType::Boolean).unwrap();
    assert_eq!(false, c.value_bool(0));
    assert_eq!(false, c.value_bool(1));
    assert_eq!(true, c.value_bool(2));

    let b = new_bool_array(vec![Some(true), Some(false)]).unwrap();
    let f = cast(&b, &LogicalType::Float32).unwrap();
    assert_eq!((1.0f32).to_bits() as u64, f.value_float_bits(0));
    assert_eq!((0.0f32).to_bits() as u64, f.value_float_bits(1));
}

#[test]
fn bool_to_text_writes_single_digits() {
    let a = new_bool_array(vec![Some(true), Some(false), None]).unwrap();
    let c = cast(&a, &LogicalType::Utf8).unwrap();
    assert_eq!(b"1".to_vec(), c.value_bytes(0));
    assert_eq!(b"0".to_vec(), c.value_bytes(1));
    assert!(c.is_null(2));
    assert_eq!(0, c.value_bytes(2).len());
}

#[test]
fn integers_format_as_plain_decimal() {
    let a = new_int_array(
        LogicalType::Int64,
        vec![
            Some(-5),
            Some(0),
            Some(12345),
            None,
            Some(i64::MIN as i128),
            Some(i64::MAX as i128),
        ],
    )
    .unwrap();
    let c = cast(&a, &LogicalType::Utf8).unwrap();
    assert_eq!(b"-5".to_vec(), c.value_bytes(0));
    assert_eq!(b"0".to_vec(), c.value_bytes(1));
    assert_eq!(b"12345".to_vec(), c.value_bytes(2));
    assert!(c.is_null(3));
    assert_eq!(b"-9223372036854775808".to_vec(), c.value_bytes(4));
    assert_eq!(b"9223372036854775807".to_vec(), c.value_bytes(5));
}

#[test]
fn text_parse_edges() {
    let a = utf8_array(vec![
        Some("+5"),
        Some("007"),
        Some("-0"),
        Some(""),
        Some("-"),
        Some("+"),
        Some("5 "),
        Some("99999999999999999999999999999"),
        Some("-128"),
        Some("128"),
    ]);
    let c = cast(&a, &LogicalType::Int8).unwrap();
    assert_eq!(5, c.value_int(0));
    assert_eq!(7, c.value_int(1));
    assert_eq!(0, c.value_int(2));
    assert!(c.is_null(3));
    assert!(c.is_null(4));
    assert!(c.is_null(5));
    assert!(c.is_null(6));
    assert!(c.is_null(7));
    assert_eq!(-128, c.value_int(8));
    assert!(c.is_null(9));
}

#[test]
fn unsigned_parse_refuses_a_minus_sign() {
    let a = utf8_array(vec![Some("-0"), Some("-5"), Some("0"), Some("255")]);
    let c = cast(&a, &LogicalType::UInt8).unwrap();
    assert!(c.is_null(0));
    assert!(c.is_null(1));
    assert_eq!(0, c.value_int(2));
    assert_eq!(255, c.value_int(3));
}

#[test]
fn text_parse_of_large_magnitudes() {
    let a = utf8_array(vec![
        Some("18446744073709551615"),
        Some("18446744073709551616"),
        Some("-18446744073709551615"),
        Some("9223372036854775807"),
        Some("-9223372036854775808"),
        Some("-9223372036854775809"),
    ]);
    let c = cast(&a, &LogicalType::UInt64).unwrap();
    assert_eq!(u64::MAX as i128, c.value_int(0));
    assert!(c.is_null(1));
    assert!(c.is_null(2));
    let d = cast(&a, &LogicalType::Int64).unwrap();
    assert!(d.is_null(0));
    assert!(d.is_null(1));
    assert!(d.is_null(2));
    assert_eq!(i64::MAX as i128, d.value_int(3));
    assert_eq!(i64::MIN as i128, d.value_int(4));
    assert!(d.is_null(5));
}

#[test]
fn invalid_bytes_parse_to_null() {
    let rows: Vec<Option<Vec<u8>>> = vec![
        Some(vec![0x35]),
        Some(vec![0x35, 0xff]),
        Some(vec![0xc3, 0x28]),
    ];
    let a = new_utf8_array(rows).unwrap();
    let c = cast(&a, &LogicalType::Int32).unwrap();
    assert_eq!(5, c.value_int(0));
    assert!(c.is_null(1));
    assert!(c.is_null(2));
}

#[test]
fn struct_casts_fail_in_both_directions() {
    let s = new_struct_array(3).unwrap();
    let err = expect_err(cast(&s, &LogicalType::Int32) );
    assert_eq!(CastError::StructSource, err);
    assert_eq!("Cannot cast from struct to other types", err.message());

    let a = new_int_array(LogicalType::Int32, vec![Some(1)]).unwrap();
    let err = expect_err(cast(&a, &LogicalType::Struct) );
    assert_eq!(CastError::StructTarget, err);
    assert_eq!("Cannot cast to struct from other types", err.message());
}

#[test]
fn list_to_non_list_fails() {
    let child = new_int_array(LogicalType::Int32, vec![Some(1), Some(2)]).unwrap();
    let list = new_list_array(LogicalType::Int32, 2, vec![0, 1, 2], child, None, 0).unwrap();
    let err = expect_err(cast(&list, &LogicalType::Int32) );
    assert_eq!(CastError::ListToNonList, err);
    assert_eq!("Cannot cast list to non-list data types", err.message());
}

#[test]
fn unsupported_pairs_name_both_types() {
    let a = utf8_array(vec![Some("x")]);
    let err = expect_err(cast(&a, &LogicalType::Boolean) );
    assert_eq!(
        CastError::Unsupported(LogicalType::Utf8, LogicalType::Boolean),
        err
    );
    assert_eq!("Casting from Utf8 to Boolean not supported", err.message());

    let child = new_int_array(LogicalType::UInt8, vec![Some(1)]).unwrap();
    let list = new_list_array(LogicalType::UInt8, 1, vec![0, 1], child, None, 0).unwrap();
    let err = expect_err(cast(&list, &LogicalType::Utf8) );
    assert_eq!("Cannot cast list to non-list data types", err.message());
    let bad_inner = LogicalType::List(Box::new(LogicalType::Struct));
    let err = expect_err(cast(&list, &bad_inner) );
    assert_eq!("Cannot cast to struct from other types", err.message());

    // a list of lists is reachable by promoting twice
    let nested = LogicalType::List(Box::new(LogicalType::List(Box::new(LogicalType::UInt8))));
    let flat = new_int_array(LogicalType::UInt8, vec![Some(1), Some(2)]).unwrap();
    let twice = cast(&flat, &nested).unwrap();
    assert_eq!(2, twice.length());
    assert_eq!(
        LogicalType::List(Box::new(LogicalType::UInt8)),
        twice.value_type()
    );
    let inner_list = twice.list_values();
    assert_eq!(2, inner_list.length());
    assert_eq!(1, inner_list.value_length(0));
    assert_eq!(2, inner_list.list_values().value_int(1));
}

#[test]
fn float_arithmetic_pairs_are_refused_here() {
    let ints = new_int_array(LogicalType::Int32, vec![Some(5)]).unwrap();
    let err = expect_err(cast(&ints, &LogicalType::Float64) );
    assert_eq!(
        CastError::Unsupported(LogicalType::Int32, LogicalType::Float64),
        err
    );
    assert_eq!("Casting from Int32 to Float64 not supported", err.message());

    let floats =
        new_float_array(LogicalType::Float32, vec![Some((2.0f32).to_bits() as u64)]).unwrap();
    let err = expect_err(cast(&floats, &LogicalType::Float64) );
    assert_eq!("Casting from Float32 to Float64 not supported", err.message());
    let err = expect_err(cast(&floats, &LogicalType::Utf8) );
    assert_eq!("Casting from Float32 to Utf8 not supported", err.message());
}

#[test]
fn sliced_promotion_is_refused() {
    let a = new_int_array(LogicalType::Int32, vec![Some(1), Some(2), Some(3)]).unwrap();
    let sliced = a.slice(1, 2).unwrap();
    let err = expect_err(cast(&sliced, &LogicalType::List(Box::new(LogicalType::Int32))) );
    assert_eq!(CastError::SlicedPromotion, err);
    assert_eq!(
        "Cast kernel does not yet support sliced (non-zero offset) arrays",
        err.message()
    );
}

#[test]
fn promotion_with_conversion_failure_nulls_the_slot() {
    let a = new_int_array(LogicalType::Int32, vec![Some(5), None, Some(300)]).unwrap();
    let b = cast(&a, &LogicalType::List(Box::new(LogicalType::UInt8))).unwrap();
    assert_eq!(3, b.length());
    assert!(b.is_valid(0));
    assert!(b.is_null(1));
    assert!(b.is_null(2));
    let values = b.list_values();
    assert_eq!(5, values.value_int(0));
}

#[test]
fn repeated_casts_are_identical() {
    let a = new_int_array(
        LogicalType::Int32,
        vec![Some(-5), Some(6), None, Some(100000000)],
    )
    .unwrap();
    let b1 = cast(&a, &LogicalType::UInt8).unwrap();
    let b2 = cast(&a, &LogicalType::UInt8).unwrap();
    assert_eq!(b1.length(), b2.length());
    assert_eq!(b1.null_count(), b2.null_count());
    for i in 0..b1.length() {
        assert_eq!(b1.is_valid(i), b2.is_valid(i));
        assert_eq!(b1.value_int(i), b2.value_int(i));
    }
    // the source is unchanged
    assert_eq!(4, a.length());
    assert_eq!(6, a.value_int(1));
    assert!(a.is_null(2));
}

#[test]
fn slicing_text_keeps_the_runs() {
    let a = utf8_array(vec![Some("alpha"), Some("beta"), None, Some("42")]);
    let s = a.slice(1, 3).unwrap();
    assert_eq!(3, s.length());
    assert_eq!(1, s.null_count());
    assert_eq!(b"beta".to_vec(), s.value_bytes(0));
    assert!(s.is_null(1));
    assert_eq!(b"42".to_vec(), s.value_bytes(2));
    let c = cast(&s, &LogicalType::Int32).unwrap();
    assert!(c.is_null(0));
    assert!(c.is_null(1));
    assert_eq!(42, c.value_int(2));
}

#[test]
fn timestamp_units_print_their_names() {
    for (unit, expected) in [
        (TimeUnit::Second, "Casting from Int32 to Timestamp(Second) not supported"),
        (TimeUnit::Millisecond, "Casting from Int32 to Timestamp(Millisecond) not supported"),
        (TimeUnit::Nanosecond, "Casting from Int32 to Timestamp(Nanosecond) not supported"),
    ] {
        let a = new_int_array(LogicalType::Int32, vec![Some(1)]).unwrap();
        let err = expect_err(cast(&a, &LogicalType::Timestamp(unit)) );
        assert_eq!(expected, err.message());
    }
}

#[test]
fn sliced_list_to_list_keeps_its_window() {
    let child = new_int_array(
        LogicalType::Int32,
        vec![Some(0), Some(-1), Some(2), Some(70000), Some(3), Some(-5)],
    )
    .unwrap();
    let list = new_list_array(LogicalType::Int32, 3, vec![0, 1, 3, 6], child, None, 0).unwrap();
    let sliced = list.slice(1, 2).unwrap();
    assert_eq!(1, sliced.start_offset());
    assert_eq!(2, sliced.length());

    let out = cast(&sliced, &LogicalType::List(Box::new(LogicalType::UInt16))).unwrap();
    assert_eq!(2, out.length());
    assert_eq!(1, out.start_offset());
    // the offset buffer is unchanged, so the runs stay [1..3) and [3..6)
    assert_eq!(1, out.value_offset(0));
    assert_eq!(3, out.value_offset(1));
    assert_eq!(2, out.value_length(0));
    assert_eq!(3, out.value_length(1));
    // the whole element array was cast: -1 and -5 and 70000 became null
    let values = out.list_values();
    assert_eq!(6, values.length());
    assert_eq!(3, values.null_count());
    assert!(values.is_null(1));
    assert_eq!(2, values.value_int(2));
    assert!(values.is_null(3));
    assert_eq!(3, values.value_int(4));
    assert!(values.is_null(5));
    // the outer validity is read from the element array's bitmap at the
    // outer window, and the null count is the element array's: the quirk
    assert_eq!(3, out.null_count());
    assert!(out.is_null(0));
    assert!(out.is_valid(1));
}

#[test]
fn a_short_bitmap_leaves_later_elements_valid() {
    let child = new_int_array(LogicalType::Int32, vec![Some(1), Some(2)]).unwrap();
    let list = new_list_array(
        LogicalType::Int32,
        2,
        vec![0, 1, 2],
        child,
        Some(vec![false]),
        1,
    )
    .unwrap();
    assert!(list.is_null(0));
    assert!(list.is_valid(1));
}

#[test]
fn type_labels_print_verbatim() {
    let nested = LogicalType::List(Box::new(LogicalType::List(Box::new(LogicalType::Int32))));
    let err = CastError::Unsupported(nested, LogicalType::Timestamp(TimeUnit::Microsecond));
    assert_eq!(
        "Casting from List(List(Int32)) to Timestamp(Microsecond) not supported",
        err.message()
    );
}

#[test]
fn recasting_a_result_returns_it_unchanged() {
    let a = new_int_array(LogicalType::Int32, vec![Some(-5), Some(6), None]).unwrap();
    let b = cast(&a, &LogicalType::UInt8).unwrap();
    let c = cast(&b, &LogicalType::UInt8).unwrap();
    assert_eq!(b.length(), c.length());
    assert_eq!(b.null_count(), c.null_count());
    for i in 0..b.length() {
        assert_eq!(b.is_valid(i), c.is_valid(i));
        assert_eq!(b.value_int(i), c.value_int(i));
    }
}
