use hostbridge::convert::string_from_host_bytes;
use hostbridge::convert::to_dynamic;
use hostbridge::convert::to_native;
use hostbridge::convert::ConversionErrorKind;
use hostbridge::value::DynamicValue;
use hostbridge::value::NativeType;
use hostbridge::value::NativeValue;

#[test]
fn integer_round_trips_through_native() {
    let v = DynamicValue::Int(123456789);
    let n = to_native(&v, &NativeType::I64).expect("converts");
    assert_eq!(n, NativeValue::I64(123456789));
    assert_eq!(to_dynamic(&n), v);
}

#[test]
fn narrow_integer_round_trips_when_in_range() {
    let v = DynamicValue::Int(-42);
    let n = to_native(&v, &NativeType::I32).expect("converts");
    assert_eq!(n, NativeValue::I32(-42));
    assert_eq!(to_dynamic(&n), v);
}

#[test]
fn string_and_bool_round_trip() {
    let s = DynamicValue::Str("bonjour".to_string());
    let ns = to_native(&s, &NativeType::Str).expect("converts");
    assert_eq!(to_dynamic(&ns), s);

    let b = DynamicValue::Bool(true);
    let nb = to_native(&b, &NativeType::Bool).expect("converts");
    assert_eq!(to_dynamic(&nb), b);
}

#[test]
fn handle_passes_through_by_identity() {
    let h = DynamicValue::Handle(77);
    let nh = to_native(&h, &NativeType::Handle).expect("converts");
    assert_eq!(nh, NativeValue::Handle(77));
    assert_eq!(to_dynamic(&nh), h);
}

#[test]
fn sequence_round_trips_elementwise() {
    let v = DynamicValue::Sequence(vec![
        DynamicValue::Int(1),
        DynamicValue::Int(2),
        DynamicValue::Int(3),
    ]);
    let n = to_native(&v, &NativeType::SeqOf(Box::new(NativeType::I64))).expect("converts");
    assert_eq!(
        n,
        NativeValue::Sequence(vec![
            NativeValue::I64(1),
            NativeValue::I64(2),
            NativeValue::I64(3),
        ])
    );
    assert_eq!(to_dynamic(&n), v);
}

#[test]
fn out_of_range_integer_fails_not_truncates() {
    let too_big = DynamicValue::Int(2147483648);
    let e = to_native(&too_big, &NativeType::I32).expect_err("must fail");
    assert_eq!(e.kind, ConversionErrorKind::OutOfRange);
    assert!(e.path.is_empty());

    let negative = DynamicValue::Int(-1);
    let e = to_native(&negative, &NativeType::U32).expect_err("must fail");
    assert_eq!(e.kind, ConversionErrorKind::OutOfRange);
}

#[test]
fn tag_mismatch_fails_with_type_mismatch() {
    let v = DynamicValue::Str("five".to_string());
    let e = to_native(&v, &NativeType::I64).expect_err("must fail");
    assert_eq!(e.kind, ConversionErrorKind::TypeMismatch);
}

#[test]
fn failing_sequence_element_reports_its_index() {
    let v = DynamicValue::Sequence(vec![
        DynamicValue::Int(1),
        DynamicValue::Int(4294967296),
        DynamicValue::Int(3),
    ]);
    let e = to_native(&v, &NativeType::SeqOf(Box::new(NativeType::I32))).expect_err("must fail");
    assert_eq!(e.kind, ConversionErrorKind::OutOfRange);
    assert_eq!(e.path, vec![1]);
}

#[test]
fn nested_sequence_failure_reports_the_full_path() {
    let v = DynamicValue::Sequence(vec![
        DynamicValue::Sequence(vec![DynamicValue::Int(1)]),
        DynamicValue::Sequence(vec![DynamicValue::Int(2), DynamicValue::Bool(false)]),
    ]);
    let ty = NativeType::SeqOf(Box::new(NativeType::SeqOf(Box::new(NativeType::I64))));
    let e = to_native(&v, &ty).expect_err("must fail");
    assert_eq!(e.kind, ConversionErrorKind::TypeMismatch);
    assert_eq!(e.path, vec![1, 1]);
}

#[test]
fn valid_bytes_decode_to_a_string_value() {
    let got = string_from_host_bytes(vec![104, 105]).expect("decodes");
    assert_eq!(got, DynamicValue::Str("hi".to_string()));
}

#[test]
fn invalid_bytes_fail_with_invalid_utf8() {
    let e = string_from_host_bytes(vec![0xff, 0xfe]).expect_err("must fail");
    assert_eq!(e.kind, ConversionErrorKind::InvalidUtf8);
}
