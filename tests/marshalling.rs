use frontrow::json::{Json, Number};
use frontrow::marshall::{marshal_input, output_to_json, InputValue, MarshalError, OutputSlot, RawScalar, Scalar};
use frontrow::types::{PrimType, Type};

fn s(x: &str) -> String {
    x.to_string()
}

#[test]
fn empty_array_round_trips() {
    let t = Type::PrimArray(PrimType::Int);
    assert_eq!(marshal_input(t, &Json::Array(vec![])), Ok(InputValue::Array(vec![])));
    let back = output_to_json(&OutputSlot::Array { length: 0, present: false, items: vec![] });
    assert_eq!(back, Ok(Json::Array(vec![])));
    let back = output_to_json(&OutputSlot::StrArray { length: 0, present: true, items: vec![] });
    assert_eq!(back, Ok(Json::Array(vec![])));
}

#[test]
fn scalar_ranges() {
    let byte = Type::Prim(PrimType::Byte);
    assert_eq!(marshal_input(byte, &Json::Int(-128)), Ok(InputValue::Scalar(Scalar::Byte(-128))));
    assert_eq!(marshal_input(byte, &Json::Int(128)), Err(MarshalError::InvalidValue));
    assert_eq!(
        marshal_input(Type::Prim(PrimType::Short), &Json::Int(40000)),
        Err(MarshalError::InvalidValue)
    );
    assert_eq!(
        marshal_input(Type::Prim(PrimType::Long), &Json::UInt(u64::MAX)),
        Err(MarshalError::InvalidValue)
    );
    assert_eq!(
        marshal_input(Type::Prim(PrimType::Double), &Json::Int(2)),
        Ok(InputValue::Scalar(Scalar::Double(Number::Int(2))))
    );
    assert_eq!(
        marshal_input(Type::Prim(PrimType::Bool), &Json::Int(1)),
        Err(MarshalError::InvalidValue)
    );
}

#[test]
fn strings_without_nul() {
    assert_eq!(marshal_input(Type::String, &Json::Str(s("hi"))), Ok(InputValue::Str(s("hi"))));
    assert_eq!(marshal_input(Type::String, &Json::Str(s("a\0b"))), Err(MarshalError::InvalidValue));
    assert_eq!(
        marshal_input(Type::StringArray, &Json::Array(vec![Json::Str(s("a")), Json::Str(s("b"))])),
        Ok(InputValue::StrArray(vec![s("a"), s("b")]))
    );
    assert_eq!(
        marshal_input(Type::StringArray, &Json::Array(vec![Json::Int(1)])),
        Err(MarshalError::InvalidValue)
    );
}

#[test]
fn output_bools_are_normalized() {
    assert_eq!(output_to_json(&OutputSlot::Scalar(RawScalar::Bool(7))), Ok(Json::Bool(true)));
    assert_eq!(output_to_json(&OutputSlot::Scalar(RawScalar::Bool(0))), Ok(Json::Bool(false)));
    let arr = OutputSlot::Array {
        length: 2,
        present: true,
        items: vec![RawScalar::Bool(2), RawScalar::Bool(0)],
    };
    assert_eq!(output_to_json(&arr), Ok(Json::Array(vec![Json::Bool(true), Json::Bool(false)])));
}

#[test]
fn output_array_errors() {
    assert_eq!(
        output_to_json(&OutputSlot::Array { length: -1, present: true, items: vec![] }),
        Err(MarshalError::InvalidLength)
    );
    assert_eq!(
        output_to_json(&OutputSlot::Array { length: 3, present: false, items: vec![] }),
        Err(MarshalError::NullPointer)
    );
    assert_eq!(
        output_to_json(&OutputSlot::StrArray { length: 1, present: true, items: vec![None] }),
        Err(MarshalError::NullPointer)
    );
}

#[test]
fn output_arrays_of_int_max_are_too_long() {
    assert_eq!(
        output_to_json(&OutputSlot::Array { length: i32::MAX, present: true, items: vec![] }),
        Err(MarshalError::TooLong)
    );
    assert_eq!(
        output_to_json(&OutputSlot::StrArray { length: i32::MAX, present: true, items: vec![] }),
        Err(MarshalError::TooLong)
    );
    assert_eq!(
        output_to_json(&OutputSlot::Array { length: i32::MAX - 1, present: false, items: vec![] }),
        Err(MarshalError::NullPointer)
    );
}

#[test]
fn output_strings_must_be_utf8() {
    assert_eq!(output_to_json(&OutputSlot::Str(None)), Err(MarshalError::NullPointer));
    assert_eq!(
        output_to_json(&OutputSlot::Str(Some("héllo".as_bytes().to_vec()))),
        Ok(Json::Str(s("héllo")))
    );
    assert_eq!(output_to_json(&OutputSlot::Str(Some(vec![0xff, 0xfe]))), Err(MarshalError::NonUtf8));
    assert_eq!(
        output_to_json(&OutputSlot::StrArray {
            length: 2,
            present: true,
            items: vec![Some(b"a".to_vec()), Some(vec![0xc3])],
        }),
        Err(MarshalError::NonUtf8)
    );
    assert_eq!(
        output_to_json(&OutputSlot::StrArray { length: 1, present: true, items: vec![Some(b"ok".to_vec())] }),
        Ok(Json::Array(vec![Json::Str(s("ok"))]))
    );
}

#[test]
fn type_codes() {
    assert_eq!(Type::from_str("int[]"), Some(Type::PrimArray(PrimType::Int)));
    assert_eq!(Type::from_str("string"), Some(Type::String));
    assert_eq!(Type::from_str("quux"), None);
    for code in ["bool", "byte", "short", "int", "long", "float", "double", "bool[]", "double[]", "string[]"] {
        assert_eq!(Type::from_str(code).unwrap().to_str(), code);
    }
}
