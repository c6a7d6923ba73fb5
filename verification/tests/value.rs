use pysqlx::str::HostString;
use pysqlx::value::{encode_value, DbValue, DecodeError, FloatBits, HostValue};

#[test]
fn null_is_the_none_singleton() {
    assert_eq!(encode_value(&DbValue::Null), Ok(HostValue::Nothing));
}

#[test]
fn bools_keep_their_value() {
    assert_eq!(encode_value(&DbValue::Bool(true)), Ok(HostValue::Bool(true)));
    assert_eq!(encode_value(&DbValue::Bool(false)), Ok(HostValue::Bool(false)));
}

#[test]
fn integers_are_widened() {
    assert_eq!(encode_value(&DbValue::SmallInt(-3)), Ok(HostValue::Int(-3)));
    assert_eq!(encode_value(&DbValue::SmallInt(i16::MIN)), Ok(HostValue::Int(-32768)));
    assert_eq!(encode_value(&DbValue::SmallInt(i16::MAX)), Ok(HostValue::Int(32767)));
    assert_eq!(encode_value(&DbValue::Integer(i32::MIN)), Ok(HostValue::Int(-2147483648)));
    assert_eq!(encode_value(&DbValue::Integer(i32::MAX)), Ok(HostValue::Int(2147483647)));
    assert_eq!(encode_value(&DbValue::BigInt(i64::MIN)), Ok(HostValue::Int(i64::MIN)));
    assert_eq!(encode_value(&DbValue::BigInt(i64::MAX)), Ok(HostValue::Int(i64::MAX)));
    assert_eq!(encode_value(&DbValue::BigInt(0)), Ok(HostValue::Int(0)));
}

#[test]
fn floats_keep_their_bits() {
    let single = 1.5f32.to_bits();
    let double = (-2.25f64).to_bits();
    assert_eq!(
        encode_value(&DbValue::Real(single)),
        Ok(HostValue::Float(FloatBits::Single(single)))
    );
    assert_eq!(
        encode_value(&DbValue::Double(double)),
        Ok(HostValue::Float(FloatBits::Double(double)))
    );
    match encode_value(&DbValue::Real(single)) {
        Ok(HostValue::Float(FloatBits::Single(bits))) => {
            assert_eq!(f64::from(f32::from_bits(bits)), 1.5f64)
        }
        other => panic!("unexpected {:?}", other),
    }
}

#[test]
fn text_takes_its_host_form() {
    assert_eq!(
        encode_value(&DbValue::Text("hello".to_string())),
        Ok(HostValue::Str(HostString::Ascii(b"hello".to_vec())))
    );
    assert_eq!(
        encode_value(&DbValue::Text("中".to_string())),
        Ok(HostValue::Str(HostString::TwoByte(vec![0x4E2D])))
    );
    assert_eq!(
        encode_value(&DbValue::Text(String::new())),
        Ok(HostValue::Str(HostString::Empty))
    );
}

#[test]
fn blob_is_copied_with_its_length() {
    let blob = vec![0u8, 255, 1, 254, 0];
    assert_eq!(encode_value(&DbValue::Blob(blob.clone())), Ok(HostValue::Bytes(blob)));
    assert_eq!(encode_value(&DbValue::Blob(vec![])), Ok(HostValue::Bytes(vec![])));
}

#[test]
fn unknown_kind_is_an_error() {
    assert_eq!(encode_value(&DbValue::Unsupported), Err(DecodeError));
}
