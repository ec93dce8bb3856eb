use serde::decode::Deserializable;
use serde::decode::TokenDeserializer;
use serde::token::Error;
use serde::token::Token;

fn decode<T: Deserializable>(tokens: Vec<Token>) -> Result<T, Error> {
    let mut deserializer = TokenDeserializer::new(tokens);
    Deserializable::deserialize(&mut deserializer)
}

#[test]
fn test_u8_from_int_in_range() {
    assert_eq!(decode::<u8>(vec![Token::Int(5)]), Ok(5));
}

#[test]
fn test_u8_from_negative_int_fails() {
    assert_eq!(decode::<u8>(vec![Token::Int(-1)]), Err(Error::SyntaxError));
}

#[test]
fn test_u8_from_too_large_fails() {
    assert_eq!(decode::<u8>(vec![Token::U64(300)]), Err(Error::SyntaxError));
}

#[test]
fn test_u8_boundary() {
    assert_eq!(decode::<u8>(vec![Token::U64(255)]), Ok(255));
    assert_eq!(decode::<u8>(vec![Token::U64(256)]), Err(Error::SyntaxError));
}

#[test]
fn test_i8_from_u64_in_range() {
    assert_eq!(decode::<i8>(vec![Token::U64(127)]), Ok(127));
    assert_eq!(decode::<i8>(vec![Token::U64(128)]), Err(Error::SyntaxError));
}

#[test]
fn test_i8_negative_bound() {
    assert_eq!(decode::<i8>(vec![Token::Int(-128)]), Ok(-128));
    assert_eq!(decode::<i8>(vec![Token::Int(-129)]), Err(Error::SyntaxError));
}

#[test]
fn test_i64_from_u64_overflow_fails() {
    assert_eq!(
        decode::<i64>(vec![Token::U64(u64::MAX)]),
        Err(Error::SyntaxError)
    );
    assert_eq!(
        decode::<i64>(vec![Token::U64(i64::MAX as u64)]),
        Ok(i64::MAX)
    );
}

#[test]
fn test_u64_from_negative_fails() {
    assert_eq!(decode::<u64>(vec![Token::I8(-1)]), Err(Error::SyntaxError));
}

#[test]
fn test_u64_widening() {
    assert_eq!(decode::<u64>(vec![Token::U8(7)]), Ok(7));
    assert_eq!(decode::<u64>(vec![Token::I32(7)]), Ok(7));
}

#[test]
fn test_i32_cross_width() {
    assert_eq!(decode::<i32>(vec![Token::I64(1 << 40)]), Err(Error::SyntaxError));
    assert_eq!(decode::<i32>(vec![Token::I64(-40)]), Ok(-40));
    assert_eq!(decode::<i32>(vec![Token::U16(40)]), Ok(40));
}

#[test]
fn test_i16_and_u16_and_u32() {
    assert_eq!(decode::<i16>(vec![Token::Int(-32768)]), Ok(-32768));
    assert_eq!(decode::<i16>(vec![Token::Int(32768)]), Err(Error::SyntaxError));
    assert_eq!(decode::<u16>(vec![Token::Int(65535)]), Ok(65535));
    assert_eq!(decode::<u16>(vec![Token::Int(65536)]), Err(Error::SyntaxError));
    assert_eq!(decode::<u32>(vec![Token::I64(1 << 32)]), Err(Error::SyntaxError));
}

#[test]
fn test_uint_and_int_targets() {
    assert_eq!(decode::<usize>(vec![Token::U64(12)]), Ok(12));
    assert_eq!(decode::<usize>(vec![Token::Int(-3)]), Err(Error::SyntaxError));
    assert_eq!(decode::<isize>(vec![Token::U8(3)]), Ok(3));
}

#[test]
fn test_numeric_from_non_numeric_fails() {
    assert_eq!(decode::<i64>(vec![Token::Bool(true)]), Err(Error::SyntaxError));
    assert_eq!(
        decode::<i64>(vec![Token::StrBuf("5".to_string())]),
        Err(Error::SyntaxError)
    );
}

#[test]
fn test_numeric_from_float_bits_fails() {
    // Float-tagged tokens carry opaque bits: the verified decoder never
    // coerces them across the integer widths.
    assert_eq!(
        decode::<i64>(vec![Token::F64Bits(4617315517961601024)]),
        Err(Error::SyntaxError)
    );
    assert_eq!(decode::<u8>(vec![Token::F32Bits(0)]), Err(Error::SyntaxError));
}

#[test]
fn test_float_bits_pass_through() {
    let mut d = TokenDeserializer::new(vec![Token::F32Bits(0x3f800000)]);
    let t = d.expect_token().unwrap();
    assert_eq!(d.expect_f32_bits(t), Ok(0x3f800000));

    let mut d = TokenDeserializer::new(vec![Token::F64Bits(0x3ff0000000000000)]);
    let t = d.expect_token().unwrap();
    assert_eq!(d.expect_f64_bits(t), Ok(0x3ff0000000000000));

    let mut d = TokenDeserializer::new(vec![Token::Int(1)]);
    let t = d.expect_token().unwrap();
    assert_eq!(d.expect_f32_bits(t), Err(Error::SyntaxError));
}
