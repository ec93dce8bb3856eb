use std::collections::HashMap;

use serde::compound::deserialize_hashmap;
use serde::decode::Deserializable;
use serde::decode::TokenDeserializer;
use serde::token::Error;
use serde::token::Token;

#[test]
fn test_tokens_int() {
    let tokens = vec![Token::Int(5)];

    let mut deserializer = TokenDeserializer::new(tokens);
    let value: Result<isize, Error> = Deserializable::deserialize(&mut deserializer);

    assert_eq!(value.unwrap(), 5);
}

#[test]
fn test_tokens_strbuf() {
    let tokens = vec![Token::StrBuf("a".to_string())];

    let mut deserializer = TokenDeserializer::new(tokens);
    let value: Result<String, Error> = Deserializable::deserialize(&mut deserializer);

    assert_eq!(value.unwrap(), "a".to_string());
}

#[test]
fn test_tokens_tuple_empty() {
    let tokens = vec![Token::CollectionStart(0), Token::CollectionEnd];

    let mut deserializer = TokenDeserializer::new(tokens);
    let value: Result<(), Error> = Deserializable::deserialize(&mut deserializer);

    assert_eq!(value.unwrap(), ());
}

#[test]
fn test_tokens_tuple() {
    let tokens = vec![
        Token::CollectionStart(2),
        Token::Int(5),
        Token::StrBuf("a".to_string()),
        Token::CollectionEnd,
    ];

    let mut deserializer = TokenDeserializer::new(tokens);
    let value: Result<(isize, String), Error> = Deserializable::deserialize(&mut deserializer);

    assert_eq!(value.unwrap(), (5, "a".to_string()));
}

#[test]
fn test_tokens_tuple_compound() {
    let tokens = vec![
        Token::CollectionStart(2),
        Token::CollectionStart(0),
        Token::CollectionEnd,
        Token::CollectionStart(2),
        Token::Int(5),
        Token::StrBuf("a".to_string()),
        Token::CollectionEnd,
        Token::CollectionEnd,
    ];

    let mut deserializer = TokenDeserializer::new(tokens);
    let value: Result<((), (isize, String)), Error> =
        Deserializable::deserialize(&mut deserializer);

    assert_eq!(value.unwrap(), ((), (5, "a".to_string())));
}

#[test]
fn test_tokens_vec_empty() {
    let tokens = vec![Token::CollectionStart(0), Token::CollectionEnd];

    let mut deserializer = TokenDeserializer::new(tokens);
    let value: Result<Vec<isize>, Error> = Deserializable::deserialize(&mut deserializer);

    assert_eq!(value.unwrap(), vec![]);
}

#[test]
fn test_tokens_vec() {
    let tokens = vec![
        Token::CollectionStart(3),
        Token::Int(5),
        Token::Int(6),
        Token::Int(7),
        Token::CollectionEnd,
    ];

    let mut deserializer = TokenDeserializer::new(tokens);
    let value: Result<Vec<isize>, Error> = Deserializable::deserialize(&mut deserializer);

    assert_eq!(value.unwrap(), vec![5, 6, 7]);
}

#[test]
fn test_tokens_vec_compound() {
    let tokens = vec![
        Token::CollectionStart(0),
        Token::CollectionStart(1),
        Token::Int(1),
        Token::CollectionEnd,
        Token::CollectionStart(2),
        Token::Int(2),
        Token::Int(3),
        Token::CollectionEnd,
        Token::CollectionStart(3),
        Token::Int(4),
        Token::Int(5),
        Token::Int(6),
        Token::CollectionEnd,
        Token::CollectionEnd,
    ];

    let mut deserializer = TokenDeserializer::new(tokens);
    let value: Result<Vec<Vec<isize>>, Error> = Deserializable::deserialize(&mut deserializer);

    assert_eq!(value.unwrap(), vec![vec![1], vec![2, 3], vec![4, 5, 6]]);
}

#[test]
fn test_tokens_hashmap() {
    let tokens = vec![
        Token::CollectionStart(2),
        Token::CollectionStart(2),
        Token::Int(5),
        Token::StrBuf("a".to_string()),
        Token::CollectionEnd,
        Token::CollectionStart(2),
        Token::Int(6),
        Token::StrBuf("b".to_string()),
        Token::CollectionEnd,
        Token::CollectionEnd,
    ];

    let mut deserializer = TokenDeserializer::new(tokens);
    let token = deserializer.expect_token().unwrap();
    let value: Result<HashMap<isize, String>, Error> =
        deserialize_hashmap(&mut deserializer, token);

    let mut map = HashMap::new();
    map.insert(5, "a".to_string());
    map.insert(6, "b".to_string());

    assert_eq!(value.unwrap(), map);
}

#[test]
fn test_tokens_bool() {
    let mut deserializer = TokenDeserializer::new(vec![Token::Bool(true)]);
    let value: Result<bool, Error> = Deserializable::deserialize(&mut deserializer);
    assert_eq!(value.unwrap(), true);
}

#[test]
fn test_tokens_char() {
    let mut deserializer = TokenDeserializer::new(vec![Token::Char('x')]);
    let value: Result<char, Error> = Deserializable::deserialize(&mut deserializer);
    assert_eq!(value.unwrap(), 'x');
}

#[test]
fn test_tokens_str_borrowed() {
    let mut deserializer = TokenDeserializer::new(vec![Token::Str("hello")]);
    let value: Result<&'static str, Error> = Deserializable::deserialize(&mut deserializer);
    assert_eq!(value.unwrap(), "hello");
}

#[test]
fn test_tokens_strbuf_from_str() {
    let mut deserializer = TokenDeserializer::new(vec![Token::Str("hello")]);
    let value: Result<String, Error> = Deserializable::deserialize(&mut deserializer);
    assert_eq!(value.unwrap(), "hello".to_string());
}

#[test]
fn test_tokens_null_unit() {
    let mut deserializer = TokenDeserializer::new(vec![Token::Null]);
    let value: Result<(), Error> = Deserializable::deserialize(&mut deserializer);
    assert_eq!(value.unwrap(), ());
}

#[test]
fn test_option_null_is_none() {
    let mut deserializer = TokenDeserializer::new(vec![Token::Null]);
    let value: Result<Option<isize>, Error> = Deserializable::deserialize(&mut deserializer);
    assert_eq!(value.unwrap(), None);
}

#[test]
fn test_option_value_is_some() {
    let mut deserializer = TokenDeserializer::new(vec![Token::Int(5)]);
    let value: Result<Option<isize>, Error> = Deserializable::deserialize(&mut deserializer);
    assert_eq!(value.unwrap(), Some(5));
}

#[test]
fn test_option_of_vec() {
    let tokens = vec![
        Token::CollectionStart(1),
        Token::Int(9),
        Token::CollectionEnd,
    ];
    let mut deserializer = TokenDeserializer::new(tokens);
    let value: Result<Option<Vec<isize>>, Error> = Deserializable::deserialize(&mut deserializer);
    assert_eq!(value.unwrap(), Some(vec![9]));
}

#[test]
fn test_empty_collection_consumes_nothing_more() {
    // An empty frame must leave the rest of the stream untouched: the next
    // value decodes from the token right after the closing sentinel.
    let tokens = vec![Token::CollectionStart(0), Token::CollectionEnd, Token::Int(7)];
    let mut deserializer = TokenDeserializer::new(tokens);
    let empty: Result<Vec<String>, Error> = Deserializable::deserialize(&mut deserializer);
    assert_eq!(empty.unwrap(), Vec::<String>::new());
    let next: Result<isize, Error> = Deserializable::deserialize(&mut deserializer);
    assert_eq!(next.unwrap(), 7);
}

#[test]
fn test_size_hint_is_advisory() {
    // The hint says five, the stream holds two: the actual count wins.
    let tokens = vec![
        Token::CollectionStart(5),
        Token::Int(1),
        Token::Int(2),
        Token::CollectionEnd,
    ];
    let mut deserializer = TokenDeserializer::new(tokens);
    let value: Result<Vec<isize>, Error> = Deserializable::deserialize(&mut deserializer);
    assert_eq!(value.unwrap(), vec![1, 2]);

    // And a hint of zero with three elements decodes them all the same.
    let tokens = vec![
        Token::CollectionStart(0),
        Token::Int(1),
        Token::Int(2),
        Token::Int(3),
        Token::CollectionEnd,
    ];
    let mut deserializer = TokenDeserializer::new(tokens);
    let value: Result<Vec<isize>, Error> = Deserializable::deserialize(&mut deserializer);
    assert_eq!(value.unwrap(), vec![1, 2, 3]);
}

#[test]
fn test_premature_end_vec() {
    let tokens = vec![Token::CollectionStart(3), Token::Int(5)];
    let mut deserializer = TokenDeserializer::new(tokens);
    let value: Result<Vec<isize>, Error> = Deserializable::deserialize(&mut deserializer);
    assert_eq!(value, Err(Error::EndOfStreamError));
}

#[test]
fn test_premature_end_tuple() {
    let tokens = vec![Token::CollectionStart(2), Token::Int(5)];
    let mut deserializer = TokenDeserializer::new(tokens);
    let value: Result<(isize, String), Error> = Deserializable::deserialize(&mut deserializer);
    assert_eq!(value, Err(Error::EndOfStreamError));
}

#[test]
fn test_premature_end_empty_stream() {
    let mut deserializer = TokenDeserializer::new(vec![]);
    let value: Result<isize, Error> = Deserializable::deserialize(&mut deserializer);
    assert_eq!(value, Err(Error::EndOfStreamError));
}

#[test]
fn test_syntax_error_wrong_token() {
    let mut deserializer = TokenDeserializer::new(vec![Token::Bool(true)]);
    let value: Result<String, Error> = Deserializable::deserialize(&mut deserializer);
    assert_eq!(value, Err(Error::SyntaxError));
}

#[test]
fn test_syntax_error_unclosed_scalar_collection() {
    // A collection frame around a scalar target is a shape error.
    let mut deserializer = TokenDeserializer::new(vec![Token::CollectionEnd]);
    let value: Result<Vec<isize>, Error> = Deserializable::deserialize(&mut deserializer);
    assert_eq!(value, Err(Error::SyntaxError));
}

#[test]
fn test_hashmap_later_entry_wins() {
    let tokens = vec![
        Token::CollectionStart(2),
        Token::CollectionStart(2),
        Token::Int(5),
        Token::StrBuf("a".to_string()),
        Token::CollectionEnd,
        Token::CollectionStart(2),
        Token::Int(5),
        Token::StrBuf("b".to_string()),
        Token::CollectionEnd,
        Token::CollectionEnd,
    ];
    let mut deserializer = TokenDeserializer::new(tokens);
    let token = deserializer.expect_token().unwrap();
    let value: Result<HashMap<isize, String>, Error> =
        deserialize_hashmap(&mut deserializer, token);

    let mut map = HashMap::new();
    map.insert(5, "b".to_string());
    assert_eq!(value.unwrap(), map);
}

#[test]
fn test_tokens_tuple_single() {
    let tokens = vec![
        Token::CollectionStart(1),
        Token::Int(8),
        Token::CollectionEnd,
    ];
    let mut deserializer = TokenDeserializer::new(tokens);
    let value: Result<(isize,), Error> = Deserializable::deserialize(&mut deserializer);
    assert_eq!(value.unwrap(), (8,));
}

#[test]
fn test_expect_collection_directly() {
    let tokens = vec![
        Token::CollectionStart(2),
        Token::Int(1),
        Token::Int(2),
        Token::CollectionEnd,
    ];
    let mut deserializer = TokenDeserializer::new(tokens);
    let token = deserializer.expect_token().unwrap();
    let value: Result<Vec<isize>, Error> = deserializer.expect_collection(token);
    assert_eq!(value.unwrap(), vec![1, 2]);
}

#[test]
fn test_nested_option_null_collapses_to_outer_none() {
    // The one-token Null framing belongs to the outer optional layer, so a
    // nested None can never surface as Some(None).
    let mut deserializer = TokenDeserializer::new(vec![Token::Null]);
    let value: Result<Option<Option<isize>>, Error> =
        Deserializable::deserialize(&mut deserializer);
    assert_eq!(value.unwrap(), None);
}
