use serde::de::Deserialize;
use serde::de::Deserializer;
use serde::de::MapVisitor;
use serde::de::SeqVisitor;
use serde::de::Visitor;
use serde::token::Error;

// A visitor that accepts only 64-bit signed integers: every narrower signed
// visit must widen into it through the defaults.
struct OnlyI64;

impl Visitor<(), (), (), Error> for OnlyI64 {
    type Value = i64;

    fn visit_i64(&mut self, v: i64) -> Result<i64, Error> {
        Ok(v)
    }
}

// A visitor that accepts only 64-bit unsigned integers.
struct OnlyU64;

impl Visitor<(), (), (), Error> for OnlyU64 {
    type Value = u64;

    fn visit_u64(&mut self, v: u64) -> Result<u64, Error> {
        Ok(v)
    }
}

// A visitor that accepts only strings; characters must reach it through
// their one-character string form.
struct CollectString;

impl Visitor<(), (), (), Error> for CollectString {
    type Value = String;

    fn visit_str(&mut self, v: &str) -> Result<String, Error> {
        Ok(v.to_string())
    }
}

// A type no source can produce, for driving the error paths.
#[derive(Debug)]
struct Unbuildable;

impl Deserialize for Unbuildable {
    fn deserialize<D: Deserializer>(_deserializer: &mut D) -> Result<Self, D::Error> {
        Err(<D::Error as serde::de::Error>::syntax_error())
    }
}

// A map source that is already exhausted.
struct EmptyMapSource;

impl MapVisitor for EmptyMapSource {
    type Error = Error;

    fn visit_key<K: Deserialize>(&mut self) -> Result<Option<K>, Error> {
        Ok(None)
    }

    fn visit_value<V: Deserialize>(&mut self) -> Result<V, Error> {
        Err(Error::SyntaxError)
    }

    fn end(&mut self) -> Result<(), Error> {
        Ok(())
    }
}

// A sequence source that is already exhausted.
struct EmptySeqSource;

impl SeqVisitor for EmptySeqSource {
    type Error = Error;

    fn visit<T: Deserialize>(&mut self) -> Result<Option<T>, Error> {
        Ok(None)
    }

    fn end(&mut self) -> Result<(), Error> {
        Ok(())
    }
}

#[test]
fn test_visitor_signed_widening_defaults() {
    let mut v = OnlyI64;
    assert_eq!(v.visit_i8(5), Ok(5));
    assert_eq!(v.visit_i16(-3), Ok(-3));
    assert_eq!(v.visit_i32(9), Ok(9));
    assert_eq!(v.visit_isize(11), Ok(11));
    assert_eq!(v.visit_i64(-7), Ok(-7));
}

#[test]
fn test_visitor_unsigned_widening_defaults() {
    let mut v = OnlyU64;
    assert_eq!(v.visit_u8(5), Ok(5));
    assert_eq!(v.visit_u16(3), Ok(3));
    assert_eq!(v.visit_u32(9), Ok(9));
    assert_eq!(v.visit_usize(11), Ok(11));
}

#[test]
fn test_visitor_unimplemented_shapes_are_syntax_errors() {
    let mut v = OnlyI64;
    assert_eq!(v.visit_bool(true), Err(Error::SyntaxError));
    assert_eq!(v.visit_unit(), Err(Error::SyntaxError));
    assert_eq!(v.visit_none(), Err(Error::SyntaxError));
    assert_eq!(v.visit_str("x"), Err(Error::SyntaxError));
    assert_eq!(v.visit_bytes(&[1, 2]), Err(Error::SyntaxError));
    assert_eq!(v.visit_byte_buf(vec![1, 2]), Err(Error::SyntaxError));
    // An unsigned visit does not widen into a signed-only visitor.
    assert_eq!(v.visit_u64(5), Err(Error::SyntaxError));
}

#[test]
fn test_visitor_char_forwards_through_str() {
    let mut v = CollectString;
    assert_eq!(v.visit_char('q'), Ok("q".to_string()));
    assert_eq!(v.visit_string("ab".to_string()), Ok("ab".to_string()));
}

#[test]
fn test_visitor_named_unit_ignores_name() {
    let mut v = OnlyI64;
    assert_eq!(v.visit_named_unit("anything"), Err(Error::SyntaxError));
}

#[test]
fn test_error_constructors() {
    assert_eq!(
        <Error as serde::de::Error>::syntax_error(),
        Error::SyntaxError
    );
    assert_eq!(
        <Error as serde::de::Error>::end_of_stream_error(),
        Error::EndOfStreamError
    );
    assert_eq!(
        <Error as serde::de::Error>::missing_field_error("addr"),
        Error::MissingFieldError("addr")
    );
}

#[test]
fn test_missing_field_names_exactly_that_member() {
    let mut m = EmptyMapSource;
    let r: Result<Unbuildable, Error> = m.missing_field("age");
    assert!(matches!(r, Err(Error::MissingFieldError("age"))));
}

#[test]
fn test_map_visit_composes_key_and_value() {
    let mut m = EmptyMapSource;
    let r: Result<Option<(Unbuildable, Unbuildable)>, Error> = m.visit();
    assert!(matches!(r, Ok(None)));
    assert_eq!(m.end(), Ok(()));
}

#[test]
fn test_sub_visitor_size_hint_defaults() {
    let m = EmptyMapSource;
    assert_eq!(m.size_hint(), (0, None));
    let s = EmptySeqSource;
    assert_eq!(s.size_hint(), (0, None));
}

#[test]
fn test_sub_visitors_forward_through_mut_ref() {
    // A mutable reference to a sub-visitor behaves exactly as the
    // sub-visitor itself.
    let mut s = EmptySeqSource;
    let mut sr = &mut s;
    let first: Result<Option<Unbuildable>, Error> = <&mut EmptySeqSource as SeqVisitor>::visit(&mut sr);
    assert!(matches!(first, Ok(None)));
    assert_eq!(<&mut EmptySeqSource as SeqVisitor>::size_hint(&sr), (0, None));
    assert_eq!(<&mut EmptySeqSource as SeqVisitor>::end(&mut sr), Ok(()));

    let mut m = EmptyMapSource;
    let mut mr = &mut m;
    let missing: Result<Unbuildable, Error> =
        <&mut EmptyMapSource as MapVisitor>::missing_field(&mut mr, "zip");
    assert!(matches!(missing, Err(Error::MissingFieldError("zip"))));
}

// A named aggregate with one required member, decoded the way generated
// glue decodes it: pull entries until the source is exhausted, then report
// the first required member that never appeared.
#[derive(Debug)]
struct Point {
    x: isize,
}

impl Deserialize for Point {
    fn deserialize<D: Deserializer>(_deserializer: &mut D) -> Result<Self, D::Error> {
        Err(<D::Error as serde::de::Error>::syntax_error())
    }
}

fn decode_point<M: MapVisitor>(source: &mut M) -> Result<Point, M::Error> {
    let x: Option<isize> = None;
    loop {
        match source.visit_key::<Unbuildable>()? {
            Some(_) => return Err(<M::Error as serde::de::Error>::syntax_error()),
            None => break,
        }
    }
    source.end()?;
    match x {
        Some(x) => Ok(Point { x }),
        None => source.missing_field("x"),
    }
}

#[test]
fn test_missing_field_in_aggregate_decode() {
    let mut source = EmptyMapSource;
    let r = decode_point(&mut source);
    assert!(matches!(r, Err(Error::MissingFieldError("x"))));
}

#[test]
fn test_seq_source_end() {
    let mut s = EmptySeqSource;
    let first: Result<Option<Unbuildable>, Error> = s.visit();
    assert!(matches!(first, Ok(None)));
    assert_eq!(s.end(), Ok(()));
}
