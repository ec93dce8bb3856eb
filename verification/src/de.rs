//! The push-model deserialization protocol: a format-side driver (a
//! [`Deserializer`]) walks a type-side [`Visitor`] through the value being
//! deserialized, calling exactly one `visit_*` method (or delegating to a
//! streaming sub-visitor) per logical value.
//!
//! A minimal format implements only [`Deserializer::visit`] and the error
//! constructors; every shape-specific entry point defaults to forwarding.
//! A minimal data type overrides only the `visit_*` methods for the shapes
//! it accepts; every other method defaults to a safe widening or to a
//! syntax error.
//!
//! The verifier requires trait declarations to be free of reference cycles,
//! so the knot that ties a visitor back to its driver is cut by making
//! [`Visitor`] generic over its collaborators: `DS` is the driver handed to
//! `visit_some`, `SV` and `MV` are the streaming sub-visitors handed to
//! `visit_seq` and `visit_map`, and `E` is the format's error type.  A
//! format names its own types for them; the protocol is otherwise the same
//! double dispatch.

use vstd::prelude::*;

verus! {

/// The error contract every format's error type implements.  Generic code
/// never builds a concrete error directly: it goes through these three
/// constructors, so a format may carry arbitrarily richer diagnostics.
pub trait Error: Sized {
    /// Whether this error reports a malformed or unexpected token or shape.
    spec fn is_syntax(&self) -> bool;

    /// Whether this error reports input exhausted before a value completed.
    spec fn is_end_of_stream(&self) -> bool;

    /// The member a missing-field error names, if this is one.
    spec fn missing_field_name(&self) -> Option<Seq<char>>;

    /// Builds the error for a malformed or unexpected token or shape.
    fn syntax_error() -> (e: Self)
        ensures
            e.is_syntax(),
    ;

    /// Builds the error for input exhausted before a value completed.
    fn end_of_stream_error() -> (e: Self)
        ensures
            e.is_end_of_stream(),
    ;

    /// Builds the error for a named aggregate that lacked the required
    /// member `field`: the error names exactly that member.
    fn missing_field_error(field: &'static str) -> (e: Self)
        ensures
            e.missing_field_name() == Some(field@),
    ;
}

impl Error for crate::token::Error {
    open spec fn is_syntax(&self) -> bool {
        self matches crate::token::Error::SyntaxError
    }

    open spec fn is_end_of_stream(&self) -> bool {
        self matches crate::token::Error::EndOfStreamError
    }

    open spec fn missing_field_name(&self) -> Option<Seq<char>> {
        match self {
            crate::token::Error::MissingFieldError(f) => Some(f@),
            _ => None,
        }
    }

    fn syntax_error() -> Self {
        crate::token::Error::SyntaxError
    }

    fn end_of_stream_error() -> Self {
        crate::token::Error::EndOfStreamError
    }

    fn missing_field_error(field: &'static str) -> Self {
        crate::token::Error::MissingFieldError(field)
    }
}

/// The type-side callback surface: one `visit_*` method per shape of value.
/// Any method not overridden either widens into a more general method or
/// fails with a syntax error, so a type implements only what it accepts.
///
/// `DS` is the deserializer type handed to `visit_some`, `SV` and `MV` the
/// sub-visitor types handed to `visit_seq` and `visit_map`, and `E` the
/// error type; a driver instantiates them with its own types.
pub trait Visitor<DS, SV, MV, E: Error>: Sized {
    /// What a successful visit produces; the visitor is the sole authority
    /// for it.
    type Value;

    fn visit_bool(&mut self, _v: bool) -> (r: Result<Self::Value, E>)
        default_ensures
            r matches Err(e) && e.is_syntax(),
    {
        Err(E::syntax_error())
    }

    /// Defaults to widening into `visit_i64`.
    fn visit_isize(&mut self, v: isize) -> Result<Self::Value, E> {
        self.visit_i64(v as i64)
    }

    /// Defaults to widening into `visit_i64`.
    fn visit_i8(&mut self, v: i8) -> Result<Self::Value, E> {
        self.visit_i64(v as i64)
    }

    /// Defaults to widening into `visit_i64`.
    fn visit_i16(&mut self, v: i16) -> Result<Self::Value, E> {
        self.visit_i64(v as i64)
    }

    /// Defaults to widening into `visit_i64`.
    fn visit_i32(&mut self, v: i32) -> Result<Self::Value, E> {
        self.visit_i64(v as i64)
    }

    fn visit_i64(&mut self, _v: i64) -> (r: Result<Self::Value, E>)
        default_ensures
            r matches Err(e) && e.is_syntax(),
    {
        Err(E::syntax_error())
    }

    /// Defaults to widening into `visit_u64`.
    fn visit_usize(&mut self, v: usize) -> Result<Self::Value, E> {
        self.visit_u64(v as u64)
    }

    /// Defaults to widening into `visit_u64`.
    fn visit_u8(&mut self, v: u8) -> Result<Self::Value, E> {
        self.visit_u64(v as u64)
    }

    /// Defaults to widening into `visit_u64`.
    fn visit_u16(&mut self, v: u16) -> Result<Self::Value, E> {
        self.visit_u64(v as u64)
    }

    /// Defaults to widening into `visit_u64`.
    fn visit_u32(&mut self, v: u32) -> Result<Self::Value, E> {
        self.visit_u64(v as u64)
    }

    fn visit_u64(&mut self, _v: u64) -> (r: Result<Self::Value, E>)
        default_ensures
            r matches Err(e) && e.is_syntax(),
    {
        Err(E::syntax_error())
    }

    /// Defaults to forwarding the character's one-character string form to
    /// `visit_str`.
    fn visit_char(&mut self, v: char) -> Result<Self::Value, E> {
        let s = char_to_string(v);
        self.visit_str(s.as_str())
    }

    fn visit_str(&mut self, _v: &str) -> (r: Result<Self::Value, E>)
        default_ensures
            r matches Err(e) && e.is_syntax(),
    {
        Err(E::syntax_error())
    }

    /// Defaults to forwarding the borrowed form to `visit_str`.
    fn visit_string(&mut self, v: String) -> Result<Self::Value, E> {
        self.visit_str(v.as_str())
    }

    fn visit_unit(&mut self) -> (r: Result<Self::Value, E>)
        default_ensures
            r matches Err(e) && e.is_syntax(),
    {
        Err(E::syntax_error())
    }

    /// Defaults to ignoring the advisory name.
    fn visit_named_unit(&mut self, _name: &str) -> Result<Self::Value, E> {
        self.visit_unit()
    }

    fn visit_none(&mut self) -> (r: Result<Self::Value, E>)
        default_ensures
            r matches Err(e) && e.is_syntax(),
    {
        Err(E::syntax_error())
    }

    fn visit_some(&mut self, _deserializer: &mut DS) -> (r: Result<Self::Value, E>)
        default_ensures
            r matches Err(e) && e.is_syntax(),
    {
        Err(E::syntax_error())
    }

    fn visit_seq(&mut self, _visitor: SV) -> (r: Result<Self::Value, E>)
        default_ensures
            r matches Err(e) && e.is_syntax(),
    {
        Err(E::syntax_error())
    }

    fn visit_map(&mut self, _visitor: MV) -> (r: Result<Self::Value, E>)
        default_ensures
            r matches Err(e) && e.is_syntax(),
    {
        Err(E::syntax_error())
    }

    fn visit_bytes(&mut self, _v: &[u8]) -> (r: Result<Self::Value, E>)
        default_ensures
            r matches Err(e) && e.is_syntax(),
    {
        Err(E::syntax_error())
    }

    fn visit_byte_buf(&mut self, _v: Vec<u8>) -> (r: Result<Self::Value, E>)
        default_ensures
            r matches Err(e) && e.is_syntax(),
    {
        Err(E::syntax_error())
    }
}

/// The one-character string form of a character.
///
/// Relies on `String::push`: pushing one character onto the empty string
/// leaves exactly that character as the string's contents.
#[verifier::external_body]
fn char_to_string(c: char) -> (s: String)
    ensures
        s@ == seq![c],
{
    let mut s = String::new();
    s.push(c);
    s
}

/// The format-side driver.  `visit` is the sole mandatory method; every
/// shape-specific entry point defaults to forwarding, so a format that can
/// fulfil one more efficiently overrides just that one.
///
/// `Some`, `Seq` and `Map` are the driver's own collaborator types handed
/// to a visitor's `visit_some`, `visit_seq` and `visit_map`; a driver that
/// never calls those methods may name `()` for them.
pub trait Deserializer: Sized {
    type Error: Error;

    /// The deserializer type handed to `Visitor::visit_some`.
    type Some;

    /// The sub-visitor type handed to `Visitor::visit_seq`; it should
    /// implement [`SeqVisitor`].
    type Seq;

    /// The sub-visitor type handed to `Visitor::visit_map`; it should
    /// implement [`MapVisitor`].
    type Map;

    /// Walks the visitor through the next value, calling exactly one of its
    /// methods.
    fn visit<V: Visitor<Self::Some, Self::Seq, Self::Map, Self::Error>>(
        &mut self,
        visitor: V,
    ) -> Result<V::Value, Self::Error>;

    /// Called when the type expects an optional value, so that a format
    /// encoding options as nullable values can map null to `None`.
    fn visit_option<V: Visitor<Self::Some, Self::Seq, Self::Map, Self::Error>>(
        &mut self,
        visitor: V,
    ) -> Result<V::Value, Self::Error> {
        self.visit(visitor)
    }

    /// Called when the type expects a sequence, for formats whose sequences
    /// are not self-tagged.
    fn visit_seq<V: Visitor<Self::Some, Self::Seq, Self::Map, Self::Error>>(
        &mut self,
        visitor: V,
    ) -> Result<V::Value, Self::Error> {
        self.visit(visitor)
    }

    /// Called when the type expects a map, for formats whose maps are not
    /// self-tagged.
    fn visit_map<V: Visitor<Self::Some, Self::Seq, Self::Map, Self::Error>>(
        &mut self,
        visitor: V,
    ) -> Result<V::Value, Self::Error> {
        self.visit(visitor)
    }

    /// Called when the type expects a named zero-field aggregate; the name
    /// is advisory.
    fn visit_named_unit<V: Visitor<Self::Some, Self::Seq, Self::Map, Self::Error>>(
        &mut self,
        _name: &str,
        visitor: V,
    ) -> Result<V::Value, Self::Error> {
        self.visit(visitor)
    }

    /// Called when the type expects a named sequence; the name is advisory.
    fn visit_named_seq<V: Visitor<Self::Some, Self::Seq, Self::Map, Self::Error>>(
        &mut self,
        _name: &str,
        visitor: V,
    ) -> Result<V::Value, Self::Error> {
        self.visit_seq(visitor)
    }

    /// Called when the type expects a named map; the name is advisory.
    fn visit_named_map<V: Visitor<Self::Some, Self::Seq, Self::Map, Self::Error>>(
        &mut self,
        _name: &str,
        visitor: V,
    ) -> Result<V::Value, Self::Error> {
        self.visit_map(visitor)
    }

    /// Called when the type expects a byte buffer, so binary formats need
    /// not pass blobs through a sequence of integers.
    fn visit_bytes<V: Visitor<Self::Some, Self::Seq, Self::Map, Self::Error>>(
        &mut self,
        visitor: V,
    ) -> Result<V::Value, Self::Error> {
        self.visit(visitor)
    }

    /// Called when the type expects an enum value.  Enum representation is
    /// inherently format-specific, so there is no forwarding default: a
    /// format opts in by overriding this, and otherwise the call is a
    /// syntax error.
    fn visit_enum<V: EnumVisitor>(&mut self, _enum_name: &str, _visitor: V) -> (r: Result<
        V::Value,
        Self::Error,
    >)
        default_ensures
            r matches Err(e) && e.is_syntax(),
    {
        Err(<Self::Error as Error>::syntax_error())
    }
}

/// The per-type entry point: build a visitor describing the shapes this
/// type accepts and hand it to the deserializer's `visit`.
pub trait Deserialize: Sized {
    /// Deserialize this value from the given deserializer.
    fn deserialize<D: Deserializer>(deserializer: &mut D) -> Result<Self, D::Error>;
}

/// Streams one sequence's elements: `visit` returns `Some` per element and
/// `None` exactly once, at the true end; `end` must be called afterward and
/// fails if unconsumed elements remain; `size_hint` is only an allocation
/// hint.
pub trait SeqVisitor: Sized {
    type Error: Error;

    /// Fetches the next element, or `None` at the end of the sequence.
    fn visit<T: Deserialize>(&mut self) -> Result<Option<T>, Self::Error>;

    /// Closes the sequence; fails with a syntax error on trailing elements.
    fn end(&mut self) -> Result<(), Self::Error>;

    /// A lower bound and optional upper bound on the element count, used
    /// only to pre-size the aggregate, never for correctness.
    fn size_hint(&self) -> (usize, Option<usize>) {
        (0, None)
    }
}

/// Streams one map's entries; keys and values can be fetched independently
/// for formats that separate their encodings.
pub trait MapVisitor: Sized {
    type Error: Error;

    /// Fetches the next entry, or `None` at the end of the map; the default
    /// composes `visit_key` and `visit_value`.
    fn visit<K: Deserialize, V: Deserialize>(&mut self) -> Result<Option<(K, V)>, Self::Error> {
        match self.visit_key() {
            Ok(Some(key)) => match self.visit_value() {
                Ok(value) => Ok(Some((key, value))),
                Err(e) => Err(e),
            },
            Ok(None) => Ok(None),
            Err(e) => Err(e),
        }
    }

    /// Fetches the next entry's key, or `None` at the end of the map.
    fn visit_key<K: Deserialize>(&mut self) -> Result<Option<K>, Self::Error>;

    /// Fetches the value belonging to the key just fetched.
    fn visit_value<V: Deserialize>(&mut self) -> Result<V, Self::Error>;

    /// Closes the map; fails with a syntax error on trailing entries.
    fn end(&mut self) -> Result<(), Self::Error>;

    /// A lower bound and optional upper bound on the entry count, used only
    /// to pre-size the aggregate, never for correctness.
    fn size_hint(&self) -> (usize, Option<usize>) {
        (0, None)
    }

    /// The hook an aggregate's visitor calls when a required member never
    /// appeared: the resulting error names exactly that member.
    fn missing_field<T: Deserialize>(&mut self, field: &'static str) -> (r: Result<
        T,
        Self::Error,
    >)
        ensures
            r matches Err(e) && e.missing_field_name() == Some(field@),
    {
        Err(<Self::Error as Error>::missing_field_error(field))
    }
}

impl<'a, V: SeqVisitor> SeqVisitor for &'a mut V {
    type Error = V::Error;

    fn visit<T: Deserialize>(&mut self) -> Result<Option<T>, V::Error> {
        (**self).visit()
    }

    fn end(&mut self) -> Result<(), V::Error> {
        (**self).end()
    }

    fn size_hint(&self) -> (usize, Option<usize>) {
        (**self).size_hint()
    }
}

impl<'a, V_: MapVisitor> MapVisitor for &'a mut V_ {
    type Error = V_::Error;

    fn visit<K: Deserialize, V: Deserialize>(&mut self) -> Result<Option<(K, V)>, V_::Error> {
        (**self).visit()
    }

    fn visit_key<K: Deserialize>(&mut self) -> Result<Option<K>, V_::Error> {
        (**self).visit_key()
    }

    fn visit_value<V: Deserialize>(&mut self) -> Result<V, V_::Error> {
        (**self).visit_value()
    }

    fn end(&mut self) -> Result<(), V_::Error> {
        (**self).end()
    }

    fn size_hint(&self) -> (usize, Option<usize>) {
        (**self).size_hint()
    }
}

/// Dispatches an enum value to a [`VariantVisitor`].  Enum representation
/// is format-specific, so a format opts into it explicitly by exposing an
/// enum entry point of its own that drives one of these.
pub trait EnumVisitor: Sized {
    type Value;

    fn visit<V: VariantVisitor>(&mut self, visitor: V) -> Result<Self::Value, V::Error>;
}

/// Resolves which variant is present, then decodes that variant's payload:
/// the two concerns are orthogonal across formats, so they are split.
pub trait VariantVisitor: Sized {
    type Error: Error;

    /// The discriminant the variant is resolved into: a small type such as
    /// an index or a name.
    type Variant;

    /// The collaborator types of the visitors handed to `visit_value`.
    type Some;

    type Seq;

    type Map;

    /// Resolves which variant is present.
    fn visit_variant(&mut self) -> Result<Self::Variant, Self::Error>;

    /// Decodes the resolved variant's payload through the ordinary visitor
    /// protocol.
    fn visit_value<V: Visitor<Self::Some, Self::Seq, Self::Map, Self::Error>>(
        &mut self,
        visitor: V,
    ) -> Result<V::Value, Self::Error>;
}

impl<'a, T: VariantVisitor> VariantVisitor for &'a mut T {
    type Error = T::Error;

    type Variant = T::Variant;

    type Some = T::Some;

    type Seq = T::Seq;

    type Map = T::Map;

    fn visit_variant(&mut self) -> Result<T::Variant, T::Error> {
        (**self).visit_variant()
    }

    fn visit_value<V: Visitor<T::Some, T::Seq, T::Map, T::Error>>(&mut self, visitor: V) -> Result<
        V::Value,
        T::Error,
    > {
        (**self).visit_value(visitor)
    }
}

/// Assembles an enum variant whose payload is a sequence.
pub trait EnumSeqVisitor: Sized {
    type Value;

    fn visit<V: SeqVisitor>(&mut self, visitor: V) -> Result<Self::Value, V::Error>;
}

/// Assembles an enum variant whose payload is a map.
pub trait EnumMapVisitor: Sized {
    type Value;

    fn visit<V: MapVisitor>(&mut self, visitor: V) -> Result<Self::Value, V::Error>;
}

} // verus!
