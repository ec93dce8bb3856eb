//! A format-agnostic, type-agnostic deserialization protocol.
//!
//! The crate has two independent designs that reach the same goal:
//!
//! * a pull model, where a deserializer is a stream of tagged [`token::Token`]s
//!   and a family of `expect_*` operations decodes the next token into a
//!   concrete value ([`token`], [`decode`], [`compound`]);
//! * a push model, where a format-side driver walks a type-side
//!   [`de::Visitor`] through the value being deserialized ([`de`]).
//!
//! The [`fields`] module carries the field-naming rules that aggregate
//! deserialization glue relies on: per-field renames and default-on-missing
//! flags read from attribute metadata.

pub mod compound;
pub mod de;
pub mod decode;
pub mod fields;
pub mod laws;
pub mod primitives;
pub mod token;
