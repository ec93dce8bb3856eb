//! Crate-level laws of the pull-model decoder, stated over the spec-level
//! decoders of [`crate::decode::Deserializable`].
//!
//! The round-trip and premature-end laws are part of the trait itself
//! ([`crate::decode::Deserializable::lemma_round_trip`],
//! [`crate::decode::Deserializable::lemma_premature_end`]), so every
//! implementation proves them; the laws here relate the compound decoders to
//! their parts.

use vstd::prelude::*;

use crate::decode::{Decoded, Deserializable};
use crate::token::Token;

verus! {

/// An empty collection frame — `CollectionStart(n)` immediately followed by
/// `CollectionEnd` — decodes to the empty sequence for any element type and
/// consumes nothing past the closing sentinel, whatever the hint `n` says.
pub proof fn lemma_empty_collection<T: Deserializable>(n: usize, rest: Seq<Token>)
    ensures
        <Vec<T> as Deserializable>::dec(
            seq![Token::CollectionStart(n), Token::CollectionEnd] + rest,
        ) == Decoded::Found::<Seq<T::V>>(Seq::empty(), rest),
{
    let s = seq![Token::CollectionStart(n), Token::CollectionEnd] + rest;
    assert(s.skip(1) =~= seq![Token::CollectionEnd] + rest);
    assert(s.skip(1).skip(1) =~= rest);
}

/// The hint carried by `CollectionStart` never changes what a collection
/// decodes to: two frames that differ only in the hint decode alike.
pub proof fn lemma_size_hint_independent<T: Deserializable>(n: usize, m: usize, s: Seq<Token>)
    ensures
        <Vec<T> as Deserializable>::dec(seq![Token::CollectionStart(n)] + s) == <Vec<
            T,
        > as Deserializable>::dec(seq![Token::CollectionStart(m)] + s),
{
    assert((seq![Token::CollectionStart(n)] + s).skip(1) =~= s);
    assert((seq![Token::CollectionStart(m)] + s).skip(1) =~= s);
}

/// Option duality: a stream opening with `Null` decodes to `None` and
/// consumes the one token; any other stream decodes to `Some` of exactly
/// what it would decode to standalone, or fails exactly as the standalone
/// decode fails.
pub proof fn lemma_option_duality<T: Deserializable>(s: Seq<Token>)
    requires
        s.len() > 0,
    ensures
        s[0] is Null ==> <Option<T> as Deserializable>::dec(s) == Decoded::Found::<
            Option<T::V>,
        >(None, s.skip(1)),
        !(s[0] is Null) ==> <Option<T> as Deserializable>::dec(s) == (match T::dec(s) {
            Decoded::Found(v, rest) => Decoded::Found::<Option<T::V>>(Some(v), rest),
            Decoded::Fail(e) => Decoded::Fail::<Option<T::V>>(e),
        }),
{
}

} // verus!
