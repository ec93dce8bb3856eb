//! [`Deserializable`] implementations for the compound shapes — the unit
//! value, optional values, tuples and sequences — and the decoding of maps
//! framed as collections of key–value pairs.
//!
//! A collection frame is `CollectionStart(n)` followed by the element
//! framings and one matching `CollectionEnd`.  The hint `n` is advisory:
//! decoding stops exactly at the closing sentinel, whatever the hint said.
//! An optional value is `Null` for `None`, or the payload's own framing.

use vstd::prelude::*;

use std::collections::HashMap;

use crate::decode::{Decoded, Deserializable, TokenDeserializer, dec_token_post};
use crate::token::{Error, Token};

verus! {

impl Deserializable for () {
    open spec fn dec(s: Seq<Token>) -> Decoded<()> {
        if s.len() == 0 {
            Decoded::Fail(Error::EndOfStreamError)
        } else {
            match s[0] {
                Token::Null => Decoded::Found((), s.skip(1)),
                Token::CollectionStart(_) => if s.len() == 1 {
                    Decoded::Fail(Error::EndOfStreamError)
                } else if s[1] is CollectionEnd {
                    Decoded::Found((), s.skip(2))
                } else {
                    Decoded::Fail(Error::SyntaxError)
                },
                _ => Decoded::Fail(Error::SyntaxError),
            }
        }
    }

    open spec fn encodes(v: (), s: Seq<Token>) -> bool {
        ||| (s.len() == 1 && s[0] is Null)
        ||| (s.len() == 2 && s[0] is CollectionStart && s[1] is CollectionEnd)
    }

    open spec fn round_trips(v: ()) -> bool {
        true
    }

    proof fn lemma_dec_empty() {
    }

    proof fn lemma_dec_consumes(s: Seq<Token>) {
    }

    proof fn lemma_enc_head(v: (), s: Seq<Token>) {
    }

    proof fn lemma_round_trip(v: (), s: Seq<Token>, rest: Seq<Token>) {
        if s.len() == 1 {
            assert((s + rest).skip(1) =~= rest);
        } else {
            assert((s + rest).skip(2) =~= rest);
        }
    }

    proof fn lemma_premature_end(v: (), s: Seq<Token>, k: int) {
        if k == 0 {
            assert(s.take(k) =~= Seq::<Token>::empty());
        } else {
            assert(s.take(k).len() == 1);
        }
    }

    fn deserialize_token(d: &mut TokenDeserializer, token: Token) -> (r: Result<(), Error>) {
        let r = d.expect_null(token);
        proof {
            let s0 = seq![token] + old(d)@;
            assert(s0.skip(1) =~= old(d)@);
            if old(d)@.len() >= 1 {
                assert(s0.skip(2) =~= old(d)@.skip(1));
            }
        }
        r
    }
}

impl TokenDeserializer {
    /// Decodes an optional value: a `Null` token is `None`, and any other
    /// token opens the framing of a `Some` payload.
    pub fn expect_option<T: Deserializable>(&mut self, token: Token) -> (r: Result<
        Option<T>,
        Error,
    >)
        ensures
            dec_token_post::<Option<T>>(token, old(self)@, r, final(self)@),
    {
        Option::<T>::deserialize_token(self, token)
    }
}

impl<T: Deserializable> Deserializable for Option<T> {
    open spec fn dec(s: Seq<Token>) -> Decoded<Option<T::V>> {
        if s.len() == 0 {
            Decoded::Fail(Error::EndOfStreamError)
        } else if s[0] is Null {
            Decoded::Found(None, s.skip(1))
        } else {
            match T::dec(s) {
                Decoded::Found(v, rest) => Decoded::Found(Some(v), rest),
                Decoded::Fail(e) => Decoded::Fail(e),
            }
        }
    }

    open spec fn encodes(v: Option<T::V>, s: Seq<Token>) -> bool {
        match v {
            None => s.len() == 1 && s[0] is Null,
            Some(x) => T::encodes(x, s),
        }
    }

    open spec fn round_trips(v: Option<T::V>) -> bool {
        match v {
            None => true,
            Some(x) => T::round_trips(x) && forall|s: Seq<Token>|
                #[trigger] T::encodes(x, s) ==> !(s[0] is Null),
        }
    }

    proof fn lemma_dec_empty() {
    }

    proof fn lemma_dec_consumes(s: Seq<Token>) {
        T::lemma_dec_consumes(s);
    }

    proof fn lemma_enc_head(v: Option<T::V>, s: Seq<Token>) {
        match v {
            None => {},
            Some(x) => {
                T::lemma_enc_head(x, s);
            },
        }
    }

    proof fn lemma_round_trip(v: Option<T::V>, s: Seq<Token>, rest: Seq<Token>) {
        match v {
            None => {
                assert((s + rest).skip(1) =~= rest);
            },
            Some(x) => {
                T::lemma_enc_head(x, s);
                assert((s + rest)[0] == s[0]);
                T::lemma_round_trip(x, s, rest);
            },
        }
    }

    proof fn lemma_premature_end(v: Option<T::V>, s: Seq<Token>, k: int) {
        if k == 0 {
            assert(s.take(k) =~= Seq::<Token>::empty());
        } else {
            match v {
                None => {},
                Some(x) => {
                    T::lemma_enc_head(x, s);
                    assert(s.take(k)[0] == s[0]);
                    T::lemma_premature_end(x, s, k);
                },
            }
        }
    }

    fn deserialize_token(d: &mut TokenDeserializer, token: Token) -> (r: Result<
        Option<T>,
        Error,
    >) {
        match token {
            Token::Null => {
                proof {
                    assert((seq![token] + old(d)@).skip(1) =~= old(d)@);
                }
                Ok(None)
            },
            _ => {
                let value: T = match T::deserialize_token(d, token) {
                    Ok(v) => v,
                    Err(e) => {
                        return Err(e);
                    },
                };
                Ok(Some(value))
            },
        }
    }
}

impl<T0: Deserializable> Deserializable for (T0,) {
    open spec fn dec(s: Seq<Token>) -> Decoded<(T0::V,)> {
        if s.len() == 0 {
            Decoded::Fail(Error::EndOfStreamError)
        } else if !(s[0] is CollectionStart) {
            Decoded::Fail(Error::SyntaxError)
        } else {
            match T0::dec(s.skip(1)) {
                Decoded::Fail(e) => Decoded::Fail(e),
                Decoded::Found(v0, r0) => if r0.len() == 0 {
                    Decoded::Fail(Error::EndOfStreamError)
                } else if r0[0] is CollectionEnd {
                    Decoded::Found((v0,), r0.skip(1))
                } else {
                    Decoded::Fail(Error::SyntaxError)
                },
            }
        }
    }

    open spec fn encodes(v: (T0::V,), s: Seq<Token>) -> bool {
        &&& s.len() >= 2
        &&& s[0] is CollectionStart
        &&& s.last() is CollectionEnd
        &&& T0::encodes(v.0, s.subrange(1, s.len() - 1))
    }

    open spec fn round_trips(v: (T0::V,)) -> bool {
        T0::round_trips(v.0)
    }

    proof fn lemma_dec_empty() {
    }

    proof fn lemma_dec_consumes(s: Seq<Token>) {
        if s.len() > 0 && s[0] is CollectionStart {
            T0::lemma_dec_consumes(s.skip(1));
        }
    }

    proof fn lemma_enc_head(v: (T0::V,), s: Seq<Token>) {
    }

    proof fn lemma_round_trip(v: (T0::V,), s: Seq<Token>, rest: Seq<Token>) {
        let e0 = s.subrange(1, s.len() - 1);
        T0::lemma_enc_head(v.0, e0);
        let tail = seq![Token::CollectionEnd] + rest;
        assert((s + rest).skip(1) =~= e0 + tail);
        T0::lemma_round_trip(v.0, e0, tail);
        assert(tail.skip(1) =~= rest);
    }

    proof fn lemma_premature_end(v: (T0::V,), s: Seq<Token>, k: int) {
        if k == 0 {
            assert(s.take(k) =~= Seq::<Token>::empty());
        } else {
            let e0 = s.subrange(1, s.len() - 1);
            T0::lemma_enc_head(v.0, e0);
            let j = k - 1;
            assert(s.take(k).skip(1) =~= e0.take(j));
            if j < e0.len() {
                T0::lemma_premature_end(v.0, e0, j);
            } else {
                assert(e0.take(j) =~= e0 + Seq::<Token>::empty());
                T0::lemma_round_trip(v.0, e0, Seq::empty());
            }
        }
    }

    fn deserialize_token(d: &mut TokenDeserializer, token: Token) -> (r: Result<(T0,), Error>) {
        let ghost s0 = seq![token] + old(d)@;
        proof {
            assert(s0.skip(1) =~= old(d)@);
        }
        if let Err(e) = d.expect_collection_start(token) {
            return Err(e);
        }
        proof {
            T0::lemma_dec_consumes(old(d)@);
        }
        let x0: T0 = match T0::deserialize(d) {
            Ok(v) => v,
            Err(e) => {
                return Err(e);
            },
        };
        let t = match d.expect_token() {
            Ok(t) => t,
            Err(e) => {
                return Err(e);
            },
        };
        match d.expect_collection_end(t) {
            Ok(_) => Ok((x0,)),
            Err(e) => Err(e),
        }
    }
}

impl<T0: Deserializable, T1: Deserializable> Deserializable for (T0, T1) {
    open spec fn dec(s: Seq<Token>) -> Decoded<(T0::V, T1::V)> {
        if s.len() == 0 {
            Decoded::Fail(Error::EndOfStreamError)
        } else if !(s[0] is CollectionStart) {
            Decoded::Fail(Error::SyntaxError)
        } else {
            match T0::dec(s.skip(1)) {
                Decoded::Fail(e) => Decoded::Fail(e),
                Decoded::Found(v0, r0) => match T1::dec(r0) {
                    Decoded::Fail(e) => Decoded::Fail(e),
                    Decoded::Found(v1, r1) => if r1.len() == 0 {
                        Decoded::Fail(Error::EndOfStreamError)
                    } else if r1[0] is CollectionEnd {
                        Decoded::Found((v0, v1), r1.skip(1))
                    } else {
                        Decoded::Fail(Error::SyntaxError)
                    },
                },
            }
        }
    }

    open spec fn encodes(v: (T0::V, T1::V), s: Seq<Token>) -> bool {
        &&& s.len() >= 2
        &&& s[0] is CollectionStart
        &&& s.last() is CollectionEnd
        &&& exists|i: int|
            1 <= i <= s.len() - 1 && #[trigger] T0::encodes(v.0, s.subrange(1, i))
                && T1::encodes(v.1, s.subrange(i, s.len() - 1))
    }

    open spec fn round_trips(v: (T0::V, T1::V)) -> bool {
        T0::round_trips(v.0) && T1::round_trips(v.1)
    }

    proof fn lemma_dec_empty() {
    }

    proof fn lemma_dec_consumes(s: Seq<Token>) {
        if s.len() > 0 && s[0] is CollectionStart {
            T0::lemma_dec_consumes(s.skip(1));
            match T0::dec(s.skip(1)) {
                Decoded::Found(v0, r0) => {
                    T1::lemma_dec_consumes(r0);
                },
                Decoded::Fail(_) => {},
            }
        }
    }

    proof fn lemma_enc_head(v: (T0::V, T1::V), s: Seq<Token>) {
    }

    proof fn lemma_round_trip(v: (T0::V, T1::V), s: Seq<Token>, rest: Seq<Token>) {
        let i = choose|i: int|
            1 <= i <= s.len() - 1 && #[trigger] T0::encodes(v.0, s.subrange(1, i))
                && T1::encodes(v.1, s.subrange(i, s.len() - 1));
        let e0 = s.subrange(1, i);
        let e1 = s.subrange(i, s.len() - 1);
        T0::lemma_enc_head(v.0, e0);
        T1::lemma_enc_head(v.1, e1);
        let tail = seq![Token::CollectionEnd] + rest;
        assert((s + rest).skip(1) =~= e0 + (e1 + tail));
        T0::lemma_round_trip(v.0, e0, e1 + tail);
        T1::lemma_round_trip(v.1, e1, tail);
        assert(tail.skip(1) =~= rest);
    }

    proof fn lemma_premature_end(v: (T0::V, T1::V), s: Seq<Token>, k: int) {
        if k == 0 {
            assert(s.take(k) =~= Seq::<Token>::empty());
        } else {
            let i = choose|i: int|
                1 <= i <= s.len() - 1 && #[trigger] T0::encodes(v.0, s.subrange(1, i))
                    && T1::encodes(v.1, s.subrange(i, s.len() - 1));
            let e0 = s.subrange(1, i);
            let e1 = s.subrange(i, s.len() - 1);
            T0::lemma_enc_head(v.0, e0);
            T1::lemma_enc_head(v.1, e1);
            let j = k - 1;
            if j < e0.len() {
                assert(s.take(k).skip(1) =~= e0.take(j));
                T0::lemma_premature_end(v.0, e0, j);
            } else {
                assert(s.take(k).skip(1) =~= e0 + e1.take(j - e0.len()));
                T0::lemma_round_trip(v.0, e0, e1.take(j - e0.len()));
                if j - e0.len() < e1.len() {
                    T1::lemma_premature_end(v.1, e1, j - e0.len());
                } else {
                    assert(e1.take(j - e0.len()) =~= e1 + Seq::<Token>::empty());
                    T1::lemma_round_trip(v.1, e1, Seq::empty());
                }
            }
        }
    }

    fn deserialize_token(d: &mut TokenDeserializer, token: Token) -> (r: Result<(T0, T1), Error>) {
        let ghost s0 = seq![token] + old(d)@;
        proof {
            assert(s0.skip(1) =~= old(d)@);
        }
        if let Err(e) = d.expect_collection_start(token) {
            return Err(e);
        }
        proof {
            T0::lemma_dec_consumes(old(d)@);
        }
        let x0: T0 = match T0::deserialize(d) {
            Ok(v) => v,
            Err(e) => {
                return Err(e);
            },
        };
        proof {
            T1::lemma_dec_consumes(d@);
        }
        let x1: T1 = match T1::deserialize(d) {
            Ok(v) => v,
            Err(e) => {
                return Err(e);
            },
        };
        let t = match d.expect_token() {
            Ok(t) => t,
            Err(e) => {
                return Err(e);
            },
        };
        match d.expect_collection_end(t) {
            Ok(_) => Ok((x0, x1)),
            Err(e) => Err(e),
        }
    }
}

/// The spec-level decoder for the elements of one collection: element
/// framings are consumed until the matching `CollectionEnd`, which is
/// stripped.  Running out of tokens owes `EndOfStreamError`.
pub open spec fn dec_elems<T: Deserializable>(s: Seq<Token>) -> Decoded<Seq<T::V>>
    decreases s.len(),
{
    if s.len() == 0 {
        Decoded::Fail(Error::EndOfStreamError)
    } else if s[0] is CollectionEnd {
        Decoded::Found(Seq::empty(), s.skip(1))
    } else {
        match T::dec(s) {
            Decoded::Found(v, rest) => if rest.len() < s.len() {
                match dec_elems::<T>(rest) {
                    Decoded::Found(vs, rest2) => Decoded::Found(seq![v] + vs, rest2),
                    Decoded::Fail(e) => Decoded::Fail(e),
                }
            } else {
                // Never reached: a successful decode consumes at least one
                // token, which lemma_dec_consumes states for every type.
                Decoded::Fail(Error::SyntaxError)
            },
            Decoded::Fail(e) => Decoded::Fail(e),
        }
    }
}

/// Whether `s` is the concatenation of one correct framing per element of
/// `vs`, in order, with nothing in between or left over.
pub open spec fn encodes_elems<T: Deserializable>(vs: Seq<T::V>, s: Seq<Token>) -> bool
    decreases vs.len(),
{
    if vs.len() == 0 {
        s.len() == 0
    } else {
        exists|i: int|
            0 < i <= s.len() && #[trigger] T::encodes(vs[0], s.take(i)) && encodes_elems::<T>(
                vs.skip(1),
                s.skip(i),
            )
    }
}

/// Prefixes already-decoded elements onto the outcome of decoding the
/// remaining elements.
pub open spec fn elems_prepend<V>(prefix: Seq<V>, d: Decoded<Seq<V>>) -> Decoded<Seq<V>> {
    match d {
        Decoded::Found(vs, rest) => Decoded::Found(prefix + vs, rest),
        Decoded::Fail(e) => Decoded::Fail(e),
    }
}

/// A successful element-stream decode consumes at least its closing
/// sentinel.
pub proof fn lemma_dec_elems_consumes<T: Deserializable>(s: Seq<Token>)
    ensures
        dec_elems::<T>(s) matches Decoded::Found(vs, rest) ==> rest.len() < s.len(),
    decreases s.len(),
{
    if s.len() == 0 {
    } else if s[0] is CollectionEnd {
    } else {
        match T::dec(s) {
            Decoded::Found(v, rest) => {
                if rest.len() < s.len() {
                    lemma_dec_elems_consumes::<T>(rest);
                }
            },
            Decoded::Fail(_) => {},
        }
    }
}

/// Round trip for element streams: the framings of `vs`, then the closing
/// sentinel, then `rest` decode to exactly `vs` with `rest` remaining.
pub proof fn lemma_elems_round_trip<T: Deserializable>(
    vs: Seq<T::V>,
    m: Seq<Token>,
    rest: Seq<Token>,
)
    requires
        forall|i: int| 0 <= i < vs.len() ==> T::round_trips(#[trigger] vs[i]),
        encodes_elems::<T>(vs, m),
    ensures
        dec_elems::<T>(m + (seq![Token::CollectionEnd] + rest)) == Decoded::Found::<Seq<T::V>>(
            vs,
            rest,
        ),
    decreases vs.len(),
{
    let s = m + (seq![Token::CollectionEnd] + rest);
    if vs.len() == 0 {
        assert(s =~= seq![Token::CollectionEnd] + rest);
        assert(s.skip(1) =~= rest);
        assert(vs =~= Seq::<T::V>::empty());
    } else {
        let i = choose|i: int|
            0 < i <= m.len() && #[trigger] T::encodes(vs[0], m.take(i)) && encodes_elems::<T>(
                vs.skip(1),
                m.skip(i),
            );
        let e0 = m.take(i);
        let m1 = m.skip(i);
        T::lemma_enc_head(vs[0], e0);
        assert(s[0] == e0[0]);
        let tail = m1 + (seq![Token::CollectionEnd] + rest);
        assert(s =~= e0 + tail);
        T::lemma_round_trip(vs[0], e0, tail);
        T::lemma_dec_consumes(s);
        assert forall|j: int| 0 <= j < vs.skip(1).len() implies T::round_trips(
            #[trigger] vs.skip(1)[j],
        ) by {
            assert(vs.skip(1)[j] == vs[j + 1]);
        }
        lemma_elems_round_trip::<T>(vs.skip(1), m1, rest);
        assert(seq![vs[0]] + vs.skip(1) =~= vs);
    }
}

/// Premature end for element streams: any strict prefix of the framings of
/// `vs` (the closing sentinel not yet seen) decodes to `EndOfStreamError`.
pub proof fn lemma_elems_premature<T: Deserializable>(vs: Seq<T::V>, m: Seq<Token>, j: int)
    requires
        forall|i: int| 0 <= i < vs.len() ==> T::round_trips(#[trigger] vs[i]),
        encodes_elems::<T>(vs, m),
        0 <= j <= m.len(),
    ensures
        dec_elems::<T>(m.take(j)) == Decoded::Fail::<Seq<T::V>>(Error::EndOfStreamError),
    decreases vs.len(),
{
    if j == 0 {
        assert(m.take(j) =~= Seq::<Token>::empty());
    } else {
        assert(vs.len() > 0);
        let i = choose|i: int|
            0 < i <= m.len() && #[trigger] T::encodes(vs[0], m.take(i)) && encodes_elems::<T>(
                vs.skip(1),
                m.skip(i),
            );
        let e0 = m.take(i);
        let m1 = m.skip(i);
        T::lemma_enc_head(vs[0], e0);
        let t = m.take(j);
        assert(t[0] == e0[0]);
        if j < i {
            assert(t =~= e0.take(j));
            T::lemma_premature_end(vs[0], e0, j);
        } else {
            assert(t =~= e0 + m1.take(j - i));
            T::lemma_round_trip(vs[0], e0, m1.take(j - i));
            assert forall|q: int| 0 <= q < vs.skip(1).len() implies T::round_trips(
                #[trigger] vs.skip(1)[q],
            ) by {
                assert(vs.skip(1)[q] == vs[q + 1]);
            }
            lemma_elems_premature::<T>(vs.skip(1), m1, j - i);
            assert(m1.take(j - i).len() < t.len());
        }
    }
}

impl TokenDeserializer {
    /// Drains exactly the elements between a `CollectionStart` and its
    /// matching `CollectionEnd` into a vector.  The start token's length
    /// hint only pre-sizes the vector; decoding stops at the closing
    /// sentinel whether or not the hint matched the actual count.
    pub fn expect_collection<T: Deserializable>(&mut self, token: Token) -> (r: Result<
        Vec<T>,
        Error,
    >)
        ensures
            dec_token_post::<Vec<T>>(token, old(self)@, r, final(self)@),
    {
        Vec::<T>::deserialize_token(self, token)
    }
}

impl<T: Deserializable> Deserializable for Vec<T> {
    open spec fn dec(s: Seq<Token>) -> Decoded<Seq<T::V>> {
        if s.len() == 0 {
            Decoded::Fail(Error::EndOfStreamError)
        } else if !(s[0] is CollectionStart) {
            Decoded::Fail(Error::SyntaxError)
        } else {
            dec_elems::<T>(s.skip(1))
        }
    }

    open spec fn encodes(vs: Seq<T::V>, s: Seq<Token>) -> bool {
        &&& s.len() >= 2
        &&& s[0] is CollectionStart
        &&& s.last() is CollectionEnd
        &&& encodes_elems::<T>(vs, s.subrange(1, s.len() - 1))
    }

    open spec fn round_trips(vs: Seq<T::V>) -> bool {
        forall|i: int| 0 <= i < vs.len() ==> T::round_trips(#[trigger] vs[i])
    }

    proof fn lemma_dec_empty() {
    }

    proof fn lemma_dec_consumes(s: Seq<Token>) {
        if s.len() > 0 && s[0] is CollectionStart {
            lemma_dec_elems_consumes::<T>(s.skip(1));
        }
    }

    proof fn lemma_enc_head(vs: Seq<T::V>, s: Seq<Token>) {
    }

    proof fn lemma_round_trip(vs: Seq<T::V>, s: Seq<Token>, rest: Seq<Token>) {
        let m = s.subrange(1, s.len() - 1);
        assert((s + rest)[0] == s[0]);
        assert((s + rest).skip(1) =~= m + (seq![Token::CollectionEnd] + rest));
        lemma_elems_round_trip::<T>(vs, m, rest);
    }

    proof fn lemma_premature_end(vs: Seq<T::V>, s: Seq<Token>, k: int) {
        if k == 0 {
            assert(s.take(k) =~= Seq::<Token>::empty());
        } else {
            let m = s.subrange(1, s.len() - 1);
            assert(s.take(k)[0] == s[0]);
            assert(s.take(k).skip(1) =~= m.take(k - 1));
            lemma_elems_premature::<T>(vs, m, k - 1);
        }
    }

    #[verifier::loop_isolation(false)]
    fn deserialize_token(d: &mut TokenDeserializer, token: Token) -> (r: Result<Vec<T>, Error>) {
        let ghost s0 = seq![token] + old(d)@;
        proof {
            assert(s0.skip(1) =~= old(d)@);
        }
        let len_hint = match d.expect_collection_start(token) {
            Ok(l) => l,
            Err(e) => {
                return Err(e);
            },
        };
        let ghost s_elems = old(d)@;
        let mut result: Vec<T> = Vec::with_capacity(len_hint);
        proof {
            assert(result.deep_view() =~= Seq::<T::V>::empty());
            match dec_elems::<T>(s_elems) {
                Decoded::Found(vs, r2) => {
                    assert(Seq::<T::V>::empty() + vs =~= vs);
                },
                Decoded::Fail(_) => {},
            }
        }
        loop
            invariant
                elems_prepend::<T::V>(result.deep_view(), dec_elems::<T>(d@)) == dec_elems::<T>(
                    s_elems,
                ),
                d@.len() <= s_elems.len(),
            decreases d@.len(),
        {
            let ghost s_iter = d@;
            let t = match d.expect_token() {
                Ok(t) => t,
                Err(e) => {
                    return Err(e);
                },
            };
            match t {
                Token::CollectionEnd => {
                    proof {
                        assert(result.deep_view() + Seq::<T::V>::empty() =~= result.deep_view());
                    }
                    return Ok(result);
                },
                _ => {
                    proof {
                        assert(seq![t] + d@ =~= s_iter);
                        T::lemma_dec_consumes(s_iter);
                    }
                    let ghost before = result.deep_view();
                    let v: T = match T::deserialize_token(d, t) {
                        Ok(v) => v,
                        Err(e) => {
                            return Err(e);
                        },
                    };
                    result.push(v);
                    proof {
                        assert(result.deep_view() =~= before + seq![v.deep_view()]);
                        match dec_elems::<T>(d@) {
                            Decoded::Found(vs, r2) => {
                                assert(before + (seq![v.deep_view()] + vs) =~= (before + seq![
                                    v.deep_view(),
                                ]) + vs);
                            },
                            Decoded::Fail(_) => {},
                        }
                    }
                },
            }
        }
    }
}

/// The map built from a sequence of key–value pairs, inserted in order: a
/// later pair with the same key overrides an earlier one.
pub open spec fn pairs_to_map<KV, VV>(ps: Seq<(KV, VV)>) -> Map<KV, VV>
    decreases ps.len(),
{
    if ps.len() == 0 {
        Map::empty()
    } else {
        pairs_to_map(ps.drop_last()).insert(ps.last().0, ps.last().1)
    }
}

/// Inserting one entry into a hash map inserts exactly its model entry into
/// the map's model, provided distinct keys have distinct models.
proof fn lemma_hashmap_deep_insert<K: DeepView + Eq + core::hash::Hash, V: DeepView>(
    m0: HashMap<K, V>,
    m1: HashMap<K, V>,
    k: K,
    v: V,
)
    requires
        vstd::relations::injective(|k: K| k.deep_view()),
        m1@ == m0@.insert(k, v),
    ensures
        m1.deep_view() == m0.deep_view().insert(k.deep_view(), v.deep_view()),
{
    vstd::std_specs::hash::lemma_hashmap_deepview_properties::<K, V>(m0);
    vstd::std_specs::hash::lemma_hashmap_deepview_properties::<K, V>(m1);
    let dv = |q: K| q.deep_view();
    let lhs = m1.deep_view();
    let rhs = m0.deep_view().insert(k.deep_view(), v.deep_view());
    assert forall|dk: <K as DeepView>::V| #[trigger] lhs.contains_key(dk) implies rhs.contains_key(
        dk,
    ) && lhs[dk] == rhs[dk] by {
        let k1 = choose|k1: K| (#[trigger] k1.deep_view()) == dk && m1@.contains_key(k1);
        if k1 == k {
            assert(m1@[k] == v);
        } else {
            assert(dv(k1) != dv(k));
            assert(m0@.contains_key(k1));
            assert(m0.deep_view().contains_key(dk));
        }
    }
    assert forall|dk: <K as DeepView>::V| #[trigger] rhs.contains_key(dk) implies lhs.contains_key(
        dk,
    ) by {
        if dk == k.deep_view() {
            assert(m1@.contains_key(k));
        } else {
            let k1 = choose|k1: K| (#[trigger] k1.deep_view()) == dk && m0@.contains_key(k1);
            assert(m1@.contains_key(k1));
        }
    }
    assert(lhs =~= rhs);
}

/// Decodes a map framed as a collection of two-element collections, one per
/// entry, into a hash map: entries are inserted in stream order, a later
/// entry with the same key overriding an earlier one.
///
/// The key type must fit hashing's model (`obeys_key_model`) and distinct
/// keys must have distinct models, which holds for the integer and string
/// keys maps are keyed by here.
#[verifier::loop_isolation(false)]
pub fn deserialize_hashmap<K: Deserializable + Eq + core::hash::Hash, V: Deserializable>(
    d: &mut TokenDeserializer,
    token: Token,
) -> (r: Result<HashMap<K, V>, Error>)
    requires
        vstd::std_specs::hash::obeys_key_model::<K>(),
        vstd::relations::injective(|k: K| k.deep_view()),
    ensures
        (match <Vec<(K, V)> as Deserializable>::dec(seq![token] + old(d)@) {
            Decoded::Found(pairs, rest) => (r matches Ok(m) && m.deep_view() == pairs_to_map(
                pairs,
            )) && final(d)@ == rest,
            Decoded::Fail(e) => r == Err::<HashMap<K, V>, Error>(e) && final(d)@.len() <= old(
                d,
            )@.len(),
        }),
{
    broadcast use vstd::std_specs::hash::group_hash_axioms;

    let mut pairs: Vec<(K, V)> = match Vec::<(K, V)>::deserialize_token(d, token) {
        Ok(p) => p,
        Err(e) => {
            return Err(e);
        },
    };
    let ghost all_pairs = pairs.deep_view();
    let mut m: HashMap<K, V> = HashMap::new();
    proof {
        vstd::std_specs::hash::lemma_hashmap_deepview_dom::<K, V>(m);
        assert(m@.dom().map(|k: K| k.deep_view()) =~= Set::<<K as DeepView>::V>::empty());
        assert(m.deep_view() =~= Map::<<K as DeepView>::V, <V as DeepView>::V>::empty());
        assert(all_pairs.take(0) =~= Seq::<(<K as DeepView>::V, <V as DeepView>::V)>::empty());
    }
    let ghost mut done: int = 0;
    while pairs.len() > 0
        invariant
            0 <= done <= all_pairs.len(),
            pairs.deep_view() == all_pairs.skip(done),
            m.deep_view() == pairs_to_map(all_pairs.take(done)),
        decreases pairs@.len(),
    {
        let ghost m_before = m;
        let ghost pairs_before = pairs@;
        let ghost pairs_before_dv = pairs.deep_view();
        let (k, v) = pairs.remove(0);
        proof {
            assert(pairs@ =~= pairs_before.skip(1));
            assert(pairs.deep_view() =~= pairs_before_dv.skip(1));
            assert(pairs.deep_view() =~= all_pairs.skip(done + 1));
            assert(all_pairs.skip(done)[0] == (k.deep_view(), v.deep_view()));
        }
        m.insert(k, v);
        proof {
            lemma_hashmap_deep_insert(m_before, m, k, v);
            assert(all_pairs.take(done + 1).drop_last() =~= all_pairs.take(done));
            assert(all_pairs.take(done + 1).last() == all_pairs[done]);
            assert(all_pairs[done] == all_pairs.skip(done)[0]);
        }
        proof {
            done = done + 1;
        }
    }
    proof {
        assert(all_pairs.take(done) =~= all_pairs);
    }
    Ok(m)
}

} // verus!
