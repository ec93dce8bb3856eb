//! The pull-model deserializer: a cursor over a stream of [`Token`]s, the
//! `expect_*` family that decodes one already-fetched token, and the
//! [`Deserializable`] trait tying a type to its spec-level decoder.
//!
//! Every decode is specified against [`Deserializable::dec`], a total
//! spec-level decoder from a token stream to either a model value plus the
//! remaining stream, or the exact error the decode fails with.

use vstd::prelude::*;

use crate::token::{Error, Token, int_value, token_wide, wide_to_i8, wide_to_i16, wide_to_i32,
    wide_to_i64, wide_to_int, wide_to_u8, wide_to_u16, wide_to_u32, wide_to_u64, wide_to_uint};

verus! {

/// The outcome of the spec-level decoder on a token stream: a model value
/// with the stream that remains past it, or the error the decode owes.
pub enum Decoded<V> {
    Found(V, Seq<Token>),
    Fail(Error),
}

/// A pull-model deserializer: it owns the cursor over a complete token
/// stream, consumed left to right exactly once.  Its view is the sequence of
/// tokens still to come.
pub struct TokenDeserializer {
    tokens: Vec<Token>,
}

impl View for TokenDeserializer {
    type V = Seq<Token>;

    closed spec fn view(&self) -> Seq<Token> {
        self.tokens@
    }
}

impl TokenDeserializer {
    /// Builds a deserializer over a complete token stream.
    pub fn new(tokens: Vec<Token>) -> (d: TokenDeserializer)
        ensures
            d@ == tokens@,
    {
        TokenDeserializer { tokens }
    }

    /// Fetches the next token, or `EndOfStreamError` when the input is
    /// exhausted.
    pub fn expect_token(&mut self) -> (r: Result<Token, Error>)
        ensures
            match r {
                Ok(t) => old(self)@.len() > 0 && t == old(self)@[0] && final(self)@ == old(
                    self,
                )@.skip(1),
                Err(e) => old(self)@.len() == 0 && e == Error::EndOfStreamError && final(self)@
                    == old(self)@,
            },
    {
        if self.tokens.len() > 0 {
            let t = self.tokens.remove(0);
            proof {
                assert(old(self)@.remove(0) =~= old(self)@.skip(1));
            }
            Ok(t)
        } else {
            Err(Error::EndOfStreamError)
        }
    }

    /// Decodes a unit value: a `Null` token, or an empty collection frame
    /// (whose closing sentinel is fetched from the stream).
    pub fn expect_null(&mut self, token: Token) -> (r: Result<(), Error>)
        ensures
            match r {
                Ok(_) => (token is Null && final(self)@ == old(self)@) || (token
                    is CollectionStart && old(self)@.len() > 0 && old(self)@[0] is CollectionEnd
                    && final(self)@ == old(self)@.skip(1)),
                Err(e) => final(self)@.len() <= old(self)@.len() && match token {
                    Token::Null => false,
                    Token::CollectionStart(_) => if old(self)@.len() == 0 {
                        e == Error::EndOfStreamError
                    } else {
                        !(old(self)@[0] is CollectionEnd) && e == Error::SyntaxError
                    },
                    _ => e == Error::SyntaxError,
                },
            },
    {
        match token {
            Token::Null => Ok(()),
            Token::CollectionStart(_) => {
                let next = self.expect_token()?;
                self.expect_collection_end(next)
            },
            _ => Err(Error::SyntaxError),
        }
    }

    /// Decodes a `Bool` token.
    pub fn expect_bool(&self, token: Token) -> (r: Result<bool, Error>)
        ensures
            match r {
                Ok(v) => token == Token::Bool(v),
                Err(e) => !(token is Bool) && e == Error::SyntaxError,
            },
    {
        match token {
            Token::Bool(v) => Ok(v),
            _ => Err(Error::SyntaxError),
        }
    }

    /// Decodes any integer-tagged token whose value fits in `isize`.
    pub fn expect_int(&self, token: Token) -> (r: Result<isize, Error>)
        ensures
            num_post(token, isize::MIN as int, isize::MAX as int, to_int_result(r)),
    {
        match token_wide(&token) {
            Some(w) => match wide_to_int(w) {
                Some(v) => Ok(v),
                None => Err(Error::SyntaxError),
            },
            None => Err(Error::SyntaxError),
        }
    }

    /// Decodes any integer-tagged token whose value fits in `i8`.
    pub fn expect_i8(&self, token: Token) -> (r: Result<i8, Error>)
        ensures
            num_post(token, i8::MIN as int, i8::MAX as int, to_int_result(r)),
    {
        match token_wide(&token) {
            Some(w) => match wide_to_i8(w) {
                Some(v) => Ok(v),
                None => Err(Error::SyntaxError),
            },
            None => Err(Error::SyntaxError),
        }
    }

    /// Decodes any integer-tagged token whose value fits in `i16`.
    pub fn expect_i16(&self, token: Token) -> (r: Result<i16, Error>)
        ensures
            num_post(token, i16::MIN as int, i16::MAX as int, to_int_result(r)),
    {
        match token_wide(&token) {
            Some(w) => match wide_to_i16(w) {
                Some(v) => Ok(v),
                None => Err(Error::SyntaxError),
            },
            None => Err(Error::SyntaxError),
        }
    }

    /// Decodes any integer-tagged token whose value fits in `i32`.
    pub fn expect_i32(&self, token: Token) -> (r: Result<i32, Error>)
        ensures
            num_post(token, i32::MIN as int, i32::MAX as int, to_int_result(r)),
    {
        match token_wide(&token) {
            Some(w) => match wide_to_i32(w) {
                Some(v) => Ok(v),
                None => Err(Error::SyntaxError),
            },
            None => Err(Error::SyntaxError),
        }
    }

    /// Decodes any integer-tagged token whose value fits in `i64`.
    pub fn expect_i64(&self, token: Token) -> (r: Result<i64, Error>)
        ensures
            num_post(token, i64::MIN as int, i64::MAX as int, to_int_result(r)),
    {
        match token_wide(&token) {
            Some(w) => match wide_to_i64(w) {
                Some(v) => Ok(v),
                None => Err(Error::SyntaxError),
            },
            None => Err(Error::SyntaxError),
        }
    }

    /// Decodes any integer-tagged token whose value fits in `usize`.
    pub fn expect_uint(&self, token: Token) -> (r: Result<usize, Error>)
        ensures
            num_post(token, 0, usize::MAX as int, to_int_result(r)),
    {
        match token_wide(&token) {
            Some(w) => match wide_to_uint(w) {
                Some(v) => Ok(v),
                None => Err(Error::SyntaxError),
            },
            None => Err(Error::SyntaxError),
        }
    }

    /// Decodes any integer-tagged token whose value fits in `u8`.
    pub fn expect_u8(&self, token: Token) -> (r: Result<u8, Error>)
        ensures
            num_post(token, 0, u8::MAX as int, to_int_result(r)),
    {
        match token_wide(&token) {
            Some(w) => match wide_to_u8(w) {
                Some(v) => Ok(v),
                None => Err(Error::SyntaxError),
            },
            None => Err(Error::SyntaxError),
        }
    }

    /// Decodes any integer-tagged token whose value fits in `u16`.
    pub fn expect_u16(&self, token: Token) -> (r: Result<u16, Error>)
        ensures
            num_post(token, 0, u16::MAX as int, to_int_result(r)),
    {
        match token_wide(&token) {
            Some(w) => match wide_to_u16(w) {
                Some(v) => Ok(v),
                None => Err(Error::SyntaxError),
            },
            None => Err(Error::SyntaxError),
        }
    }

    /// Decodes any integer-tagged token whose value fits in `u32`.
    pub fn expect_u32(&self, token: Token) -> (r: Result<u32, Error>)
        ensures
            num_post(token, 0, u32::MAX as int, to_int_result(r)),
    {
        match token_wide(&token) {
            Some(w) => match wide_to_u32(w) {
                Some(v) => Ok(v),
                None => Err(Error::SyntaxError),
            },
            None => Err(Error::SyntaxError),
        }
    }

    /// Decodes any integer-tagged token whose value fits in `u64`.
    pub fn expect_u64(&self, token: Token) -> (r: Result<u64, Error>)
        ensures
            num_post(token, 0, u64::MAX as int, to_int_result(r)),
    {
        match token_wide(&token) {
            Some(w) => match wide_to_u64(w) {
                Some(v) => Ok(v),
                None => Err(Error::SyntaxError),
            },
            None => Err(Error::SyntaxError),
        }
    }

    /// Extracts the bit pattern of an `F32Bits` token.  Floating-point
    /// arithmetic, including cross-width numeric coercion into a float
    /// target, is left to the unverified rim of the crate.
    pub fn expect_f32_bits(&self, token: Token) -> (r: Result<u32, Error>)
        ensures
            match r {
                Ok(b) => token == Token::F32Bits(b),
                Err(e) => !(token is F32Bits) && e == Error::SyntaxError,
            },
    {
        match token {
            Token::F32Bits(b) => Ok(b),
            _ => Err(Error::SyntaxError),
        }
    }

    /// Extracts the bit pattern of an `F64Bits` token, as
    /// [`Self::expect_f32_bits`] does for the narrower width.
    pub fn expect_f64_bits(&self, token: Token) -> (r: Result<u64, Error>)
        ensures
            match r {
                Ok(b) => token == Token::F64Bits(b),
                Err(e) => !(token is F64Bits) && e == Error::SyntaxError,
            },
    {
        match token {
            Token::F64Bits(b) => Ok(b),
            _ => Err(Error::SyntaxError),
        }
    }

    /// Decodes a `Char` token.
    pub fn expect_char(&self, token: Token) -> (r: Result<char, Error>)
        ensures
            match r {
                Ok(v) => token == Token::Char(v),
                Err(e) => !(token is Char) && e == Error::SyntaxError,
            },
    {
        match token {
            Token::Char(v) => Ok(v),
            _ => Err(Error::SyntaxError),
        }
    }

    /// Decodes a borrowed `Str` token.
    pub fn expect_str(&self, token: Token) -> (r: Result<&'static str, Error>)
        ensures
            match r {
                Ok(v) => token matches Token::Str(t) && v == t && v@ == t@,
                Err(e) => !(token is Str) && e == Error::SyntaxError,
            },
    {
        match token {
            Token::Str(v) => Ok(v),
            _ => Err(Error::SyntaxError),
        }
    }

    /// Decodes a `Str` or `StrBuf` token into an owned string.
    pub fn expect_strbuf(&self, token: Token) -> (r: Result<String, Error>)
        ensures
            match r {
                Ok(v) => str_value(token) == Some(v@),
                Err(e) => str_value(token) is None && e == Error::SyntaxError,
            },
    {
        match token {
            Token::Str(v) => Ok(v.to_owned()),
            Token::StrBuf(v) => Ok(v),
            _ => Err(Error::SyntaxError),
        }
    }

    /// Strips an opening sentinel, returning its length hint.
    pub fn expect_collection_start(&self, token: Token) -> (r: Result<usize, Error>)
        ensures
            match r {
                Ok(len) => token == Token::CollectionStart(len),
                Err(e) => !(token is CollectionStart) && e == Error::SyntaxError,
            },
    {
        match token {
            Token::CollectionStart(len) => Ok(len),
            _ => Err(Error::SyntaxError),
        }
    }

    /// Strips a closing sentinel.
    pub fn expect_collection_end(&self, token: Token) -> (r: Result<(), Error>)
        ensures
            match r {
                Ok(_) => token is CollectionEnd,
                Err(e) => !(token is CollectionEnd) && e == Error::SyntaxError,
            },
    {
        match token {
            Token::CollectionEnd => Ok(()),
            _ => Err(Error::SyntaxError),
        }
    }
}

/// The string contents of a `Str` or `StrBuf` token.
pub open spec fn str_value(t: Token) -> Option<Seq<char>> {
    match t {
        Token::Str(v) => Some(v@),
        Token::StrBuf(v) => Some(v@),
        _ => None,
    }
}

/// The result of an integer `expect_*` call, abstracted to `int`.
pub open spec fn to_int_result<T: Integer>(r: Result<T, Error>) -> Result<int, Error> {
    match r {
        Ok(v) => Ok(v as int),
        Err(e) => Err(e),
    }
}

/// What every integer `expect_*` operation with target range `lo ..= hi`
/// returns: the token's integer value exactly when the token is
/// integer-tagged and its value fits, and `SyntaxError` otherwise.
pub open spec fn num_post(token: Token, lo: int, hi: int, r: Result<int, Error>) -> bool {
    match int_value(token) {
        Some(n) => if lo <= n <= hi {
            r == Ok::<int, Error>(n)
        } else {
            r == Err::<int, Error>(Error::SyntaxError)
        },
        None => r == Err::<int, Error>(Error::SyntaxError),
    }
}

/// Relates one decode call that was handed the stream's head token
/// separately to the spec-level decoder: the decoded stream is `token`
/// followed by the cursor's rest.  On success the result's model equals the
/// decoded value and the stream has advanced exactly past it; on failure
/// the returned error is exactly the one the spec decoder owes, and the
/// stream has not grown.
pub open spec fn dec_token_post<T: Deserializable>(
    token: Token,
    s0: Seq<Token>,
    r: Result<T, Error>,
    s1: Seq<Token>,
) -> bool {
    match T::dec(seq![token] + s0) {
        Decoded::Found(v, rest) => (r matches Ok(x) && x.deep_view() == v) && s1 == rest,
        Decoded::Fail(e) => r == Err::<T, Error>(e) && s1.len() <= s0.len(),
    }
}

/// A type that can be deserialized from a token stream.
///
/// The spec side fixes, once and for all, what every stream decodes to
/// ([`Deserializable::dec`]), which streams count as a correct framing of a
/// model value ([`Deserializable::encodes`]), and the laws every
/// implementation owes: a correct framing decodes back to its value
/// (round trip), and any strict prefix of one fails with
/// `EndOfStreamError` (premature end).
pub trait Deserializable: Sized + DeepView {
    /// The spec-level decoder: the value (as a model) that a stream beginning
    /// with this type's framing decodes to, with the remaining stream, or the
    /// exact error the decode fails with.
    spec fn dec(s: Seq<Token>) -> Decoded<Self::V>;

    /// Whether `s` is a correct, complete framing of the model value `v`.
    spec fn encodes(v: Self::V, s: Seq<Token>) -> bool;

    /// Whether every correct framing of `v` decodes back to `v` exactly.
    /// This fails only for optional values whose payload is itself framed as
    /// the one-token `Null` stream, which the optional layer claims first.
    spec fn round_trips(v: Self::V) -> bool;

    /// Decoding an empty stream owes `EndOfStreamError`.
    proof fn lemma_dec_empty()
        ensures
            Self::dec(Seq::empty()) == Decoded::Fail::<Self::V>(Error::EndOfStreamError),
    ;

    /// A successful decode consumes at least one token.
    proof fn lemma_dec_consumes(s: Seq<Token>)
        ensures
            Self::dec(s) matches Decoded::Found(v, rest) ==> rest.len() < s.len(),
    ;

    /// A framing is never empty, never opens with a closing sentinel, and
    /// opens with `Null` only when it is exactly the one-token `Null` stream.
    proof fn lemma_enc_head(v: Self::V, s: Seq<Token>)
        requires
            Self::encodes(v, s),
        ensures
            s.len() > 0,
            !(s[0] is CollectionEnd),
            s[0] is Null ==> s.len() == 1,
    ;

    /// Round trip: a correct framing of `v`, before any continuation `rest`,
    /// decodes to exactly `v` and consumes exactly the framing.
    proof fn lemma_round_trip(v: Self::V, s: Seq<Token>, rest: Seq<Token>)
        requires
            Self::round_trips(v),
            Self::encodes(v, s),
        ensures
            Self::dec(s + rest) == Decoded::Found(v, rest),
    ;

    /// Premature end: a correct framing truncated anywhere before its last
    /// token decodes to `EndOfStreamError`, never to a wrong value.
    proof fn lemma_premature_end(v: Self::V, s: Seq<Token>, k: int)
        requires
            Self::round_trips(v),
            Self::encodes(v, s),
            0 <= k < s.len(),
        ensures
            Self::dec(s.take(k)) == Decoded::Fail::<Self::V>(Error::EndOfStreamError),
    ;

    /// Decodes one value from the front of the stream.
    fn deserialize(d: &mut TokenDeserializer) -> (r: Result<Self, Error>)
        ensures
            match Self::dec(old(d)@) {
                Decoded::Found(v, rest) => (r matches Ok(x) && x.deep_view() == v) && final(d)@
                    == rest,
                Decoded::Fail(e) => r == Err::<Self, Error>(e) && final(d)@.len() <= old(
                    d,
                )@.len(),
            },
    {
        let token = match d.expect_token() {
            Ok(t) => t,
            Err(e) => {
                proof {
                    assert(old(d)@ =~= Seq::<Token>::empty());
                    Self::lemma_dec_empty();
                }
                return Err(e);
            },
        };
        proof {
            assert(seq![token] + d@ =~= old(d)@);
        }
        Self::deserialize_token(d, token)
    }

    /// Decodes one value whose head token has already been fetched.
    fn deserialize_token(d: &mut TokenDeserializer, token: Token) -> (r: Result<Self, Error>)
        ensures
            match Self::dec(seq![token] + old(d)@) {
                Decoded::Found(v, rest) => (r matches Ok(x) && x.deep_view() == v) && final(d)@
                    == rest,
                Decoded::Fail(e) => r == Err::<Self, Error>(e) && final(d)@.len() <= old(
                    d,
                )@.len(),
            },
    ;
}

} // verus!
