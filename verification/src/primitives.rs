//! [`Deserializable`] implementations for the primitive types: booleans,
//! the fixed-width integers with checked cross-width coercion, characters,
//! and borrowed or owned strings.
//!
//! An integer-tagged token of any width is a correct framing of a value of
//! any integer type, as long as the value fits the target width exactly;
//! a token whose value does not fit decodes to `SyntaxError`.

use vstd::prelude::*;

use crate::decode::{Decoded, Deserializable, TokenDeserializer, str_value};
use crate::token::{Error, Token, int_value};

verus! {

impl Deserializable for bool {
    open spec fn dec(s: Seq<Token>) -> Decoded<bool> {
        if s.len() == 0 {
            Decoded::Fail(Error::EndOfStreamError)
        } else {
            match s[0] {
                Token::Bool(v) => Decoded::Found(v, s.skip(1)),
                _ => Decoded::Fail(Error::SyntaxError),
            }
        }
    }

    open spec fn encodes(v: bool, s: Seq<Token>) -> bool {
        s.len() == 1 && s[0] == Token::Bool(v)
    }

    open spec fn round_trips(v: bool) -> bool {
        true
    }

    proof fn lemma_dec_empty() {
    }

    proof fn lemma_dec_consumes(s: Seq<Token>) {
    }

    proof fn lemma_enc_head(v: bool, s: Seq<Token>) {
    }

    proof fn lemma_round_trip(v: bool, s: Seq<Token>, rest: Seq<Token>) {
        assert((s + rest).skip(1) =~= rest);
    }

    proof fn lemma_premature_end(v: bool, s: Seq<Token>, k: int) {
        assert(s.take(k) =~= Seq::<Token>::empty());
    }

    fn deserialize_token(d: &mut TokenDeserializer, token: Token) -> (r: Result<bool, Error>) {
        let r = d.expect_bool(token);
        proof {
            assert((seq![token] + old(d)@).skip(1) =~= old(d)@);
        }
        r
    }
}

impl Deserializable for char {
    open spec fn dec(s: Seq<Token>) -> Decoded<char> {
        if s.len() == 0 {
            Decoded::Fail(Error::EndOfStreamError)
        } else {
            match s[0] {
                Token::Char(v) => Decoded::Found(v, s.skip(1)),
                _ => Decoded::Fail(Error::SyntaxError),
            }
        }
    }

    open spec fn encodes(v: char, s: Seq<Token>) -> bool {
        s.len() == 1 && s[0] == Token::Char(v)
    }

    open spec fn round_trips(v: char) -> bool {
        true
    }

    proof fn lemma_dec_empty() {
    }

    proof fn lemma_dec_consumes(s: Seq<Token>) {
    }

    proof fn lemma_enc_head(v: char, s: Seq<Token>) {
    }

    proof fn lemma_round_trip(v: char, s: Seq<Token>, rest: Seq<Token>) {
        assert((s + rest).skip(1) =~= rest);
    }

    proof fn lemma_premature_end(v: char, s: Seq<Token>, k: int) {
        assert(s.take(k) =~= Seq::<Token>::empty());
    }

    fn deserialize_token(d: &mut TokenDeserializer, token: Token) -> (r: Result<char, Error>) {
        let r = d.expect_char(token);
        proof {
            assert((seq![token] + old(d)@).skip(1) =~= old(d)@);
        }
        r
    }
}

impl Deserializable for &'static str {
    open spec fn dec(s: Seq<Token>) -> Decoded<Seq<char>> {
        if s.len() == 0 {
            Decoded::Fail(Error::EndOfStreamError)
        } else {
            match s[0] {
                Token::Str(v) => Decoded::Found(v@, s.skip(1)),
                _ => Decoded::Fail(Error::SyntaxError),
            }
        }
    }

    open spec fn encodes(v: Seq<char>, s: Seq<Token>) -> bool {
        s.len() == 1 && (s[0] matches Token::Str(t) && t@ == v)
    }

    open spec fn round_trips(v: Seq<char>) -> bool {
        true
    }

    proof fn lemma_dec_empty() {
    }

    proof fn lemma_dec_consumes(s: Seq<Token>) {
    }

    proof fn lemma_enc_head(v: Seq<char>, s: Seq<Token>) {
    }

    proof fn lemma_round_trip(v: Seq<char>, s: Seq<Token>, rest: Seq<Token>) {
        assert((s + rest).skip(1) =~= rest);
    }

    proof fn lemma_premature_end(v: Seq<char>, s: Seq<Token>, k: int) {
        assert(s.take(k) =~= Seq::<Token>::empty());
    }

    fn deserialize_token(d: &mut TokenDeserializer, token: Token) -> (r: Result<
        &'static str,
        Error,
    >) {
        let r = d.expect_str(token);
        proof {
            assert((seq![token] + old(d)@).skip(1) =~= old(d)@);
            if let Ok(x) = &r {
                assert(x.deep_view() == x@);
            }
        }
        r
    }
}

impl Deserializable for String {
    open spec fn dec(s: Seq<Token>) -> Decoded<Seq<char>> {
        if s.len() == 0 {
            Decoded::Fail(Error::EndOfStreamError)
        } else {
            match str_value(s[0]) {
                Some(v) => Decoded::Found(v, s.skip(1)),
                None => Decoded::Fail(Error::SyntaxError),
            }
        }
    }

    open spec fn encodes(v: Seq<char>, s: Seq<Token>) -> bool {
        s.len() == 1 && str_value(s[0]) == Some(v)
    }

    open spec fn round_trips(v: Seq<char>) -> bool {
        true
    }

    proof fn lemma_dec_empty() {
    }

    proof fn lemma_dec_consumes(s: Seq<Token>) {
    }

    proof fn lemma_enc_head(v: Seq<char>, s: Seq<Token>) {
    }

    proof fn lemma_round_trip(v: Seq<char>, s: Seq<Token>, rest: Seq<Token>) {
        assert((s + rest).skip(1) =~= rest);
    }

    proof fn lemma_premature_end(v: Seq<char>, s: Seq<Token>, k: int) {
        assert(s.take(k) =~= Seq::<Token>::empty());
    }

    fn deserialize_token(d: &mut TokenDeserializer, token: Token) -> (r: Result<String, Error>) {
        let r = d.expect_strbuf(token);
        proof {
            assert((seq![token] + old(d)@).skip(1) =~= old(d)@);
        }
        r
    }
}

impl Deserializable for isize {
    open spec fn dec(s: Seq<Token>) -> Decoded<isize> {
        if s.len() == 0 {
            Decoded::Fail(Error::EndOfStreamError)
        } else {
            match int_value(s[0]) {
                Some(n) => if isize::MIN <= n && n <= isize::MAX {
                    Decoded::Found(n as isize, s.skip(1))
                } else {
                    Decoded::Fail(Error::SyntaxError)
                },
                None => Decoded::Fail(Error::SyntaxError),
            }
        }
    }

    open spec fn encodes(v: isize, s: Seq<Token>) -> bool {
        s.len() == 1 && int_value(s[0]) == Some(v as int)
    }

    open spec fn round_trips(v: isize) -> bool {
        true
    }

    proof fn lemma_dec_empty() {
    }

    proof fn lemma_dec_consumes(s: Seq<Token>) {
    }

    proof fn lemma_enc_head(v: isize, s: Seq<Token>) {
    }

    proof fn lemma_round_trip(v: isize, s: Seq<Token>, rest: Seq<Token>) {
        assert((s + rest).skip(1) =~= rest);
    }

    proof fn lemma_premature_end(v: isize, s: Seq<Token>, k: int) {
        assert(s.take(k) =~= Seq::<Token>::empty());
    }

    fn deserialize_token(d: &mut TokenDeserializer, token: Token) -> (r: Result<isize, Error>) {
        let r = d.expect_int(token);
        proof {
            assert((seq![token] + old(d)@).skip(1) =~= old(d)@);
        }
        r
    }
}

impl Deserializable for i8 {
    open spec fn dec(s: Seq<Token>) -> Decoded<i8> {
        if s.len() == 0 {
            Decoded::Fail(Error::EndOfStreamError)
        } else {
            match int_value(s[0]) {
                Some(n) => if i8::MIN <= n && n <= i8::MAX {
                    Decoded::Found(n as i8, s.skip(1))
                } else {
                    Decoded::Fail(Error::SyntaxError)
                },
                None => Decoded::Fail(Error::SyntaxError),
            }
        }
    }

    open spec fn encodes(v: i8, s: Seq<Token>) -> bool {
        s.len() == 1 && int_value(s[0]) == Some(v as int)
    }

    open spec fn round_trips(v: i8) -> bool {
        true
    }

    proof fn lemma_dec_empty() {
    }

    proof fn lemma_dec_consumes(s: Seq<Token>) {
    }

    proof fn lemma_enc_head(v: i8, s: Seq<Token>) {
    }

    proof fn lemma_round_trip(v: i8, s: Seq<Token>, rest: Seq<Token>) {
        assert((s + rest).skip(1) =~= rest);
    }

    proof fn lemma_premature_end(v: i8, s: Seq<Token>, k: int) {
        assert(s.take(k) =~= Seq::<Token>::empty());
    }

    fn deserialize_token(d: &mut TokenDeserializer, token: Token) -> (r: Result<i8, Error>) {
        let r = d.expect_i8(token);
        proof {
            assert((seq![token] + old(d)@).skip(1) =~= old(d)@);
        }
        r
    }
}

impl Deserializable for i16 {
    open spec fn dec(s: Seq<Token>) -> Decoded<i16> {
        if s.len() == 0 {
            Decoded::Fail(Error::EndOfStreamError)
        } else {
            match int_value(s[0]) {
                Some(n) => if i16::MIN <= n && n <= i16::MAX {
                    Decoded::Found(n as i16, s.skip(1))
                } else {
                    Decoded::Fail(Error::SyntaxError)
                },
                None => Decoded::Fail(Error::SyntaxError),
            }
        }
    }

    open spec fn encodes(v: i16, s: Seq<Token>) -> bool {
        s.len() == 1 && int_value(s[0]) == Some(v as int)
    }

    open spec fn round_trips(v: i16) -> bool {
        true
    }

    proof fn lemma_dec_empty() {
    }

    proof fn lemma_dec_consumes(s: Seq<Token>) {
    }

    proof fn lemma_enc_head(v: i16, s: Seq<Token>) {
    }

    proof fn lemma_round_trip(v: i16, s: Seq<Token>, rest: Seq<Token>) {
        assert((s + rest).skip(1) =~= rest);
    }

    proof fn lemma_premature_end(v: i16, s: Seq<Token>, k: int) {
        assert(s.take(k) =~= Seq::<Token>::empty());
    }

    fn deserialize_token(d: &mut TokenDeserializer, token: Token) -> (r: Result<i16, Error>) {
        let r = d.expect_i16(token);
        proof {
            assert((seq![token] + old(d)@).skip(1) =~= old(d)@);
        }
        r
    }
}

impl Deserializable for i32 {
    open spec fn dec(s: Seq<Token>) -> Decoded<i32> {
        if s.len() == 0 {
            Decoded::Fail(Error::EndOfStreamError)
        } else {
            match int_value(s[0]) {
                Some(n) => if i32::MIN <= n && n <= i32::MAX {
                    Decoded::Found(n as i32, s.skip(1))
                } else {
                    Decoded::Fail(Error::SyntaxError)
                },
                None => Decoded::Fail(Error::SyntaxError),
            }
        }
    }

    open spec fn encodes(v: i32, s: Seq<Token>) -> bool {
        s.len() == 1 && int_value(s[0]) == Some(v as int)
    }

    open spec fn round_trips(v: i32) -> bool {
        true
    }

    proof fn lemma_dec_empty() {
    }

    proof fn lemma_dec_consumes(s: Seq<Token>) {
    }

    proof fn lemma_enc_head(v: i32, s: Seq<Token>) {
    }

    proof fn lemma_round_trip(v: i32, s: Seq<Token>, rest: Seq<Token>) {
        assert((s + rest).skip(1) =~= rest);
    }

    proof fn lemma_premature_end(v: i32, s: Seq<Token>, k: int) {
        assert(s.take(k) =~= Seq::<Token>::empty());
    }

    fn deserialize_token(d: &mut TokenDeserializer, token: Token) -> (r: Result<i32, Error>) {
        let r = d.expect_i32(token);
        proof {
            assert((seq![token] + old(d)@).skip(1) =~= old(d)@);
        }
        r
    }
}

impl Deserializable for i64 {
    open spec fn dec(s: Seq<Token>) -> Decoded<i64> {
        if s.len() == 0 {
            Decoded::Fail(Error::EndOfStreamError)
        } else {
            match int_value(s[0]) {
                Some(n) => if i64::MIN <= n && n <= i64::MAX {
                    Decoded::Found(n as i64, s.skip(1))
                } else {
                    Decoded::Fail(Error::SyntaxError)
                },
                None => Decoded::Fail(Error::SyntaxError),
            }
        }
    }

    open spec fn encodes(v: i64, s: Seq<Token>) -> bool {
        s.len() == 1 && int_value(s[0]) == Some(v as int)
    }

    open spec fn round_trips(v: i64) -> bool {
        true
    }

    proof fn lemma_dec_empty() {
    }

    proof fn lemma_dec_consumes(s: Seq<Token>) {
    }

    proof fn lemma_enc_head(v: i64, s: Seq<Token>) {
    }

    proof fn lemma_round_trip(v: i64, s: Seq<Token>, rest: Seq<Token>) {
        assert((s + rest).skip(1) =~= rest);
    }

    proof fn lemma_premature_end(v: i64, s: Seq<Token>, k: int) {
        assert(s.take(k) =~= Seq::<Token>::empty());
    }

    fn deserialize_token(d: &mut TokenDeserializer, token: Token) -> (r: Result<i64, Error>) {
        let r = d.expect_i64(token);
        proof {
            assert((seq![token] + old(d)@).skip(1) =~= old(d)@);
        }
        r
    }
}

impl Deserializable for usize {
    open spec fn dec(s: Seq<Token>) -> Decoded<usize> {
        if s.len() == 0 {
            Decoded::Fail(Error::EndOfStreamError)
        } else {
            match int_value(s[0]) {
                Some(n) => if usize::MIN <= n && n <= usize::MAX {
                    Decoded::Found(n as usize, s.skip(1))
                } else {
                    Decoded::Fail(Error::SyntaxError)
                },
                None => Decoded::Fail(Error::SyntaxError),
            }
        }
    }

    open spec fn encodes(v: usize, s: Seq<Token>) -> bool {
        s.len() == 1 && int_value(s[0]) == Some(v as int)
    }

    open spec fn round_trips(v: usize) -> bool {
        true
    }

    proof fn lemma_dec_empty() {
    }

    proof fn lemma_dec_consumes(s: Seq<Token>) {
    }

    proof fn lemma_enc_head(v: usize, s: Seq<Token>) {
    }

    proof fn lemma_round_trip(v: usize, s: Seq<Token>, rest: Seq<Token>) {
        assert((s + rest).skip(1) =~= rest);
    }

    proof fn lemma_premature_end(v: usize, s: Seq<Token>, k: int) {
        assert(s.take(k) =~= Seq::<Token>::empty());
    }

    fn deserialize_token(d: &mut TokenDeserializer, token: Token) -> (r: Result<usize, Error>) {
        let r = d.expect_uint(token);
        proof {
            assert((seq![token] + old(d)@).skip(1) =~= old(d)@);
        }
        r
    }
}

impl Deserializable for u8 {
    open spec fn dec(s: Seq<Token>) -> Decoded<u8> {
        if s.len() == 0 {
            Decoded::Fail(Error::EndOfStreamError)
        } else {
            match int_value(s[0]) {
                Some(n) => if u8::MIN <= n && n <= u8::MAX {
                    Decoded::Found(n as u8, s.skip(1))
                } else {
                    Decoded::Fail(Error::SyntaxError)
                },
                None => Decoded::Fail(Error::SyntaxError),
            }
        }
    }

    open spec fn encodes(v: u8, s: Seq<Token>) -> bool {
        s.len() == 1 && int_value(s[0]) == Some(v as int)
    }

    open spec fn round_trips(v: u8) -> bool {
        true
    }

    proof fn lemma_dec_empty() {
    }

    proof fn lemma_dec_consumes(s: Seq<Token>) {
    }

    proof fn lemma_enc_head(v: u8, s: Seq<Token>) {
    }

    proof fn lemma_round_trip(v: u8, s: Seq<Token>, rest: Seq<Token>) {
        assert((s + rest).skip(1) =~= rest);
    }

    proof fn lemma_premature_end(v: u8, s: Seq<Token>, k: int) {
        assert(s.take(k) =~= Seq::<Token>::empty());
    }

    fn deserialize_token(d: &mut TokenDeserializer, token: Token) -> (r: Result<u8, Error>) {
        let r = d.expect_u8(token);
        proof {
            assert((seq![token] + old(d)@).skip(1) =~= old(d)@);
        }
        r
    }
}

impl Deserializable for u16 {
    open spec fn dec(s: Seq<Token>) -> Decoded<u16> {
        if s.len() == 0 {
            Decoded::Fail(Error::EndOfStreamError)
        } else {
            match int_value(s[0]) {
                Some(n) => if u16::MIN <= n && n <= u16::MAX {
                    Decoded::Found(n as u16, s.skip(1))
                } else {
                    Decoded::Fail(Error::SyntaxError)
                },
                None => Decoded::Fail(Error::SyntaxError),
            }
        }
    }

    open spec fn encodes(v: u16, s: Seq<Token>) -> bool {
        s.len() == 1 && int_value(s[0]) == Some(v as int)
    }

    open spec fn round_trips(v: u16) -> bool {
        true
    }

    proof fn lemma_dec_empty() {
    }

    proof fn lemma_dec_consumes(s: Seq<Token>) {
    }

    proof fn lemma_enc_head(v: u16, s: Seq<Token>) {
    }

    proof fn lemma_round_trip(v: u16, s: Seq<Token>, rest: Seq<Token>) {
        assert((s + rest).skip(1) =~= rest);
    }

    proof fn lemma_premature_end(v: u16, s: Seq<Token>, k: int) {
        assert(s.take(k) =~= Seq::<Token>::empty());
    }

    fn deserialize_token(d: &mut TokenDeserializer, token: Token) -> (r: Result<u16, Error>) {
        let r = d.expect_u16(token);
        proof {
            assert((seq![token] + old(d)@).skip(1) =~= old(d)@);
        }
        r
    }
}

impl Deserializable for u32 {
    open spec fn dec(s: Seq<Token>) -> Decoded<u32> {
        if s.len() == 0 {
            Decoded::Fail(Error::EndOfStreamError)
        } else {
            match int_value(s[0]) {
                Some(n) => if u32::MIN <= n && n <= u32::MAX {
                    Decoded::Found(n as u32, s.skip(1))
                } else {
                    Decoded::Fail(Error::SyntaxError)
                },
                None => Decoded::Fail(Error::SyntaxError),
            }
        }
    }

    open spec fn encodes(v: u32, s: Seq<Token>) -> bool {
        s.len() == 1 && int_value(s[0]) == Some(v as int)
    }

    open spec fn round_trips(v: u32) -> bool {
        true
    }

    proof fn lemma_dec_empty() {
    }

    proof fn lemma_dec_consumes(s: Seq<Token>) {
    }

    proof fn lemma_enc_head(v: u32, s: Seq<Token>) {
    }

    proof fn lemma_round_trip(v: u32, s: Seq<Token>, rest: Seq<Token>) {
        assert((s + rest).skip(1) =~= rest);
    }

    proof fn lemma_premature_end(v: u32, s: Seq<Token>, k: int) {
        assert(s.take(k) =~= Seq::<Token>::empty());
    }

    fn deserialize_token(d: &mut TokenDeserializer, token: Token) -> (r: Result<u32, Error>) {
        let r = d.expect_u32(token);
        proof {
            assert((seq![token] + old(d)@).skip(1) =~= old(d)@);
        }
        r
    }
}

impl Deserializable for u64 {
    open spec fn dec(s: Seq<Token>) -> Decoded<u64> {
        if s.len() == 0 {
            Decoded::Fail(Error::EndOfStreamError)
        } else {
            match int_value(s[0]) {
                Some(n) => if u64::MIN <= n && n <= u64::MAX {
                    Decoded::Found(n as u64, s.skip(1))
                } else {
                    Decoded::Fail(Error::SyntaxError)
                },
                None => Decoded::Fail(Error::SyntaxError),
            }
        }
    }

    open spec fn encodes(v: u64, s: Seq<Token>) -> bool {
        s.len() == 1 && int_value(s[0]) == Some(v as int)
    }

    open spec fn round_trips(v: u64) -> bool {
        true
    }

    proof fn lemma_dec_empty() {
    }

    proof fn lemma_dec_consumes(s: Seq<Token>) {
    }

    proof fn lemma_enc_head(v: u64, s: Seq<Token>) {
    }

    proof fn lemma_round_trip(v: u64, s: Seq<Token>, rest: Seq<Token>) {
        assert((s + rest).skip(1) =~= rest);
    }

    proof fn lemma_premature_end(v: u64, s: Seq<Token>, k: int) {
        assert(s.take(k) =~= Seq::<Token>::empty());
    }

    fn deserialize_token(d: &mut TokenDeserializer, token: Token) -> (r: Result<u64, Error>) {
        let r = d.expect_u64(token);
        proof {
            assert((seq![token] + old(d)@).skip(1) =~= old(d)@);
        }
        r
    }
}

} // verus!
