//! The fields of a message as bytes, written and read by `postcard`.
use crate::varint::{read_varint, varint};
use vstd::prelude::*;
use vstd::utf8::{decode_utf8, encode_utf8, valid_utf8};

verus! {

/// Why bytes are no message.
#[derive(Debug, Clone, Copy, PartialEq, Eq, Structural)]
pub enum DecodeError {
    /// The bytes end too early.
    UnexpectedEnd,
    /// An integer does not end, or does not fit its field.
    BadVarint,
    /// A text is not UTF-8.
    BadUtf8,
    /// A number that stands for no kind of message.
    UnknownVariant,
}

#[verifier::external_type_specification]
#[verifier::external_body]
pub struct ExPostcardError(postcard::Error);

/// The bytes of a text: how many bytes follow, then its characters in UTF-8.
pub open spec fn text_bytes(text: Seq<char>) -> Seq<u8> {
    varint(encode_utf8(text).len()) + encode_utf8(text)
}

/// The text at the start of `s` and how many bytes it takes.
pub open spec fn read_text(s: Seq<u8>) -> Result<(Seq<char>, nat), DecodeError> {
    match read_varint(s, usize::BITS as nat, usize::MAX as nat) {
        Ok((count, len)) => if s.len() < len + count {
            Err(DecodeError::UnexpectedEnd)
        } else {
            let body = s.subrange(len as int, (len + count) as int);
            if valid_utf8(body) {
                Ok((decode_utf8(body), len + count))
            } else {
                Err(DecodeError::BadUtf8)
            }
        },
        Err(e) => Err(e),
    }
}

/// `postcard::to_allocvec` on an integer: it never fails, and gives the bytes of [`varint`].
#[verifier::external_body]
pub(crate) fn put_uint(value: u128) -> (bytes: Result<Vec<u8>, postcard::Error>)
    ensures
        bytes matches Ok(bytes) && bytes@ == varint(value as nat),
{
    postcard::to_allocvec(&value)
}

/// `postcard::to_allocvec` on a text: it never fails, and gives the bytes of [`text_bytes`].
#[verifier::external_body]
pub(crate) fn put_text(text: &str) -> (bytes: Result<Vec<u8>, postcard::Error>)
    ensures
        bytes matches Ok(bytes) && bytes@ == text_bytes(text@),
{
    postcard::to_allocvec(text)
}

/// `postcard::take_from_bytes` for a `u32`: the integer that [`read_varint`] finds and the bytes
/// behind it, or the reason why it finds none.
#[verifier::external_body]
pub(crate) fn take_u32<'a>(s: &'a [u8]) -> (taken: Result<(u32, &'a [u8]), DecodeError>)
    ensures
        match taken {
            Ok((value, rest)) => read_varint(s@, 32, u32::MAX as nat) matches Ok((n, len)) && n
                == value && rest@ == s@.skip(len as int),
            Err(e) => read_varint(s@, 32, u32::MAX as nat) == Err::<(nat, nat), DecodeError>(e),
        },
{
    match postcard::take_from_bytes::<u32>(s) {
        Ok(taken) => Ok(taken),
        Err(postcard::Error::DeserializeUnexpectedEnd) => Err(DecodeError::UnexpectedEnd),
        Err(_) => Err(DecodeError::BadVarint),
    }
}

/// `postcard::take_from_bytes` for a `u64`: the integer that [`read_varint`] finds and the bytes
/// behind it, or the reason why it finds none.
#[verifier::external_body]
pub(crate) fn take_u64<'a>(s: &'a [u8]) -> (taken: Result<(u64, &'a [u8]), DecodeError>)
    ensures
        match taken {
            Ok((value, rest)) => read_varint(s@, 64, u64::MAX as nat) matches Ok((n, len)) && n
                == value && rest@ == s@.skip(len as int),
            Err(e) => read_varint(s@, 64, u64::MAX as nat) == Err::<(nat, nat), DecodeError>(e),
        },
{
    match postcard::take_from_bytes::<u64>(s) {
        Ok(taken) => Ok(taken),
        Err(postcard::Error::DeserializeUnexpectedEnd) => Err(DecodeError::UnexpectedEnd),
        Err(_) => Err(DecodeError::BadVarint),
    }
}

/// `postcard::take_from_bytes` for a `u128`: the integer that [`read_varint`] finds and the bytes
/// behind it, or the reason why it finds none.
#[verifier::external_body]
pub(crate) fn take_u128<'a>(s: &'a [u8]) -> (taken: Result<(u128, &'a [u8]), DecodeError>)
    ensures
        match taken {
            Ok((value, rest)) => read_varint(s@, 128, u128::MAX as nat) matches Ok((n, len)) && n
                == value && rest@ == s@.skip(len as int),
            Err(e) => read_varint(s@, 128, u128::MAX as nat) == Err::<(nat, nat), DecodeError>(e),
        },
{
    match postcard::take_from_bytes::<u128>(s) {
        Ok(taken) => Ok(taken),
        Err(postcard::Error::DeserializeUnexpectedEnd) => Err(DecodeError::UnexpectedEnd),
        Err(_) => Err(DecodeError::BadVarint),
    }
}

/// `postcard::take_from_bytes` for a `String`: the text that [`read_text`] finds and the bytes
/// behind it, or the reason why it finds none.
#[verifier::external_body]
pub(crate) fn take_text<'a>(s: &'a [u8]) -> (taken: Result<(String, &'a [u8]), DecodeError>)
    ensures
        match taken {
            Ok((text, rest)) => read_text(s@) matches Ok((chars, len)) && chars == text@ && rest@
                == s@.skip(len as int),
            Err(e) => read_text(s@) == Err::<(Seq<char>, nat), DecodeError>(e),
        },
{
    match postcard::take_from_bytes::<String>(s) {
        Ok(taken) => Ok(taken),
        Err(postcard::Error::DeserializeUnexpectedEnd) => Err(DecodeError::UnexpectedEnd),
        Err(postcard::Error::DeserializeBadUtf8) => Err(DecodeError::BadUtf8),
        Err(_) => Err(DecodeError::BadVarint),
    }
}

/// The bytes of a text end with its characters in UTF-8, and what stands before is how many bytes
/// these are.
pub proof fn law_text_is_counted(text: Seq<char>)
    ensures
        ({
            let utf8 = encode_utf8(text);
            let at = text_bytes(text).len() - utf8.len();
            &&& at >= 0
            &&& text_bytes(text).skip(at) == utf8
            &&& text_bytes(text).take(at) == varint(utf8.len())
        }),
{
    let utf8 = encode_utf8(text);
    let at = text_bytes(text).len() - utf8.len();
    assert(text_bytes(text).skip(at) =~= utf8);
    assert(text_bytes(text).take(at) =~= varint(utf8.len()));
}

/// A text is read exactly where a count stands first and as many bytes follow, which are the text in
/// UTF-8. The bytes end too early exactly where the count does or where fewer follow.
pub proof fn law_text_is_read_by_its_count(s: Seq<u8>)
    ensures
        match (read_varint(s, usize::BITS as nat, usize::MAX as nat), read_text(s)) {
            (Ok((count, from)), Ok((text, to))) => {
                &&& to == from + count
                &&& to <= s.len()
                &&& s.subrange(from as int, to as int) == encode_utf8(text)
            },
            (Ok((count, from)), Err(DecodeError::UnexpectedEnd)) => from + count > s.len(),
            (Ok((count, from)), Err(DecodeError::BadUtf8)) => from + count <= s.len()
                && !valid_utf8(s.subrange(from as int, (from + count) as int)),
            (Err(e), Err(same)) => same == e,
            _ => false,
        },
{
    match read_varint(s, usize::BITS as nat, usize::MAX as nat) {
        Ok((count, from)) => {
            if from + count <= s.len() {
                let body = s.subrange(from as int, (from + count) as int);
                if valid_utf8(body) {
                    vstd::utf8::decode_utf8_encode_utf8(body);
                }
            }
        },
        Err(_) => {},
    }
}

} // verus!
