use crate::error::VaultError;
use vstd::prelude::*;

verus! {

/// The standard base64 text of `data`, with padding, as ASCII bytes.
pub uninterp spec fn base64_encoding(data: Seq<u8>) -> Seq<u8>;

/// The bytes that `text` is base64 for, or `None` where `text` is not
/// accepted as base64.
pub uninterp spec fn base64_decoding(text: Seq<u8>) -> Option<Seq<u8>>;

/// The characters that base64 text is made of: letters, digits, `+`, `/` and
/// the padding sign `=`.
pub open spec fn is_base64_symbol(b: u8) -> bool {
    ||| 0x41 <= b <= 0x5a
    ||| 0x61 <= b <= 0x7a
    ||| 0x30 <= b <= 0x39
    ||| b == 0x2b
    ||| b == 0x2f
    ||| b == 0x3d
}

/// Length of the base64 text of `n` bytes: four symbols for every three
/// bytes, the last group padded.
pub open spec fn base64_len(n: nat) -> nat {
    (n + 2) / 3 * 4
}

#[verifier::external_type_specification]
#[verifier::external_body]
pub struct ExBase64DecodeError(base64::DecodeError);

/// `base64::encode`, its `String` taken as bytes. Trusted: the text is
/// determined by the data, has four symbols for every started group of three
/// bytes, holds only base64 symbols, and decodes back to the data. The call
/// panics only where that length does not fit in `usize`.
#[verifier::external_body]
pub(crate) fn base64_encode(data: &[u8]) -> (text: Vec<u8>)
    requires
        base64_len(data@.len()) <= usize::MAX,
    ensures
        text@ == base64_encoding(data@),
        text@.len() == base64_len(data@.len()),
        forall|i: int| 0 <= i < text@.len() ==> is_base64_symbol(#[trigger] text@[i]),
        base64_decoding(text@) == Some(data@),
{
    base64::encode(data).into_bytes()
}

/// `base64::decode`. Trusted: whether it succeeds, and with which bytes, is
/// determined by the text. The call panics only where the length of the text
/// plus seven does not fit in `usize`.
#[verifier::external_body]
fn base64_decode(text: &[u8]) -> (r: Result<Vec<u8>, base64::DecodeError>)
    requires
        text@.len() + 7 <= usize::MAX,
    ensures
        match r {
            Ok(data) => base64_decoding(text@) == Some(data@),
            Err(_) => base64_decoding(text@).is_none(),
        },
{
    base64::decode(text)
}

/// What the vault makes of stored text: the bytes it is base64 for. Text that
/// is not base64 has none, and neither has text so long that its length plus
/// seven cannot be counted in `usize`, which the decoder cannot be given.
pub open spec fn text_decoding(text: Seq<u8>) -> Option<Seq<u8>> {
    if text.len() + 7 <= usize::MAX {
        base64_decoding(text)
    } else {
        None
    }
}

/// Reads stored text back into bytes; text that has no decoding is
/// `VaultError::TextDecode`.
pub(crate) fn decode_text(text: &[u8]) -> (r: Result<Vec<u8>, VaultError>)
    ensures
        match r {
            Ok(data) => text_decoding(text@) == Some(data@),
            Err(e) => e == VaultError::TextDecode && text_decoding(text@).is_none(),
        },
{
    if text.len() > usize::MAX - 7 {
        return Err(VaultError::TextDecode);
    }
    match base64_decode(text) {
        Ok(data) => Ok(data),
        Err(_) => Err(VaultError::TextDecode),
    }
}

} // verus!
