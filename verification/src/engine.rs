//! The calls into the `base64` crate. Nothing in this file is proved: each
//! contract says what the crate's general-purpose engine does, in the terms
//! of [`crate::codec`].
use vstd::prelude::*;
use base64::alphabet::URL_SAFE;
use base64::display::Base64Display;
use base64::engine::general_purpose::{GeneralPurpose, NO_PAD, URL_SAFE_NO_PAD};
use base64::{DecodeError, Engine};
use core::fmt::{Display, Error, Formatter};
use crate::codec::{decoded, encoded, well_formed};
use crate::formatter::written;

verus! {

/// `base64::DecodeError`, the engine's reason for refusing a text.
#[verifier::external_type_specification]
#[verifier::external_body]
pub struct ExDecodeError(DecodeError);

/// A text as ASCII bytes, which is how the engine writes it into a slice.
pub open spec fn ascii(text: Seq<char>) -> Seq<u8> {
    Seq::new(text.len(), |i: int| text[i] as u8)
}

/// `Engine::encode_string` on `URL_SAFE_NO_PAD`: the text form of `bytes`
/// is appended to `buf`, and what `buf` held stays in front of it.
#[verifier::external_body]
pub(crate) fn encode_string(bytes: &[u8; 16], buf: &mut String)
    ensures
        final(buf)@ == old(buf)@ + encoded(bytes@),
{
    URL_SAFE_NO_PAD.encode_string(bytes, buf)
}

/// `Engine::encode_slice` on `URL_SAFE_NO_PAD`: the 22 characters of the
/// text form of `bytes` are written to `out` as ASCII. The engine fails only
/// on a slice shorter than the text, which `out` is not, so its result, the
/// number of bytes written, is left behind.
#[verifier::external_body]
pub(crate) fn encode_slice(bytes: &[u8; 16], out: &mut [u8; 22])
    ensures
        final(out)@ == ascii(encoded(bytes@)),
{
    let _ = URL_SAFE_NO_PAD.encode_slice(bytes, out);
}

/// `Display::fmt` of `Base64Display` on `URL_SAFE_NO_PAD`: the text form of
/// `bytes` goes into the formatter, unless the formatter reports an error.
#[verifier::external_body]
pub(crate) fn encode_fmt(bytes: &[u8; 16], f: &mut Formatter<'_>) -> (r: Result<(), Error>)
    ensures
        r is Ok ==> written(*final(f)) == written(*old(f)) + encoded(bytes@),
{
    Base64Display::new(bytes, &URL_SAFE_NO_PAD).fmt(f)
}

/// `Engine::decode` on the URL-safe alphabet with the `NO_PAD` configuration
/// and trailing bits allowed. The engine accepts a text exactly when every
/// byte of it is a character of the alphabet (so no `=`, and nothing outside
/// ASCII) and its length is not one more than a multiple of four. It returns
/// the whole bytes that the characters carry, and ignores the bits of the
/// last character beyond them.
#[verifier::external_body]
pub(crate) fn decode(text: &str) -> (r: Result<Vec<u8>, DecodeError>)
    ensures
        r is Ok <==> well_formed(text@),
        r matches Ok(bytes) ==> bytes@ == decoded(text@),
{
    GeneralPurpose::new(&URL_SAFE, NO_PAD.with_decode_allow_trailing_bits(true)).decode(text)
}

} // verus!
