//! The `inlinable_string` crate's `InlineString`, a short string that lives
//! on the stack. Nothing in this file is proved.
use vstd::prelude::*;
use inlinable_string::inline_string::NotEnoughSpaceError;
use inlinable_string::InlineString;
use vstd::utf8::encode_utf8;

verus! {

/// `inlinable_string::InlineString`.
#[verifier::external_type_specification]
#[verifier::external_body]
pub struct ExInlineString(InlineString);

/// `inlinable_string::inline_string::NotEnoughSpaceError`, which says that
/// the inline storage is full.
#[verifier::external_type_specification]
#[verifier::external_body]
pub struct ExNotEnoughSpaceError(NotEnoughSpaceError);

/// The characters that an `InlineString` holds.
pub uninterp spec fn inline_text(s: InlineString) -> Seq<char>;

/// `INLINE_STRING_CAPACITY`: how many bytes of UTF-8 an `InlineString` has
/// room for. The crate sets it by the width of a pointer.
pub open spec fn inline_capacity() -> nat {
    if usize::BITS == 64 {
        30
    } else {
        14
    }
}

/// `InlineString::new`: the empty string.
pub assume_specification[ InlineString::new ]() -> (r: InlineString)
    ensures
        inline_text(r) == Seq::<char>::empty(),
;

/// `InlineString::push`: `ch` is appended if its UTF-8 bytes still fit
/// after those of the string; if they do not, the string stays as it was.
pub assume_specification[ InlineString::push ](
    s: &mut InlineString,
    ch: char,
) -> (r: Result<(), NotEnoughSpaceError>)
    ensures
        r is Ok <==> encode_utf8(inline_text(*old(s)).push(ch)).len() <= inline_capacity(),
        r is Ok ==> inline_text(*final(s)) == inline_text(*old(s)).push(ch),
        r is Err ==> inline_text(*final(s)) == inline_text(*old(s)),
;

} // verus!
