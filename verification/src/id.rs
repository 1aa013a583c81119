//! The identifier: sixteen bytes, written and read as 22 characters of
//! URL-safe Base64.
use vstd::prelude::*;
use core::cmp::Ordering;
use core::fmt::{Error, Formatter};
use core::str::FromStr;
use inlinable_string::InlineString;
use uuid::Uuid;
use vstd::std_specs::cmp::{PartialEqSpecImpl, PartialOrdSpec, PartialOrdSpecImpl};
use vstd::std_specs::convert::FromSpecImpl;
use crate::codec::{
    decode, decoded, encode, encode_inline, encode_into, encoded, is_identifier_text,
    lemma_decode_encode, lemma_encoded_injective, lemma_encoded_well_formed,
};
use crate::engine::encode_fmt;
use crate::errors::ParseError;
use crate::formatter::written;
use crate::inline::{inline_capacity, inline_text};
use crate::order::{
    first_difference, lemma_agreeing_are_equal, lemma_differ_at, lemma_lex_trichotomy, lex_less,
};
use crate::raw::{is_random_v4, uuid_bytes};

verus! {

/// A 128-bit identifier whose text form is 22 characters of URL-safe Base64
/// without padding, in place of the 36 characters of hyphenated hexadecimal.
///
/// Two identifiers are equal when their bytes are, and they are ordered as
/// their bytes are, from the first byte to the last.
#[derive(Clone, Copy, Eq, Ord, Hash)]
pub struct UuidB64 {
    bytes: [u8; 16],
}

impl View for UuidB64 {
    type V = Seq<u8>;

    /// The sixteen bytes.
    closed spec fn view(&self) -> Seq<u8> {
        self.bytes@
    }
}

impl UuidB64 {
    /// The text form: 22 characters of the URL-safe alphabet.
    pub open spec fn text(&self) -> Seq<char> {
        encoded(self@)
    }

    /// What `Debug` writes: the text form inside the type's name.
    pub open spec fn debug_text(&self) -> Seq<char> {
        "UuidB64("@ + self.text() + ")"@
    }

    /// The identifier that holds `bytes`.
    pub closed spec fn of_bytes(bytes: Seq<u8>) -> UuidB64 {
        choose|id: UuidB64| id@ == bytes
    }

    /// An identifier holds sixteen bytes, and is the identifier of those
    /// bytes.
    pub proof fn lemma_sixteen_bytes(self)
        ensures
            self@.len() == 16,
            UuidB64::of_bytes(self@) == self,
    {
        let chosen = UuidB64::of_bytes(self@);
        assert(chosen@ == self@);
        assert(chosen.bytes =~= self.bytes);
    }

    /// Identifiers are the same exactly when their bytes are.
    pub proof fn lemma_equal_by_bytes(self, other: UuidB64)
        ensures
            self@ == other@ <==> self == other,
    {
        if self@ == other@ {
            assert(self.bytes =~= other.bytes);
        }
    }

    /// A new random identifier: a version 4 UUID from the `uuid` crate's
    /// generator, which draws on the operating system's random bytes.
    pub fn new() -> (r: UuidB64)
        ensures
            is_random_v4(r@),
    {
        UuidB64::from(Uuid::new_v4())
    }

    /// A copy of the identifier as a `Uuid`.
    pub fn uuid(&self) -> (r: Uuid)
        ensures
            uuid_bytes(r) == self@,
    {
        Uuid::from_bytes(self.bytes)
    }

    /// The text form as an `InlineString`, which needs no allocation.
    ///
    /// The text needs 22 bytes of inline storage. Where an `InlineString` has
    /// room for fewer, the result holds the characters that fit.
    pub fn to_istring(&self) -> (r: InlineString)
        ensures
            inline_capacity() >= 22 ==> inline_text(r) == self.text(),
            inline_capacity() < 22 ==> inline_text(r) == self.text().take(inline_capacity() as int),
    {
        encode_inline(&self.bytes)
    }

    /// Appends the text form to `buffer`, after what it holds.
    pub fn to_buf(&self, buffer: &mut String)
        ensures
            final(buffer)@ == old(buffer)@ + self.text(),
    {
        encode_into(&self.bytes, buffer)
    }

    /// The text form as a new `String`: what `Display` writes. It has 22
    /// characters, all of the alphabet, so none of them is padding.
    pub fn to_string(&self) -> (r: String)
        ensures
            r@ == self.text(),
            is_identifier_text(r@),
    {
        encode(&self.bytes)
    }

    /// Reading the text form of an identifier gives the identifier back.
    pub proof fn lemma_round_trip(self)
        ensures
            is_identifier_text(self.text()),
            decoded(self.text()) == self@,
    {
        lemma_decode_encode(self@);
    }

    /// The text form has exactly 22 characters, and none of them is the
    /// padding character.
    pub proof fn lemma_fixed_width(self)
        ensures
            self.text().len() == 22,
            forall|i: int| 0 <= i < 22 ==> #[trigger] self.text()[i] != '=',
    {
        lemma_encoded_well_formed(self@);
    }

    /// Writing the text form into a buffer and asking for it as a new string
    /// give the same characters: into an empty buffer they are all that it
    /// then holds, and into any buffer they are its last 22.
    pub proof fn lemma_buffer_write(self, before: Seq<char>)
        ensures
            Seq::<char>::empty() + self.text() == self.text(),
            (before + self.text()).skip(before.len() as int) == self.text(),
    {
        assert(Seq::<char>::empty() + self.text() =~= self.text());
        assert((before + self.text()).skip(before.len() as int) =~= self.text());
    }

    /// Different identifiers have different text forms.
    pub proof fn lemma_text_injective(self, other: UuidB64)
        requires
            self != other,
        ensures
            self.text() != other.text(),
    {
        self.lemma_equal_by_bytes(other);
        lemma_encoded_injective(self@, other@);
    }
}

/// Reads an identifier from its text form.
impl FromStr for UuidB64 {
    type Err = ParseError;

    /// Succeeds exactly on 22 characters of the URL-safe alphabet, with the
    /// identifier whose bytes they carry. Any other text comes back in the
    /// error.
    fn from_str(s: &str) -> (r: Result<UuidB64, ParseError>)
        ensures
            r is Ok <==> is_identifier_text(s@),
            r matches Ok(id) ==> id@ == decoded(s@),
            r matches Err(e) ==> e@ == s@,
    {
        match decode(s) {
            Ok(bytes) => Ok(UuidB64 { bytes }),
            Err(e) => Err(e),
        }
    }
}

/// Makes an identifier of a raw `Uuid`, of any version.
impl From<Uuid> for UuidB64 {
    fn from(item: Uuid) -> (r: UuidB64)
        ensures
            r@ == uuid_bytes(item),
    {
        let r = UuidB64 { bytes: *item.as_bytes() };
        proof {
            r.lemma_sixteen_bytes();
        }
        r
    }
}

impl FromSpecImpl<Uuid> for UuidB64 {
    open spec fn obeys_from_spec() -> bool {
        true
    }

    open spec fn from_spec(item: Uuid) -> UuidB64 {
        UuidB64::of_bytes(uuid_bytes(item))
    }
}

impl PartialEq for UuidB64 {
    fn eq(&self, other: &UuidB64) -> (r: bool) {
        let d = first_difference(&self.bytes, &other.bytes);
        proof {
            if d == 16 {
                lemma_agreeing_are_equal(self@, other@);
            }
        }
        d == 16
    }
}

impl PartialEqSpecImpl for UuidB64 {
    open spec fn obeys_eq_spec() -> bool {
        true
    }

    open spec fn eq_spec(&self, other: &UuidB64) -> bool {
        self@ == other@
    }
}

impl PartialOrd for UuidB64 {
    fn partial_cmp(&self, other: &UuidB64) -> (r: Option<Ordering>) {
        let d = first_difference(&self.bytes, &other.bytes);
        if d == 16 {
            proof {
                lemma_agreeing_are_equal(self@, other@);
            }
            Some(Ordering::Equal)
        } else if self.bytes[d] < other.bytes[d] {
            proof {
                lemma_differ_at(self@, other@, d);
            }
            Some(Ordering::Less)
        } else {
            proof {
                lemma_differ_at(other@, self@, d);
            }
            Some(Ordering::Greater)
        }
    }
}

impl PartialOrdSpecImpl for UuidB64 {
    open spec fn obeys_partial_cmp_spec() -> bool {
        true
    }

    open spec fn partial_cmp_spec(&self, other: &UuidB64) -> Option<Ordering> {
        if lex_less(self@, other@) {
            Some(Ordering::Less)
        } else if lex_less(other@, self@) {
            Some(Ordering::Greater)
        } else {
            Some(Ordering::Equal)
        }
    }
}

impl UuidB64 {
    /// Identifiers are ordered as their bytes are in lexicographic order, and
    /// any two of them are ordered: one comes first, or they are the same.
    pub proof fn lemma_ordered_as_bytes(self, other: UuidB64)
        ensures
            PartialOrdSpec::partial_cmp_spec(&self, &other) == Some(Ordering::Less) <==> lex_less(
                self@,
                other@,
            ),
            PartialOrdSpec::partial_cmp_spec(&self, &other) == Some(Ordering::Greater)
                <==> lex_less(other@, self@),
            PartialOrdSpec::partial_cmp_spec(&self, &other) == Some(Ordering::Equal) <==> self
                == other,
    {
        lemma_lex_trichotomy(self@, other@);
        self.lemma_equal_by_bytes(other);
    }
}

impl core::fmt::Display for UuidB64 {
    /// Writes the text form.
    fn fmt(&self, f: &mut Formatter<'_>) -> (r: Result<(), Error>)
        ensures
            r is Ok ==> written(*final(f)) == written(*old(f)) + self.text(),
    {
        encode_fmt(&self.bytes, f)
    }
}

impl core::fmt::Debug for UuidB64 {
    /// Writes the text form inside the type's name, as in
    /// `UuidB64(sMHuhm9GTxuNi3hJ51287g)`.
    fn fmt(&self, f: &mut Formatter<'_>) -> (r: Result<(), Error>)
        ensures
            r is Ok ==> written(*final(f)) == written(*old(f)) + self.debug_text(),
    {
        match f.write_str("UuidB64(") {
            Ok(()) => {},
            Err(e) => {
                return Err(e);
            },
        }
        match encode_fmt(&self.bytes, f) {
            Ok(()) => {},
            Err(e) => {
                return Err(e);
            },
        }
        let r = f.write_str(")");
        assert(r is Ok ==> written(*f) =~= written(*old(f)) + self.debug_text());
        r
    }
}

} // verus!
