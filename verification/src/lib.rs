//! UUIDs that read and print as Base64.
//!
//! A [`UuidB64`] holds the sixteen bytes of a UUID. Its text form is the 22
//! characters of their URL-safe Base64 encoding without padding, not the 36
//! characters of hyphenated hexadecimal: `sMHuhm9GTxuNi3hJ51287g` for
//! `b0c1ee86-6f46-4f1b-8d8b-7849e75dbcee`.
//!
//! * [`codec`] says what that text form is, and proves that reading it gives
//!   the bytes back; [`alphabet`] holds its 64 characters.
//! * [`id`] holds the identifier, [`order`] its order, [`errors`] the error
//!   that reading a text returns.
//! * [`engine`], [`raw`], [`inline`] and [`formatter`] hold the calls into
//!   `base64`, `uuid`, `inlinable_string` and `core::fmt`, with what is taken
//!   for granted of each.
pub mod alphabet;
pub mod codec;
pub mod engine;
pub mod errors;
pub mod formatter;
pub mod id;
pub mod inline;
pub mod order;
pub mod raw;

pub use crate::errors::ParseError;
pub use crate::id::UuidB64;
