//! `core::fmt::Formatter`, as far as the library writes through it. Nothing
//! in this file is proved.
use vstd::prelude::*;
use core::fmt::{Error, Formatter};

verus! {

/// `core::fmt::Formatter`, the sink that `Display` and `Debug` write to.
#[verifier::external_type_specification]
#[verifier::external_body]
pub struct ExFormatter<'a>(Formatter<'a>);

/// `core::fmt::Error`, which a formatter returns when its sink fails.
#[verifier::external_type_specification]
#[verifier::external_body]
pub struct ExError(Error);

/// The text that has gone into the formatter's sink.
pub uninterp spec fn written(f: Formatter<'_>) -> Seq<char>;

/// `Formatter::write_str`: on success `data` has gone into the sink, after
/// what was there.
pub assume_specification<'a>[ Formatter::<'a>::write_str ](
    f: &mut Formatter<'a>,
    data: &str,
) -> (r: Result<(), Error>)
    ensures
        r is Ok ==> written(*final(f)) == written(*old(f)) + data@,
;

} // verus!
