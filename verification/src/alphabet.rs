//! The URL-safe Base64 alphabet of RFC 4648: `A`–`Z`, `a`–`z`, `0`–`9`, `-`
//! and `_`, standing for the six-bit values 0 to 63 in that order.
use vstd::prelude::*;

verus! {

/// Whether `c` belongs to the alphabet. The padding character `=` and the
/// characters `+` and `/` of the standard alphabet do not.
pub open spec fn is_symbol(c: char) -> bool {
    ||| 'A' <= c <= 'Z'
    ||| 'a' <= c <= 'z'
    ||| '0' <= c <= '9'
    ||| c == '-'
    ||| c == '_'
}

/// The character that stands for the six-bit value `v`.
pub open spec fn symbol(v: int) -> char
    recommends
        0 <= v < 64,
{
    if v < 26 {
        ('A' as int + v) as char
    } else if v < 52 {
        ('a' as int + v - 26) as char
    } else if v < 62 {
        ('0' as int + v - 52) as char
    } else if v == 62 {
        '-'
    } else {
        '_'
    }
}

/// The six-bit value that the character `c` of the alphabet stands for.
pub open spec fn symbol_value(c: char) -> int
    recommends
        is_symbol(c),
{
    if 'A' <= c <= 'Z' {
        c as int - 'A' as int
    } else if 'a' <= c <= 'z' {
        c as int - 'a' as int + 26
    } else if '0' <= c <= '9' {
        c as int - '0' as int + 52
    } else if c == '-' {
        62
    } else {
        63
    }
}

/// Every six-bit value has a character of the alphabet, and that character
/// stands for no other value.
pub proof fn lemma_symbol_value_of_symbol(v: int)
    requires
        0 <= v < 64,
    ensures
        is_symbol(symbol(v)),
        symbol_value(symbol(v)) == v,
        symbol(v) != '=',
        symbol(v) != '+',
        symbol(v) != '/',
{
}

/// Every character of the alphabet stands for a six-bit value, and is the
/// character of that value.
pub proof fn lemma_symbol_of_symbol_value(c: char)
    requires
        is_symbol(c),
    ensures
        0 <= symbol_value(c) < 64,
        symbol(symbol_value(c)) == c,
{
}

} // verus!
