//! Conversions between integer types that code generation needs.
use vstd::prelude::*;

verus! {

/// The low 32 bits of `v`, as a signed value (`v as i32`).
pub fn low_i32(v: i64) -> (r: i32)
    ensures
        i32::MIN <= v <= i32::MAX ==> r == v,
{
    #[verifier::truncate]
    (v as i32)
}

/// `v` as an `i32`, when it fits.
pub fn fit_i32(v: i64) -> (r: Option<i32>)
    ensures
        r matches Some(x) ==> x == v,
        r is None <==> !(i32::MIN <= v <= i32::MAX),
{
    if i32::MIN as i64 <= v && v <= i32::MAX as i64 {
        Some(v as i32)
    } else {
        None
    }
}

/// The code point of a character.
pub fn char_code(c: char) -> (r: i64)
    ensures
        r == c as int,
{
    (c as u32) as i64
}

/// A label number as an index.
/// The low 32 bits of an index.
pub fn low_u32(v: usize) -> (r: u32)
    ensures
        v <= u32::MAX ==> r == v,
{
    #[verifier::truncate]
    (v as u32)
}

pub fn label_index(l: u32) -> (r: usize)
    ensures
        r == l,
{
    l as usize
}

} // verus!
