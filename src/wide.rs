//! Truncating copy of a string into a fixed-capacity buffer of 16-bit
//! (UTF-16) character units.
use vstd::prelude::*;
use widestring::error::ContainsNul;
use widestring::U16CString;

use crate::bounded_copy::{bounded_copy, copy_len};

verus! {

#[verifier::external_type_specification]
#[verifier::external_body]
#[verifier::reject_recursive_types(C)]
pub struct ExContainsNul<C>(ContainsNul<C>);

/// Why a string could not be copied into a wide buffer.
#[derive(Debug, Clone, Copy, PartialEq, Eq, Structural)]
pub enum WideCopyError {
    /// A nul character stands somewhere before the last character, so the
    /// string has no UTF-16 form without an embedded terminator.
    InteriorNul,
}

/// The UTF-16 code units of one Unicode scalar value: one unit in the basic
/// plane, a high and a low surrogate above it.
pub open spec fn utf16_of_scalar(v: u32) -> Seq<u16> {
    if v < 0x1_0000 {
        seq![v as u16]
    } else {
        seq![
            (0xD800 + (v - 0x1_0000) / 0x400) as u16,
            (0xDC00 + (v - 0x1_0000) % 0x400) as u16,
        ]
    }
}

/// The UTF-16 encoding of a character sequence.
pub open spec fn utf16_units(s: Seq<char>) -> Seq<u16>
    decreases s.len(),
{
    if s.len() == 0 {
        seq![]
    } else {
        utf16_of_scalar(s[0] as u32) + utf16_units(s.drop_first())
    }
}

/// A nul character stands somewhere before the last character.
pub open spec fn has_interior_nul(s: Seq<char>) -> bool {
    exists|i: int| 0 <= i < s.len() - 1 && #[trigger] s[i] == '\0'
}

/// The characters without one nul character at the end, if there is one.
pub open spec fn without_trailing_nul(s: Seq<char>) -> Seq<char> {
    if s.len() > 0 && s.last() == '\0' {
        s.drop_last()
    } else {
        s
    }
}

/// The signed 16-bit character unit with the same bits as `u`.
pub open spec fn signed_unit(u: u16) -> i16 {
    if u < 0x8000 {
        u as i16
    } else {
        (u - 0x1_0000) as i16
    }
}

/// The UTF-16 units, as signed character units, that are copied from a string
/// with no interior nul.
pub open spec fn wide_units(s: Seq<char>) -> Seq<i16> {
    utf16_units(without_trailing_nul(s)).map_values(|u: u16| signed_unit(u))
}

/// Relies on `widestring::U16CString::from_str`, which encodes the string as
/// UTF-16 and fails with `ContainsNul` when a nul unit stands anywhere but
/// last, and on `U16CString::into_vec`, which hands back the units without
/// the terminator.
#[verifier::external_body]
fn encode_utf16_nul_checked(s: &str) -> (r: Result<Vec<u16>, ContainsNul<u16>>)
    ensures
        r.is_err() <==> has_interior_nul(s@),
        r.is_ok() ==> r.unwrap()@ == utf16_units(without_trailing_nul(s@)),
{
    match U16CString::from_str(s) {
        Ok(w) => Ok(w.into_vec()),
        Err(e) => Err(e),
    }
}

fn to_signed_unit(u: u16) -> (r: i16)
    ensures
        r == signed_unit(u),
{
    if u < 0x8000 {
        u as i16
    } else {
        (u as i32 - 0x1_0000) as i16
    }
}

/// Copies `src`, encoded as UTF-16, into the wide C string buffer `dest`,
/// truncating it so that the last slot is always left for the terminator.
/// An empty buffer is left as it is. A string with a nul character before
/// its end is refused, and `dest` is then left as it is.
pub fn u16strlcpy(dest: &mut [i16], src: &str) -> (r: Result<(), WideCopyError>)
    ensures
        r is Err <==> old(dest)@.len() > 0 && has_interior_nul(src@),
        r is Ok ==> final(dest)@ == bounded_copy(old(dest)@, wide_units(src@), 0i16),
        r is Err ==> final(dest)@ == old(dest)@,
{
    if dest.len() == 0 {
        return Ok(());
    }
    let units: Vec<u16> = match encode_utf16_nul_checked(src) {
        Ok(v) => v,
        Err(_) => {
            return Err(WideCopyError::InteriorNul);
        },
    };
    let ghost signed = wide_units(src@);
    let n: usize = if units.len() < dest.len() - 1 {
        units.len()
    } else {
        dest.len() - 1
    };
    let mut i: usize = 0;
    while i < n
        invariant
            units@ == utf16_units(without_trailing_nul(src@)),
            signed == wide_units(src@),
            n == copy_len(old(dest)@.len(), units@.len()),
            i <= n,
            n < dest@.len(),
            n <= units@.len(),
            signed.len() == units@.len(),
            dest@.len() == old(dest)@.len(),
            forall|j: int| 0 <= j < i ==> dest@[j] == #[trigger] signed[j],
            forall|j: int| i <= j < dest@.len() ==> dest@[j] == old(dest)@[j],
        decreases n - i,
    {
        dest[i] = to_signed_unit(units[i]);
        i = i + 1;
    }
    dest[n] = 0;
    assert(dest@ =~= bounded_copy(old(dest)@, signed, 0i16));
    Ok(())
}

} // verus!
