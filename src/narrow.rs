//! Truncating copy of a string into a fixed-capacity buffer of 8-bit
//! character units.
use vstd::prelude::*;
use vstd::string::StringSliceAdditionalSpecFns;
use vstd::utf8::encode_utf8;

use crate::bounded_copy::{bounded_copy, copy_len};

verus! {

/// The signed 8-bit character unit with the same bits as `b`.
pub open spec fn signed_byte(b: u8) -> i8 {
    if b < 0x80 {
        b as i8
    } else {
        (b - 0x100) as i8
    }
}

/// The bytes of a string's UTF-8 encoding, as signed character units.
pub open spec fn narrow_units(s: Seq<char>) -> Seq<i8> {
    encode_utf8(s).map_values(|b: u8| signed_byte(b))
}

fn to_signed_byte(b: u8) -> (r: i8)
    ensures
        r == signed_byte(b),
{
    if b < 0x80 {
        b as i8
    } else {
        (b as i16 - 0x100) as i8
    }
}

/// Copies `src` into the C string buffer `dest`, truncating it so that the
/// last slot is always left for the terminator. An empty buffer is left as
/// it is.
pub fn strlcpy(dest: &mut [i8], src: &str)
    ensures
        final(dest)@ == bounded_copy(old(dest)@, narrow_units(src@), 0i8),
{
    if dest.len() == 0 {
        return ;
    }
    let src_bytes: &[u8] = src.as_bytes();
    let ghost units = narrow_units(src@);
    let n: usize = if src_bytes.len() < dest.len() - 1 {
        src_bytes.len()
    } else {
        dest.len() - 1
    };
    let mut i: usize = 0;
    while i < n
        invariant
            src_bytes@ == encode_utf8(src@),
            units == narrow_units(src@),
            n == copy_len(old(dest)@.len(), src_bytes@.len()),
            i <= n,
            n < dest@.len(),
            n <= src_bytes@.len(),
            units.len() == src_bytes@.len(),
            dest@.len() == old(dest)@.len(),
            forall|j: int| 0 <= j < i ==> dest@[j] == #[trigger] units[j],
            forall|j: int| i <= j < dest@.len() ==> dest@[j] == old(dest)@[j],
        decreases n - i,
    {
        dest[i] = to_signed_byte(src_bytes[i]);
        i = i + 1;
    }
    dest[n] = 0;
    assert(dest@ =~= bounded_copy(old(dest)@, units, 0i8));
}

} // verus!
