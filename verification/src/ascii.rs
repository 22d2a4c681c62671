//! Case-aware rotation of single ASCII bytes: the leaf of the cipher.
//!
//! A byte is rotated only when it is an ASCII letter; every other byte is
//! left alone. The rotation works on the lower-case alphabet and restores
//! the original case afterwards, using the bit that distinguishes the two
//! ASCII cases.

use vstd::prelude::*;

verus! {

/// True of the ASCII bytes `a` through `z`.
pub open spec fn is_lower_byte(b: u8) -> bool {
    97 <= b && b <= 122
}

/// True of the ASCII bytes `A` through `Z`.
pub open spec fn is_upper_byte(b: u8) -> bool {
    65 <= b && b <= 90
}

/// True of the ASCII letters, either case.
pub open spec fn is_alpha_byte(b: u8) -> bool {
    is_lower_byte(b) || is_upper_byte(b)
}

/// The letter `off` places after `b` in the alphabet, wrapping at the end,
/// in the case of `b` itself.
pub open spec fn spec_rotate(b: u8, off: u8) -> u8
    recommends
        is_alpha_byte(b),
{
    if is_lower_byte(b) {
        (97 + ((b - 97 + off) % 26)) as u8
    } else {
        (65 + ((b - 65 + off) % 26)) as u8
    }
}

/// Turns an upper-case letter into its lower-case partner by setting the
/// case bit, and leaves a byte that already has that bit set as it is.
/// A byte comes out in `a..=z` exactly when a letter went in.
pub fn to_lowerish(u: u8) -> (r: u8)
    ensures
        r == (u | 32),
        is_upper_byte(u) ==> r == u + 32,
        is_lower_byte(u) ==> r == u,
        is_lower_byte(r) <==> is_alpha_byte(u),
{
    proof {
        assert(65 <= u && u <= 90 ==> (u | 32) == u + 32) by (bit_vector);
        assert(97 <= u && u <= 122 ==> (u | 32) == u) by (bit_vector);
        assert((97 <= (u | 32) && (u | 32) <= 122) <==> ((97 <= u && u <= 122) || (65 <= u
            && u <= 90))) by (bit_vector);
    }
    u | 32
}

/// What `set_case` returns: `u_new` itself when the original byte carries
/// the lower-case bit, otherwise `u_new` with that bit cleared.
pub open spec fn spec_set_case(u_new: u8, u_original: u8) -> u8 {
    if u_original | 32 == u_original {
        u_new
    } else {
        u_new & 0xdf
    }
}

/// Gives `u_new` the case of `u_original`: a rotated lower-case letter is
/// forced back to upper case when the original byte was upper case.
pub fn set_case(u_new: u8, u_original: u8) -> (r: u8)
    ensures
        r == spec_set_case(u_new, u_original),
        is_lower_byte(u_original) ==> r == u_new,
        is_upper_byte(u_original) && is_lower_byte(u_new) ==> r == u_new - 32,
{
    proof {
        assert(97 <= u_original && u_original <= 122 ==> (u_original | 32) == u_original)
            by (bit_vector);
        assert(65 <= u_original && u_original <= 90 ==> (u_original | 32) != u_original)
            by (bit_vector);
        assert(97 <= u_new && u_new <= 122 ==> (u_new & 0xdf) == u_new - 32) by (bit_vector);
    }
    if u_original | 32 == u_original {
        u_new
    } else {
        u_new & 0xdf
    }
}

/// Rotating a letter never changes its case.
pub proof fn lemma_rotate_case(b: u8, off: u8)
    requires
        is_alpha_byte(b),
    ensures
        is_lower_byte(b) ==> is_lower_byte(spec_rotate(b, off)),
        is_upper_byte(b) ==> is_upper_byte(spec_rotate(b, off)),
{
}

/// Rotating by nothing leaves a letter alone.
pub proof fn lemma_rotate_zero(b: u8)
    requires
        is_alpha_byte(b),
    ensures
        spec_rotate(b, 0) == b,
{
}

/// Two rotations amount to one by the sum of the offsets, reduced modulo
/// the length of the alphabet.
pub proof fn lemma_rotate_compose(b: u8, o1: u8, o2: u8)
    requires
        is_alpha_byte(b),
        o1 < 26,
        o2 < 26,
    ensures
        spec_rotate(spec_rotate(b, o1), o2) == spec_rotate(b, ((o1 + o2) % 26) as u8),
{
    let base: int = if is_lower_byte(b) { 97 } else { 65 };
    let x: int = b - base;
    lemma_rotate_case(b, o1);
    vstd::arithmetic::div_mod::lemma_add_mod_noop(x + o1, o2 as int, 26);
    vstd::arithmetic::div_mod::lemma_add_mod_noop(x, o1 + o2, 26);
    vstd::arithmetic::div_mod::lemma_small_mod(o2 as nat, 26);
    vstd::arithmetic::div_mod::lemma_small_mod(x as nat, 26);
}

} // verus!
