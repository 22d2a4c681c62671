//! Substitution policies: the interchangeable per-byte mapping strategies.
//!
//! A policy answers, for one byte, either a replacement byte (for ASCII
//! letters) or "no mapping" (for everything else). Two strategies exist:
//! the fixed self-inverse ROT13 table, and a parametric rotation by an
//! offset chosen at construction, forwards or backwards. A closed
//! enumeration, [`Policy`], carries whichever of the two the configuration
//! selected.

use vstd::prelude::*;
use vstd::string::StrSliceExecFns;
use vstd::string::StringSliceAdditionalSpecFns;
use crate::ascii::{
    is_alpha_byte,
    is_lower_byte,
    is_upper_byte,
    lemma_rotate_case,
    lemma_rotate_compose,
    lemma_rotate_zero,
    set_case,
    spec_rotate,
    to_lowerish,
};

verus! {

/// The byte a mapping leaves at a position: the replacement when the
/// mapping has one, the original byte otherwise.
pub open spec fn mapped_byte<M: Mapping>(m: &M, b: u8) -> u8 {
    match m.spec_get(b) {
        Some(n) => n,
        None => b,
    }
}

/// Relies on String::push: appending one character appends exactly that
/// character to the string's character sequence.
#[verifier::external_body]
fn push_char(s: &mut String, c: char)
    ensures
        final(s)@ == old(s)@.push(c),
{
    s.push(c);
}

/// One byte-substitution strategy.
pub trait Mapping: Sized {
    /// The strategy's internal soundness condition; every value built by
    /// the constructors of this crate satisfies it.
    spec fn valid(&self) -> bool;

    /// The replacement for `u`: a rotated letter when `u` is an ASCII
    /// letter, no mapping otherwise.
    spec fn spec_get(&self, u: u8) -> Option<u8>;

    /// A mapping replaces exactly the ASCII letters, and preserves the
    /// case of every letter it replaces; every other byte gets no mapping.
    proof fn lemma_get_cases(&self, u: u8)
        requires
            self.valid(),
        ensures
            (self.spec_get(u) is Some) <==> is_alpha_byte(u),
            self.spec_get(u) matches Some(n) ==> (is_lower_byte(u) <==> is_lower_byte(n)),
            self.spec_get(u) matches Some(n) ==> (is_upper_byte(u) <==> is_upper_byte(n)),
    ;

    /// The replacement byte for `u`, or `None` when `u` is left alone.
    fn get(&self, u: u8) -> (r: Option<u8>)
        ensures
            r == self.spec_get(u),
    ;

    /// Maps every byte of a text value, keeping bytes without a mapping,
    /// and collects the results as characters. A convenience for callers
    /// that hold their text in one piece; the streaming path does not use
    /// it.
    fn map_str(&self, s: &str) -> (r: String)
        ensures
            r@.len() == s.spec_bytes().len(),
            forall|j: int|
                0 <= j < r@.len() ==> r@[j] == ((match self.spec_get(s.spec_bytes()[j]) {
                    Some(n) => n,
                    None => s.spec_bytes()[j],
                }) as char),
    {
        let bytes = s.as_bytes_vec();
        let mut out = String::new();
        let mut i: usize = 0;
        while i < bytes.len()
            invariant
                i <= bytes@.len(),
                bytes@ == s.spec_bytes(),
                out@.len() == i,
                forall|j: int|
                    0 <= j < i ==> out@[j] == ((match self.spec_get(bytes@[j]) {
                        Some(n) => n,
                        None => bytes@[j],
                    }) as char),
            decreases bytes@.len() - i,
        {
            let b = bytes[i];
            let replaced = match self.get(b) {
                Some(n) => n,
                None => b,
            };
            push_char(&mut out, replaced as char);
            i += 1;
        }
        out
    }
}

/// Case preservation and non-alphabetic identity, read off the byte a
/// mapping leaves at a position: a letter keeps its case, and a byte that
/// is no letter gets no mapping and so stays exactly as it was.
pub proof fn lemma_mapped_byte_cases<M: Mapping>(m: &M, u: u8)
    requires
        m.valid(),
    ensures
        is_lower_byte(u) ==> is_lower_byte(mapped_byte(m, u)),
        is_upper_byte(u) ==> is_upper_byte(mapped_byte(m, u)),
        !is_alpha_byte(u) ==> m.spec_get(u) is None && mapped_byte(m, u) == u,
{
    m.lemma_get_cases(u);
}

/// The fixed ROT13 table for the lower-case letters: each letter is mapped
/// thirteen places ahead, wrapping at the end of the alphabet; anything
/// that is not a lower-case letter has no entry.
fn rot13_letter(lower: u8) -> (r: Option<u8>)
    ensures
        r == (if is_lower_byte(lower) {
            Some(spec_rotate(lower, 13))
        } else {
            None::<u8>
        }),
{
    match lower {
        97 => Some(110),
        98 => Some(111),
        99 => Some(112),
        100 => Some(113),
        101 => Some(114),
        102 => Some(115),
        103 => Some(116),
        104 => Some(117),
        105 => Some(118),
        106 => Some(119),
        107 => Some(120),
        108 => Some(121),
        109 => Some(122),
        110 => Some(97),
        111 => Some(98),
        112 => Some(99),
        113 => Some(100),
        114 => Some(101),
        115 => Some(102),
        116 => Some(103),
        117 => Some(104),
        118 => Some(105),
        119 => Some(106),
        120 => Some(107),
        121 => Some(108),
        122 => Some(109),
        _ => None,
    }
}

/// The fixed substitution with offset thirteen: its own inverse.
pub struct Rot13;

impl Mapping for Rot13 {
    open spec fn valid(&self) -> bool {
        true
    }

    open spec fn spec_get(&self, u: u8) -> Option<u8> {
        if is_alpha_byte(u) {
            Some(spec_rotate(u, 13))
        } else {
            None
        }
    }

    proof fn lemma_get_cases(&self, u: u8) {
        if is_alpha_byte(u) {
            lemma_rotate_case(u, 13);
        }
    }

    fn get(&self, u: u8) -> (r: Option<u8>) {
        let lower = to_lowerish(u);
        proof {
            if is_lower_byte(lower) {
                lemma_rotate_case(lower, 13);
            }
        }
        match rot13_letter(lower) {
            None => None,
            Some(replaced) => Some(set_case(replaced, u)),
        }
    }
}

/// The parametric substitution: rotation by an offset fixed when the value
/// is built, forwards or (by storing the complementary offset) backwards.
pub struct RotBy(u8);

impl RotBy {
    /// Offsets are kept reduced modulo the length of the alphabet.
    #[verifier::type_invariant]
    closed spec fn inv(self) -> bool {
        self.0 < 26
    }

    /// The reduced offset this substitution rotates by.
    pub closed spec fn offset(&self) -> u8 {
        self.0
    }

    /// Builds a rotation by `n` places forward, or, when `reverse` is set,
    /// by the complementary offset, so that it undoes the forward rotation
    /// by `n`. Either way the stored offset is reduced modulo the length
    /// of the alphabet.
    pub fn new(n: u8, reverse: bool) -> (r: RotBy)
        requires
            n <= 26,
        ensures
            r.offset() == (if reverse {
                (26 - n) % 26
            } else {
                (n % 26) as int
            }),
    {
        if reverse {
            RotBy((26 - n) % 26)
        } else {
            RotBy(n % 26)
        }
    }

    /// Moves an alphabet position forward by the stored offset, wrapping
    /// at the end of the alphabet.
    pub fn shift(&self, u: u8) -> (r: u8)
        requires
            u < 26,
        ensures
            r == (u + self.offset()) % 26,
            r < 26,
    {
        proof {
            use_type_invariant(&*self);
        }
        (u + self.0) % 26
    }
}

impl Mapping for RotBy {
    open spec fn valid(&self) -> bool {
        self.offset() < 26
    }

    open spec fn spec_get(&self, u: u8) -> Option<u8> {
        if is_alpha_byte(u) {
            Some(spec_rotate(u, self.offset()))
        } else {
            None
        }
    }

    proof fn lemma_get_cases(&self, u: u8) {
        if is_alpha_byte(u) {
            lemma_rotate_case(u, self.offset());
        }
    }

    fn get(&self, u: u8) -> (r: Option<u8>) {
        proof {
            use_type_invariant(&*self);
        }
        let lower = to_lowerish(u);
        proof {
            if is_lower_byte(lower) {
                lemma_rotate_case(lower, self.offset());
            }
        }
        let rotated = if 97 <= lower && lower <= 122 {
            Some(self.shift(lower - 97) + 97)
        } else {
            None
        };
        match rotated {
            None => None,
            Some(replaced) => Some(set_case(replaced, u)),
        }
    }
}

/// The policy the configuration selected: exactly one of the two
/// strategies, fixed for the whole run.
pub enum Policy {
    Rot13(Rot13),
    RotateBy(RotBy),
}

impl Mapping for Policy {
    open spec fn valid(&self) -> bool {
        match self {
            Policy::Rot13(m) => m.valid(),
            Policy::RotateBy(m) => m.valid(),
        }
    }

    open spec fn spec_get(&self, u: u8) -> Option<u8> {
        match self {
            Policy::Rot13(m) => m.spec_get(u),
            Policy::RotateBy(m) => m.spec_get(u),
        }
    }

    proof fn lemma_get_cases(&self, u: u8) {
        match self {
            Policy::Rot13(m) => m.lemma_get_cases(u),
            Policy::RotateBy(m) => m.lemma_get_cases(u),
        }
    }

    fn get(&self, u: u8) -> (r: Option<u8>) {
        match self {
            Policy::Rot13(m) => m.get(u),
            Policy::RotateBy(m) => m.get(u),
        }
    }
}

impl Policy {
    /// The policy a configuration asks for: the fixed ROT13 when no offset
    /// was given, the parametric rotation by that offset (inverted when
    /// `reverse` is set) otherwise.
    pub fn from_config(offset: Option<u8>, reverse: bool) -> (r: Policy)
        requires
            offset matches Some(n) ==> n <= 26,
        ensures
            r.valid(),
            match offset {
                None => r == Policy::Rot13(Rot13),
                Some(n) => r matches Policy::RotateBy(m) && m.offset() == (if reverse {
                    (26 - n) % 26
                } else {
                    (n % 26) as int
                }),
            },
    {
        match offset {
            None => Policy::Rot13(Rot13),
            Some(n) => Policy::RotateBy(RotBy::new(n, reverse)),
        }
    }
}

/// Applying the fixed ROT13 substitution twice gives back the original
/// byte, letter or not: it is its own inverse.
pub proof fn lemma_rot13_involution(u: u8)
    ensures
        mapped_byte(&Rot13, mapped_byte(&Rot13, u)) == u,
{
    if is_alpha_byte(u) {
        lemma_rotate_case(u, 13);
        lemma_rotate_compose(u, 13, 13);
        lemma_rotate_zero(u);
    }
}

/// A reverse rotation by `n` followed by a forward rotation by `n` gives
/// back the original byte, letter or not: reverse truly inverts forward.
pub proof fn lemma_rotby_inverse(fwd: &RotBy, rev: &RotBy, n: u8, u: u8)
    requires
        n <= 26,
        fwd.offset() == n % 26,
        rev.offset() == (26 - n) % 26,
    ensures
        mapped_byte(fwd, mapped_byte(rev, u)) == u,
{
    if is_alpha_byte(u) {
        lemma_rotate_case(u, rev.offset());
        lemma_rotate_compose(u, rev.offset(), fwd.offset());
        lemma_rotate_zero(u);
    }
}

} // verus!
