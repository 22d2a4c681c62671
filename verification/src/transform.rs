//! The streaming transform: a decorator over a byte source that applies a
//! substitution policy to every byte of each buffer as it passes through.
//!
//! The transform owns the policy and the underlying source but holds no
//! other state, so a stream may be delivered in reads of any size: mapping
//! the pieces one by one gives the same bytes as mapping the whole. The
//! caller that drives the reads hands each freshly filled buffer prefix to
//! [`MappingTransform::map_prefix`] before passing it on, which keeps the
//! byte count of every read unchanged.

use vstd::prelude::*;
use crate::policy::{mapped_byte, Mapping};

verus! {

/// A byte sequence run through a mapping: each byte replaced where the
/// mapping has a replacement, kept where it has none.
pub open spec fn map_bytes_spec<M: Mapping>(m: &M, s: Seq<u8>) -> Seq<u8> {
    s.map_values(|b: u8| mapped_byte(m, b))
}

/// A substitution policy wrapped around an underlying byte source.
pub struct MappingTransform<M, R> {
    /// The substitution applied to every byte read.
    pub mapping: M,
    /// The source the bytes come from, read by the caller that drives the
    /// copy loop; the transform itself never touches it.
    pub stream: R,
}

impl<M, R> MappingTransform<M, R> {
    /// Wraps `stream` so that its bytes pass through `mapping`.
    pub fn new(mapping: M, stream: R) -> (r: Self)
        ensures
            r.mapping == mapping,
            r.stream == stream,
    {
        MappingTransform { mapping, stream }
    }
}

impl<M: Mapping, R> MappingTransform<M, R> {
    /// Applies the mapping in place to the first `count` bytes of `buf` —
    /// the bytes one read obtained — and leaves the rest of the buffer
    /// alone. The buffer keeps its length: substitution never changes how
    /// many bytes a read produced.
    pub fn map_prefix(&self, buf: &mut Vec<u8>, count: usize)
        requires
            count <= old(buf).len(),
        ensures
            final(buf)@.len() == old(buf)@.len(),
            final(buf)@ == map_bytes_spec(&self.mapping, old(buf)@.take(count as int)) + old(
                buf,
            )@.skip(count as int),
    {
        let mut i: usize = 0;
        while i < count
            invariant
                i <= count,
                count <= buf@.len(),
                buf@.len() == old(buf)@.len(),
                forall|j: int| 0 <= j < i ==> buf@[j] == mapped_byte(&self.mapping, old(buf)@[j]),
                forall|j: int| i <= j < buf@.len() ==> buf@[j] == old(buf)@[j],
            decreases count - i,
        {
            let b = buf[i];
            match self.mapping.get(b) {
                None => (),
                Some(replace_with) => {
                    buf.set(i, replace_with);
                },
            }
            i += 1;
        }
        proof {
            assert(buf@ =~= map_bytes_spec(&self.mapping, old(buf)@.take(count as int)) + old(
                buf,
            )@.skip(count as int));
        }
    }
}

/// Mapping a buffer never changes its length: the transform reports as
/// many bytes as the underlying source delivered.
pub proof fn lemma_length_preservation<M: Mapping>(m: &M, s: Seq<u8>)
    ensures
        map_bytes_spec(m, s).len() == s.len(),
{
}

/// Mapping an input delivered in two reads gives the same bytes as mapping
/// it in one: the transform keeps no state between reads, so chunking does
/// not matter.
pub proof fn lemma_streaming_equivalence<M: Mapping>(m: &M, first: Seq<u8>, second: Seq<u8>)
    ensures
        map_bytes_spec(m, first + second) == map_bytes_spec(m, first) + map_bytes_spec(m, second),
{
    assert(map_bytes_spec(m, first + second) =~= map_bytes_spec(m, first) + map_bytes_spec(
        m,
        second,
    ));
}

} // verus!
