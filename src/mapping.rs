//! The memory-mapped view of a file's bytes.

use memmap2::Mmap;
use vstd::prelude::*;

verus! {

#[verifier::external_type_specification]
#[verifier::external_body]
pub struct ExMmap(Mmap);

/// The bytes that a mapping shows. A mapping is taken to show fixed bytes:
/// a log file is appended to, never rewritten in place. A file that shrinks
/// while mapped makes reads past its new end fault; the size check before the
/// next mapping only stops the index from going on against it.
pub uninterp spec fn mapping_contents(m: Mmap) -> Seq<u8>;

/// Relies on memmap2's `Deref<Target = [u8]>` for `Mmap`: the whole mapped
/// region as one byte slice.
#[verifier::external_body]
pub(crate) fn mapped_bytes(m: &Mmap) -> (r: &[u8])
    ensures
        r@ == mapping_contents(*m),
{
    &m[..]
}

} // verus!
