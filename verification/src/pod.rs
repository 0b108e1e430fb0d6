//! Plain-old-data types: types whose values are in one-to-one correspondence
//! with the byte strings of one fixed length.

use vstd::prelude::*;

verus! {

/// A plain-old-data type.
///
/// Such a type has no invalid bit pattern: every string of
/// [`Pod::spec_size`] bytes is the image of exactly one value. Whoever
/// implements the trait for a type has to say what the image of a value is
/// and to prove the three laws below, so the claim is checked where the
/// implementation stands.
///
/// The trait is implemented for the machine integers and for arrays of
/// plain-old-data values. Their images are the bytes that the values have in
/// the memory of a target that stores the lowest byte of an integer first.
pub trait Pod: Copy {
    /// The number of bytes of the image of a value.
    spec fn spec_size() -> nat;

    /// The byte image of a value.
    spec fn bytes(self) -> Seq<u8>;

    /// The value whose byte image is `bytes`.
    spec fn from_bytes(bytes: Seq<u8>) -> Self;

    /// The image of a value has `spec_size()` bytes.
    proof fn lemma_bytes_len(self)
        ensures
            self.bytes().len() == Self::spec_size(),
    ;

    /// A value is found again from its image.
    proof fn lemma_from_bytes_of_bytes(self)
        ensures
            Self::from_bytes(self.bytes()) == self,
    ;

    /// Every string of `spec_size()` bytes is the image of a value.
    proof fn lemma_bytes_of_from_bytes(bytes: Seq<u8>)
        requires
            bytes.len() == Self::spec_size(),
        ensures
            Self::from_bytes(bytes).bytes() == bytes,
    ;

    /// The number of bytes of the image of a value, or `None` where that
    /// number exceeds `usize::MAX`, as it may for arrays of arrays that no
    /// memory can hold.
    fn size() -> (n: Option<usize>)
        ensures
            n == size_in_usize(Self::spec_size()),
    ;

    /// The value whose image holds zero bytes only.
    fn zeroed() -> (z: Self)
        ensures
            z.bytes() == zeros(Self::spec_size()),
    ;

    /// Appends the image of the value to `out`.
    fn write_bytes(&self, out: &mut Vec<u8>)
        ensures
            final(out)@ == old(out)@ + self.bytes(),
    ;

    /// Reads the value whose image are the `spec_size()` bytes of `bytes`
    /// from index `at` on.
    fn read_bytes(bytes: &[u8], at: usize) -> (v: Self)
        requires
            at + Self::spec_size() <= bytes.len(),
        ensures
            v == Self::from_bytes(bytes@.subrange(at as int, at + Self::spec_size())),
    ;
}

/// A size as a `usize`, where it fits.
pub open spec fn size_in_usize(size: nat) -> Option<usize> {
    if size <= usize::MAX {
        Some(size as usize)
    } else {
        None
    }
}

/// The string of `n` zero bytes.
pub open spec fn zeros(n: nat) -> Seq<u8> {
    Seq::new(n, |i: int| 0u8)
}

} // verus!
