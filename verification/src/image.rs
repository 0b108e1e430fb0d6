//! Byte images of sequences of plain-old-data values.

use vstd::prelude::*;
use crate::pod::{zeros, Pod};

verus! {

/// The byte image of a sequence: the images of its elements, one after the
/// other.
pub open spec fn image<T: Pod>(s: Seq<T>) -> Seq<u8>
    decreases s.len(),
{
    if s.len() == 0 {
        Seq::empty()
    } else {
        image(s.drop_last()) + s.last().bytes()
    }
}

/// The `i`-th run of `T::spec_size()` bytes of `bytes`.
pub open spec fn chunk<T: Pod>(bytes: Seq<u8>, i: int) -> Seq<u8> {
    bytes.subrange(i * T::spec_size(), (i + 1) * T::spec_size())
}

/// The sequence of `n` values of `T` whose images are the first `n` runs of
/// `T::spec_size()` bytes of `bytes`.
pub open spec fn reinterpret<T: Pod>(bytes: Seq<u8>, n: nat) -> Seq<T> {
    Seq::new(n, |i: int| T::from_bytes(chunk::<T>(bytes, i)))
}

/// The image of a sequence has as many bytes as its elements have together.
pub proof fn lemma_image_len<T: Pod>(s: Seq<T>)
    ensures
        image(s).len() == s.len() * T::spec_size(),
    decreases s.len(),
{
    if s.len() > 0 {
        lemma_image_len(s.drop_last());
        s.last().lemma_bytes_len();
        assert((s.len() - 1) * T::spec_size() + T::spec_size() == s.len() * T::spec_size())
            by (nonlinear_arith);
    } else {
        assert(0 * T::spec_size() == 0);
    }
}

/// The image of a sequence with one more element ends with the image of
/// that element.
pub proof fn lemma_image_push<T: Pod>(s: Seq<T>, x: T)
    ensures
        image(s.push(x)) == image(s) + x.bytes(),
{
    assert(s.push(x).drop_last() =~= s);
}

/// The `i`-th run of bytes of the image of a sequence is the image of its
/// `i`-th element.
pub proof fn lemma_image_chunk<T: Pod>(s: Seq<T>, i: int)
    requires
        0 <= i < s.len(),
    ensures
        chunk::<T>(image(s), i) == s[i].bytes(),
    decreases s.len(),
{
    let size = T::spec_size();
    let front = s.drop_last();
    lemma_image_len(front);
    s.last().lemma_bytes_len();
    assert((i + 1) * size == i * size + size) by (nonlinear_arith);
    if i == s.len() - 1 {
        assert(chunk::<T>(image(s), i) =~= s[i].bytes());
    } else {
        lemma_image_chunk(front, i);
        assert((i + 1) * size <= front.len() * size) by (nonlinear_arith)
            requires
                i + 1 <= front.len(),
        ;
        assert(0 <= i * size) by (nonlinear_arith)
            requires
                0 <= i,
        ;
        assert(chunk::<T>(image(s), i) =~= chunk::<T>(image(front), i));
    }
}

/// Reading a sequence back from its image gives the sequence.
pub proof fn lemma_reinterpret_image<T: Pod>(s: Seq<T>)
    ensures
        reinterpret::<T>(image(s), s.len()) == s,
{
    assert forall|i: int| 0 <= i < s.len() implies reinterpret::<T>(image(s), s.len())[i]
        == s[i] by {
        lemma_image_chunk(s, i);
        s[i].lemma_from_bytes_of_bytes();
    }
    assert(reinterpret::<T>(image(s), s.len()) =~= s);
}

/// The image of the values read from `n` runs of bytes is those bytes.
pub proof fn lemma_image_reinterpret<T: Pod>(bytes: Seq<u8>, n: nat)
    requires
        bytes.len() == n * T::spec_size(),
    ensures
        image(reinterpret::<T>(bytes, n)) == bytes,
    decreases n,
{
    let size = T::spec_size();
    let s = reinterpret::<T>(bytes, n);
    if n == 0 {
        assert(0 * size == 0);
        assert(image(s) =~= bytes);
    } else {
        let m = (n - 1) as nat;
        assert(m * size + size == n * size) by (nonlinear_arith)
            requires
                m + 1 == n,
        ;
        assert(0 <= m * size) by (nonlinear_arith);
        let front = bytes.subrange(0, (m * size) as int);
        lemma_image_reinterpret::<T>(front, m);
        assert forall|i: int| 0 <= i < m implies chunk::<T>(front, i) == chunk::<T>(bytes, i) by {
            assert((i + 1) * size <= m * size) by (nonlinear_arith)
                requires
                    i + 1 <= m,
            ;
            assert(0 <= i * size <= (i + 1) * size) by (nonlinear_arith)
                requires
                    0 <= i,
                    0 <= size,
            ;
            assert(chunk::<T>(front, i) =~= chunk::<T>(bytes, i));
        }
        assert(s.drop_last() =~= reinterpret::<T>(front, m));
        T::lemma_bytes_of_from_bytes(chunk::<T>(bytes, m as int));
        assert(image(s) =~= bytes);
    }
}

/// The image of a sequence of values whose images are all zero is all zero.
pub proof fn lemma_image_of_zeroed<T: Pod>(s: Seq<T>)
    requires
        forall|i: int| 0 <= i < s.len() ==> (#[trigger] s[i]).bytes() == zeros(T::spec_size()),
    ensures
        image(s) == zeros(s.len() * T::spec_size()),
    decreases s.len(),
{
    lemma_image_len(s);
    if s.len() > 0 {
        lemma_image_of_zeroed(s.drop_last());
        lemma_image_len(s.drop_last());
    }
    assert(image(s) =~= zeros(s.len() * T::spec_size()));
}

} // verus!
