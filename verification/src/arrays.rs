//! Arrays of plain-old-data values as plain-old-data types.
//!
//! The image of an array is the image of the sequence of its elements: an
//! array has no bytes but those of its elements.

use vstd::prelude::*;
use crate::image::{
    chunk, image, lemma_image_len, lemma_image_of_zeroed, lemma_image_push,
    lemma_image_reinterpret, lemma_reinterpret_image, reinterpret,
};
use crate::pod::Pod;

verus! {

/// The array whose elements are those of `s`, in order.
pub open spec fn array_of<T, const N: usize>(s: Seq<T>) -> [T; N] {
    choose|a: [T; N]| a@ == s
}

/// An array that agrees with `s` on its first `k` elements.
spec fn array_prefix<T, const N: usize>(s: Seq<T>, k: nat) -> [T; N]
    decreases k,
{
    if k == 0 {
        arbitrary()
    } else {
        vstd::array::spec_array_update(
            array_prefix::<T, N>(s, (k - 1) as nat),
            k - 1,
            s[k - 1],
        )
    }
}

/// `array_prefix(s, k)` agrees with `s` on its first `k` elements.
proof fn lemma_array_prefix<T, const N: usize>(s: Seq<T>, k: nat)
    requires
        k <= N == s.len(),
    ensures
        forall|j: int| 0 <= j < k ==> array_prefix::<T, N>(s, k)@[j] == s[j],
    decreases k,
{
    if k > 0 {
        lemma_array_prefix::<T, N>(s, (k - 1) as nat);
    }
}

/// Every sequence of `N` elements is the content of an array.
pub proof fn lemma_array_of<T, const N: usize>(s: Seq<T>)
    requires
        s.len() == N,
    ensures
        array_of::<T, N>(s)@ == s,
{
    lemma_array_prefix::<T, N>(s, N as nat);
    assert(array_prefix::<T, N>(s, N as nat)@ =~= s);
}

impl<T: Pod, const N: usize> Pod for [T; N] {
    open spec fn spec_size() -> nat {
        N as nat * T::spec_size()
    }

    open spec fn bytes(self) -> Seq<u8> {
        image(self@)
    }

    open spec fn from_bytes(bytes: Seq<u8>) -> Self {
        array_of::<T, N>(reinterpret::<T>(bytes, N as nat))
    }

    proof fn lemma_bytes_len(self) {
        lemma_image_len(self@);
    }

    proof fn lemma_from_bytes_of_bytes(self) {
        lemma_reinterpret_image(self@);
        lemma_array_of::<T, N>(self@);
        assert(Self::from_bytes(self.bytes()) =~= self);
    }

    proof fn lemma_bytes_of_from_bytes(bytes: Seq<u8>) {
        lemma_array_of::<T, N>(reinterpret::<T>(bytes, N as nat));
        lemma_image_reinterpret::<T>(bytes, N as nat);
    }

    fn size() -> (n: Option<usize>) {
        match T::size() {
            Some(size) => N.checked_mul(size),
            None => {
                proof {
                    assert(N > 0 ==> N * T::spec_size() >= T::spec_size()) by (nonlinear_arith);
                }
                if N == 0 {
                    Some(0)
                } else {
                    None
                }
            },
        }
    }

    fn zeroed() -> (z: Self) {
        let z = [T::zeroed(); N];
        proof {
            lemma_image_of_zeroed(z@);
        }
        z
    }

    fn write_bytes(&self, out: &mut Vec<u8>) {
        let mut i: usize = 0;
        while i < N
            invariant
                i <= N,
                out@ == old(out)@ + image(self@.subrange(0, i as int)),
            decreases N - i,
        {
            proof {
                lemma_image_push(self@.subrange(0, i as int), self@[i as int]);
                assert(self@.subrange(0, i as int).push(self@[i as int]) =~= self@.subrange(
                    0,
                    i + 1,
                ));
            }
            self[i].write_bytes(out);
            i = i + 1;
        }
        assert(self@.subrange(0, N as int) =~= self@);
    }

    fn read_bytes(bytes: &[u8], at: usize) -> (v: Self) {
        let mut v = [T::zeroed(); N];
        let ghost whole = bytes@.subrange(at as int, at + Self::spec_size());
        if N > 0 {
            proof {
                assert(N * T::spec_size() >= T::spec_size()) by (nonlinear_arith)
                    requires
                        N > 0,
                ;
            }
            match T::size() {
                Some(size) => {
                    let mut i: usize = 0;
                    let mut pos: usize = at;
                    while i < N
                        invariant
                            i <= N,
                            size == T::spec_size(),
                            pos == at + i * size,
                            at + N * size <= bytes.len(),
                            whole == bytes@.subrange(at as int, at + N * size),
                            forall|j: int|
                                0 <= j < i ==> v@[j] == T::from_bytes(chunk::<T>(whole, j)),
                        decreases N - i,
                    {
                        proof {
                            assert((i + 1) * size == i * size + size) by (nonlinear_arith);
                            assert((i + 1) * size <= N * size) by (nonlinear_arith)
                                requires
                                    i + 1 <= N,
                            ;
                            assert(chunk::<T>(whole, i as int) =~= bytes@.subrange(
                                pos as int,
                                pos + size,
                            ));
                        }
                        v[i] = T::read_bytes(bytes, pos);
                        pos = pos + size;
                        i = i + 1;
                    }
                },
                // One element fits in `bytes`, so its size fits in `usize`.
                None => {},
            }
        }
        proof {
            assert(v@ =~= reinterpret::<T>(whole, N as nat));
            lemma_array_of::<T, N>(v@);
            assert(v =~= Self::from_bytes(whole));
        }
        v
    }
}

} // verus!
