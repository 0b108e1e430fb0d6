//! Casts between sequences of plain-old-data types that keep every byte.

use vstd::prelude::*;
use crate::image::{
    image, lemma_image_len, lemma_image_push, lemma_image_reinterpret, lemma_reinterpret_image,
    reinterpret,
};
use crate::pod::Pod;

verus! {

/// The number of elements of `size_b` bytes that hold exactly the bytes of
/// `len` elements of `size_a` bytes: the byte length `size_a * len` divided
/// by `size_b`, where the division leaves no remainder. There is no such
/// number where `size_b` is zero or a remainder is left.
pub open spec fn spec_cast_len(size_a: nat, len: nat, size_b: nat) -> Option<nat> {
    if size_b != 0 && (size_a * len) % size_b == 0 {
        Some(size_a * len / size_b)
    } else {
        None
    }
}

/// Whether a sequence of `len` elements of `A` can be cast to a sequence of
/// `B`: `B` has a size, and the byte length of the sequence is a multiple of
/// it.
pub open spec fn castable<A: Pod, B: Pod>(len: nat) -> bool {
    spec_cast_len(A::spec_size(), len, B::spec_size()) is Some
}

/// The sequence of `B` that has the same byte image as `s`.
pub open spec fn spec_cast<A: Pod, B: Pod>(s: Seq<A>) -> Seq<B> {
    reinterpret::<B>(image(s), image(s).len() / B::spec_size())
}

/// The length of what a run of `len` elements of `size_a` bytes becomes when
/// it is cast to elements of `size_b` bytes.
///
/// The byte length `size_a * len` is divided by `size_b`, and the quotient is
/// multiplied back to see that no byte is left over. The result is `None`
/// where a byte is left over, where `size_b` is zero, and where the byte
/// length exceeds `usize::MAX`, which it does for no sequence in memory.
pub fn cast_len(size_a: usize, len: usize, size_b: usize) -> (r: Option<usize>)
    ensures
        r is Some <==> size_a * len <= usize::MAX && spec_cast_len(
            size_a as nat,
            len as nat,
            size_b as nat,
        ) is Some,
        r matches Some(n) ==> spec_cast_len(size_a as nat, len as nat, size_b as nat) == Some(
            n as nat,
        ) && n * size_b == size_a * len,
{
    if size_b == 0 {
        return None;
    }
    match size_a.checked_mul(len) {
        None => None,
        Some(raw_len) => {
            let n = raw_len / size_b;
            proof {
                lemma_exact_division(raw_len as nat, size_b as nat);
            }
            if size_b * n == raw_len {
                Some(n)
            } else {
                None
            }
        },
    }
}

/// Dividing and multiplying back gives the number again exactly when the
/// division leaves no remainder, and never gives more.
proof fn lemma_exact_division(x: nat, d: nat)
    requires
        d > 0,
    ensures
        d * (x / d) <= x,
        d * (x / d) == x <==> x % d == 0,
        (x / d) * d == d * (x / d),
{
    vstd::arithmetic::div_mod::lemma_fundamental_div_mod(x as int, d as int);
    assert((x / d) * d == d * (x / d)) by (nonlinear_arith);
}

/// The byte image of `slice`.
fn image_of<A: Pod>(slice: &[A]) -> (bytes: Vec<u8>)
    ensures
        bytes@ == image(slice@),
{
    let mut bytes: Vec<u8> = Vec::new();
    let mut i: usize = 0;
    while i < slice.len()
        invariant
            i <= slice.len(),
            bytes@ == image(slice@.subrange(0, i as int)),
        decreases slice.len() - i,
    {
        proof {
            lemma_image_push(slice@.subrange(0, i as int), slice@[i as int]);
            assert(slice@.subrange(0, i as int).push(slice@[i as int]) =~= slice@.subrange(
                0,
                i + 1,
            ));
        }
        slice[i].write_bytes(&mut bytes);
        i = i + 1;
    }
    assert(slice@.subrange(0, slice.len() as int) =~= slice@);
    bytes
}

/// The values of `B` whose images are the runs of bytes of `bytes`, which
/// holds a whole number of such runs.
fn values_of<B: Pod>(bytes: &[u8]) -> (out: Vec<B>)
    requires
        B::spec_size() > 0,
        bytes@.len() % B::spec_size() == 0,
    ensures
        out@ == reinterpret::<B>(bytes@, bytes@.len() / B::spec_size()),
{
    let mut out: Vec<B> = Vec::new();
    match B::size() {
        Some(size_b) => {
            let len = bytes.len() / size_b;
            let mut pos: usize = 0;
            proof {
                lemma_exact_division(bytes@.len(), size_b as nat);
            }
            while out.len() < len
                invariant
                    out@.len() <= len,
                    size_b == B::spec_size(),
                    pos == out@.len() * size_b,
                    len * size_b == bytes.len(),
                    out@ == reinterpret::<B>(bytes@, out@.len()),
                decreases len - out@.len(),
            {
                let ghost n = out@.len() as int;
                proof {
                    assert((n + 1) * size_b == n * size_b + size_b) by (nonlinear_arith);
                    assert((n + 1) * size_b <= len * size_b) by (nonlinear_arith)
                        requires
                            n + 1 <= len,
                    ;
                }
                let value = B::read_bytes(bytes, pos);
                out.push(value);
                pos = pos + size_b;
                assert(out@ =~= reinterpret::<B>(bytes@, out@.len()));
            }
        },
        None => {
            // The size of `B` exceeds every byte length, so the byte length
            // that it divides is zero.
            proof {
                let (total, size_b) = (bytes.len() as nat, B::spec_size());
                assert(total == 0) by (nonlinear_arith)
                    requires
                        total % size_b == 0,
                        total < size_b,
                ;
                assert(0nat / size_b == 0) by (nonlinear_arith)
                    requires
                        size_b > 0,
                ;
                assert(out@ =~= reinterpret::<B>(bytes@, 0));
            }
        },
    }
    out
}

/// Casts a sequence of one plain-old-data type to another.
///
/// The result has the same byte image as `slice`: its elements are read from
/// the bytes of the elements of `slice`, in order, with no byte added,
/// dropped or changed, and with no regard to what number a run of bytes
/// stood for. The result is a sequence of its own, since safe code cannot
/// view the memory of `slice` under another type.
///
/// The byte length of `slice` has to be a multiple of the size of `B`, which
/// may not be zero; [`cast_len`] tells whether it is.
pub fn cast_slice<A: Pod, B: Pod>(slice: &[A]) -> (out: Vec<B>)
    requires
        castable::<A, B>(slice@.len()),
    ensures
        out@ == spec_cast::<A, B>(slice@),
        image(out@) == image(slice@),
        Some(out@.len()) == spec_cast_len(A::spec_size(), slice@.len(), B::spec_size()),
        out@.len() * B::spec_size() == slice@.len() * A::spec_size(),
{
    let bytes = image_of(slice);
    proof {
        lemma_image_len(slice@);
        assert(slice@.len() * A::spec_size() == A::spec_size() * slice@.len())
            by (nonlinear_arith);
        lemma_cast_preserves_bytes::<A, B>(slice@);
    }
    values_of(bytes.as_slice())
}

/// A cast keeps the byte length and the bytes: the result has the length
/// that the division of the byte length gives, its byte length is that of the
/// sequence, and its byte image is that of the sequence.
pub proof fn lemma_cast_preserves_bytes<A: Pod, B: Pod>(s: Seq<A>)
    requires
        castable::<A, B>(s.len()),
    ensures
        Some(spec_cast::<A, B>(s).len()) == spec_cast_len(
            A::spec_size(),
            s.len(),
            B::spec_size(),
        ),
        spec_cast::<A, B>(s).len() * B::spec_size() == s.len() * A::spec_size(),
        image(spec_cast::<A, B>(s)) == image(s),
{
    let total = image(s).len();
    let size_b = B::spec_size();
    lemma_image_len(s);
    assert(s.len() * A::spec_size() == A::spec_size() * s.len()) by (nonlinear_arith);
    lemma_exact_division(total, size_b);
    lemma_image_reinterpret::<B>(image(s), total / size_b);
}

/// The result of a cast is the only sequence of `B` with the byte image of
/// the sequence.
pub proof fn lemma_cast_is_unique<A: Pod, B: Pod>(s: Seq<A>, t: Seq<B>)
    requires
        B::spec_size() > 0,
        image(t) == image(s),
    ensures
        castable::<A, B>(s.len()),
        t == spec_cast::<A, B>(s),
{
    let size_b = B::spec_size();
    lemma_image_len(s);
    lemma_image_len(t);
    assert(s.len() * A::spec_size() == A::spec_size() * s.len()) by (nonlinear_arith);
    assert((t.len() * size_b) % size_b == 0 && (t.len() * size_b) / size_b == t.len())
        by (nonlinear_arith)
        requires
            size_b > 0,
    ;
    lemma_reinterpret_image(t);
}

/// Casting a sequence to its own element type gives the sequence back, with
/// its length and its bytes.
pub proof fn lemma_cast_identity<A: Pod>(s: Seq<A>)
    requires
        A::spec_size() > 0,
    ensures
        castable::<A, A>(s.len()),
        spec_cast::<A, A>(s) == s,
        spec_cast::<A, A>(s).len() == s.len(),
        image(spec_cast::<A, A>(s)) == image(s),
{
    lemma_cast_is_unique::<A, A>(s, s);
}

/// Casting to another type and back gives the sequence back.
pub proof fn lemma_cast_round_trip<A: Pod, B: Pod>(s: Seq<A>)
    requires
        A::spec_size() > 0,
        castable::<A, B>(s.len()),
    ensures
        castable::<B, A>(spec_cast::<A, B>(s).len()),
        spec_cast::<B, A>(spec_cast::<A, B>(s)) == s,
{
    lemma_cast_preserves_bytes::<A, B>(s);
    lemma_cast_is_unique::<B, A>(spec_cast::<A, B>(s), s);
}

} // verus!
