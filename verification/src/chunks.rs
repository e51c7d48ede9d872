//! How a file is cut into chunks: how many there are, and which window of
//! the file each one is.

use vstd::arithmetic::div_mod::lemma_fundamental_div_mod;
use vstd::prelude::*;

verus! {

/// The most bytes that one chunk holds. The remote host caps the size of an
/// object; this stays below the cap with room for the framing.
pub const MAX_CHUNK_BYTES: u64 = 26_210_000;

/// The number of chunks of a file of `size` bytes cut at every `bound`
/// bytes: `size / bound` rounded up, and one for the empty file.
pub open spec fn chunk_count(size: nat, bound: nat) -> nat {
    if size == 0 {
        1
    } else if size % bound == 0 {
        size / bound
    } else {
        size / bound + 1
    }
}

/// The offset in the file at which chunk `k` begins.
pub open spec fn chunk_offset(bound: nat, k: nat) -> nat {
    k * bound
}

/// The number of bytes of chunk `k`: `bound` while that many are left, else
/// what is left.
pub open spec fn chunk_length(size: nat, bound: nat, k: nat) -> nat {
    let start = k * bound;
    if start + bound <= size {
        bound
    } else if start <= size {
        (size - start) as nat
    } else {
        0
    }
}

/// The number of bytes of the first `k` chunks together.
pub open spec fn covered(size: nat, bound: nat, k: nat) -> nat
    decreases k,
{
    if k == 0 {
        0
    } else {
        covered(size, bound, (k - 1) as nat) + chunk_length(size, bound, (k - 1) as nat)
    }
}

/// Chunk `k` of `data`.
pub open spec fn chunk(data: Seq<u8>, bound: nat, k: nat) -> Seq<u8> {
    let start = chunk_offset(bound, k) as int;
    data.subrange(start, start + chunk_length(data.len(), bound, k))
}

/// The first `k` chunks of `data`, one after the other.
pub open spec fn joined(data: Seq<u8>, bound: nat, k: nat) -> Seq<u8>
    decreases k,
{
    if k == 0 {
        Seq::empty()
    } else {
        joined(data, bound, (k - 1) as nat) + chunk(data, bound, (k - 1) as nat)
    }
}

/// The first `k` chunks together hold `k * bound` bytes, or the whole file
/// where that is less.
pub proof fn lemma_covered(size: nat, bound: nat, k: nat)
    requires
        bound > 0,
    ensures
        covered(size, bound, k) == if k * bound <= size {
            k * bound
        } else {
            size
        },
    decreases k,
{
    if k > 0 {
        lemma_covered(size, bound, (k - 1) as nat);
        assert((k - 1) * bound + bound == k * bound) by (nonlinear_arith);
    } else {
        assert(0 * bound == 0) by (nonlinear_arith);
    }
}

/// Every chunk begins inside the file, and the chunks end where the file
/// ends.
pub proof fn lemma_chunk_bounds(size: nat, bound: nat, k: nat)
    requires
        bound > 0,
        k < chunk_count(size, bound),
    ensures
        k * bound <= size,
        size > 0 ==> k * bound < size,
        chunk_count(size, bound) * bound >= size,
        chunk_offset(bound, k) + chunk_length(size, bound, k) <= size,
{
    let q = size / bound;
    let r = size % bound;
    lemma_fundamental_div_mod(size as int, bound as int);
    assert(size == bound * q + r);
    assert(0 <= r < bound);
    let n = chunk_count(size, bound);
    assert(k * bound <= size && (size > 0 ==> k * bound < size) && n * bound >= size)
        by (nonlinear_arith)
        requires
            size == bound * q + r,
            0 <= r < bound,
            bound > 0,
            k < n,
            n == if size == 0 {
                1
            } else if r == 0 {
                q
            } else {
                q + 1
            },
    ;
}

/// Chunk coverage: a file has at least one chunk, no chunk is longer than
/// the bound, every chunk but the last is exactly as long as the bound, no
/// chunk of a non-empty file is empty, and the lengths of all chunks add up
/// to the file's size.
pub proof fn lemma_chunk_coverage(size: nat, bound: nat)
    requires
        bound > 0,
    ensures
        chunk_count(size, bound) >= 1,
        size == 0 ==> chunk_count(size, bound) == 1,
        forall|k: nat| k < chunk_count(size, bound) ==> chunk_length(size, bound, k) <= bound,
        forall|k: nat|
            k + 1 < chunk_count(size, bound) ==> #[trigger] chunk_length(size, bound, k) == bound,
        forall|k: nat|
            size > 0 && k < chunk_count(size, bound) ==> #[trigger] chunk_length(size, bound, k)
                > 0,
        covered(size, bound, chunk_count(size, bound)) == size,
{
    let n = chunk_count(size, bound);
    let q = size / bound;
    let r = size % bound;
    lemma_fundamental_div_mod(size as int, bound as int);
    assert(n >= 1) by (nonlinear_arith)
        requires
            size == bound * q + r,
            0 <= r < bound,
            bound > 0,
            n == if size == 0 {
                1
            } else if r == 0 {
                q
            } else {
                q + 1
            },
    ;
    lemma_chunk_bounds(size, bound, (n - 1) as nat);
    lemma_covered(size, bound, n);
    assert forall|k: nat| k + 1 < n implies #[trigger] chunk_length(size, bound, k) == bound by {
        lemma_chunk_bounds(size, bound, k + 1);
        assert((k + 1) * bound == k * bound + bound) by (nonlinear_arith);
    }
    assert forall|k: nat| size > 0 && k < n implies #[trigger] chunk_length(size, bound, k)
        > 0 by {
        lemma_chunk_bounds(size, bound, k);
    }
}

/// A file whose size is a multiple of the bound has exactly that many
/// chunks: none is added at the end.
pub proof fn lemma_exact_multiple(count: nat, bound: nat)
    requires
        bound > 0,
        count > 0,
    ensures
        chunk_count(count * bound, bound) == count,
{
    let size = count * bound;
    lemma_fundamental_div_mod(size as int, bound as int);
    let q = size / bound;
    let r = size % bound;
    assert(q == count && r == 0 && size > 0) by (nonlinear_arith)
        requires
            size == count * bound,
            size == bound * q + r,
            0 <= r < bound,
            bound > 0,
            count > 0,
    ;
}

/// The first `k` chunks of `data`, one after the other, are the beginning of
/// `data` that they cover.
pub proof fn lemma_joined(data: Seq<u8>, bound: nat, k: nat)
    requires
        bound > 0,
        k <= chunk_count(data.len(), bound),
    ensures
        joined(data, bound, k) == data.subrange(0, covered(data.len(), bound, k) as int),
    decreases k,
{
    lemma_covered(data.len(), bound, k);
    if k > 0 {
        let j = (k - 1) as nat;
        lemma_joined(data, bound, j);
        lemma_covered(data.len(), bound, j);
        lemma_chunk_bounds(data.len(), bound, j);
        assert(joined(data, bound, k) =~= data.subrange(
            0,
            covered(data.len(), bound, k) as int,
        ));
    } else {
        assert(joined(data, bound, k) =~= data.subrange(0, 0));
    }
}

/// Order preservation: the chunks of `data`, put one after the other in the
/// order of their numbers, are `data`, byte for byte. This holds of the
/// empty file and of a file whose size is a multiple of the bound as of any
/// other.
pub proof fn lemma_chunks_reassemble(data: Seq<u8>, bound: nat)
    requires
        bound > 0,
    ensures
        joined(data, bound, chunk_count(data.len(), bound)) == data,
{
    lemma_chunk_coverage(data.len(), bound);
    lemma_joined(data, bound, chunk_count(data.len(), bound));
    assert(data.subrange(0, data.len() as int) =~= data);
}

/// Counts the chunks of a file of `size` bytes cut at every `bound` bytes.
pub fn count_chunks(size: u64, bound: u64) -> (n: u64)
    requires
        bound > 0,
    ensures
        n == chunk_count(size as nat, bound as nat),
        n >= 1,
{
    proof {
        lemma_chunk_coverage(size as nat, bound as nat);
        lemma_fundamental_div_mod(size as int, bound as int);
    }
    if size == 0 {
        1
    } else if size % bound == 0 {
        size / bound
    } else {
        let q: u64 = size / bound;
        assert(q < u64::MAX) by (nonlinear_arith)
            requires
                size == bound * q + (size % bound),
                size % bound > 0,
                bound > 0,
                size <= u64::MAX,
        ;
        q + 1
    }
}

/// The window of the file that chunk `k` is: where it begins and how many
/// bytes it has.
pub fn chunk_window(size: u64, bound: u64, k: u64) -> (r: (u64, u64))
    requires
        bound > 0,
        k < chunk_count(size as nat, bound as nat),
    ensures
        r.0 == chunk_offset(bound as nat, k as nat),
        r.1 == chunk_length(size as nat, bound as nat, k as nat),
        r.0 + r.1 <= size,
{
    proof {
        lemma_chunk_bounds(size as nat, bound as nat, k as nat);
    }
    let start: u64 = k * bound;
    let left: u64 = size - start;
    if left >= bound {
        (start, bound)
    } else {
        (start, left)
    }
}

} // verus!
