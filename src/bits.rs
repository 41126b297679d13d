//! The mathematical model of a 64-bit voxel column: one boolean per height,
//! and the number of set heights.
use vstd::prelude::*;

verus! {

/// Height `j` of column `w` is set.
pub open spec fn bit(w: u64, j: u64) -> bool {
    j < 64 && (w >> j) & 1u64 == 1u64
}

/// Number of set heights of `w` strictly below `k`.
pub open spec fn count_below(w: u64, k: nat) -> nat
    decreases k,
{
    if k == 0 {
        0
    } else {
        count_below(w, (k - 1) as nat) + if bit(w, (k - 1) as u64) {
            1nat
        } else {
            0nat
        }
    }
}

/// Number of set heights of `w`.
pub open spec fn popcount(w: u64) -> nat {
    count_below(w, 64)
}

/// A height of `a & b` is set where it is set in both.
pub proof fn lemma_bit_and(a: u64, b: u64, j: u64)
    requires
        j < 64,
    ensures
        bit(a & b, j) == (bit(a, j) && bit(b, j)),
{
    assert(((a & b) >> j) & 1u64 == 1u64 <==> ((a >> j) & 1u64 == 1u64 && (b >> j) & 1u64
        == 1u64)) by (bit_vector)
        requires
            j < 64,
    ;
}

/// A height of `a | b` is set where it is set in either.
pub proof fn lemma_bit_or(a: u64, b: u64, j: u64)
    requires
        j < 64,
    ensures
        bit(a | b, j) == (bit(a, j) || bit(b, j)),
{
    assert(((a | b) >> j) & 1u64 == 1u64 <==> ((a >> j) & 1u64 == 1u64 || (b >> j) & 1u64
        == 1u64)) by (bit_vector)
        requires
            j < 64,
    ;
}

/// A height of `!a` is set where it is empty in `a`.
pub proof fn lemma_bit_not(a: u64, j: u64)
    requires
        j < 64,
    ensures
        bit(!a, j) == !bit(a, j),
{
    assert(((!a) >> j) & 1u64 == 1u64 <==> !((a >> j) & 1u64 == 1u64)) by (bit_vector)
        requires
            j < 64,
    ;
}

/// The column `1 << p` has height `p` set and no other.
pub proof fn lemma_bit_single(p: u64, j: u64)
    requires
        p < 64,
        j < 64,
    ensures
        bit(1u64 << p, j) == (j == p),
{
    assert(((1u64 << p) >> j) & 1u64 == 1u64 <==> j == p) by (bit_vector)
        requires
            p < 64,
            j < 64,
    ;
}

/// The empty column has no height set.
pub proof fn lemma_bit_zero(j: u64)
    requires
        j < 64,
    ensures
        !bit(0u64, j),
{
    assert((0u64 >> j) & 1u64 != 1u64) by (bit_vector);
}

/// The full column has every height set.
pub proof fn lemma_bit_max(j: u64)
    requires
        j < 64,
    ensures
        bit(0xffff_ffff_ffff_ffffu64, j),
{
    assert((0xffff_ffff_ffff_ffffu64 >> j) & 1u64 == 1u64) by (bit_vector)
        requires
            j < 64,
    ;
}

/// The low bit of a shifted column is 0 or 1.
proof fn lemma_bit_cases(a: u64, j: u64)
    ensures
        bit(a, j) ==> (a >> j) & 1u64 == 1u64,
        j < 64 && !bit(a, j) ==> (a >> j) & 1u64 == 0u64,
{
    assert((a >> j) & 1u64 == 1u64 || (a >> j) & 1u64 == 0u64) by (bit_vector);
}

/// Two columns that agree on the heights from `k` up agree once shifted down by `k`.
proof fn lemma_shift_ext(a: u64, b: u64, k: u64)
    requires
        k < 64,
        forall|j: u64| k <= j < 64 ==> bit(a, j) == bit(b, j),
    ensures
        a >> k == b >> k,
    decreases 64 - k,
{
    lemma_bit_cases(a, k);
    lemma_bit_cases(b, k);
    assert(bit(a, k) == bit(b, k));
    if k == 63 {
        assert(a >> 63u64 == (a >> 63u64) & 1u64 && b >> 63u64 == (b >> 63u64) & 1u64)
            by (bit_vector);
    } else {
        let k1 = (k + 1) as u64;
        lemma_shift_ext(a, b, k1);
        assert(a >> k == b >> k) by (bit_vector)
            requires
                k < 63,
                k1 == k + 1,
                a >> k1 == b >> k1,
                (a >> k) & 1u64 == (b >> k) & 1u64,
        ;
    }
}

/// Two columns that agree on every height are equal.
pub proof fn lemma_bit_ext(a: u64, b: u64)
    requires
        forall|j: u64| j < 64 ==> bit(a, j) == bit(b, j),
    ensures
        a == b,
{
    lemma_shift_ext(a, b, 0);
    assert(a >> 0u64 == a && b >> 0u64 == b) by (bit_vector);
}

/// Counting below `k` only looks at heights below `k`.
pub proof fn lemma_count_ext(a: u64, b: u64, k: nat)
    requires
        k <= 64,
        forall|j: u64| j < k ==> bit(a, j) == bit(b, j),
    ensures
        count_below(a, k) == count_below(b, k),
    decreases k,
{
    if k > 0 {
        lemma_count_ext(a, b, (k - 1) as nat);
        assert(bit(a, (k - 1) as u64) == bit(b, (k - 1) as u64));
    }
}

/// Where `c` holds exactly the heights of `a` and those of `b`, and no height is in
/// both, the counts add up.
pub proof fn lemma_count_split(a: u64, b: u64, c: u64, k: nat)
    requires
        k <= 64,
        forall|j: u64|
            j < k ==> bit(c, j) == (bit(a, j) || bit(b, j)) && !(bit(a, j) && bit(b, j)),
    ensures
        count_below(c, k) == count_below(a, k) + count_below(b, k),
    decreases k,
{
    if k > 0 {
        lemma_count_split(a, b, c, (k - 1) as nat);
        assert(bit(c, (k - 1) as u64) == (bit(a, (k - 1) as u64) || bit(b, (k - 1) as u64)));
    }
}

/// At most `k` heights lie below `k`.
pub proof fn lemma_count_bounded(w: u64, k: nat)
    ensures
        count_below(w, k) <= k,
    decreases k,
{
    if k > 0 {
        lemma_count_bounded(w, (k - 1) as nat);
    }
}

/// Moving the heights `f` from `src` onto `dst`, where `f` lies within `src` and
/// `dst` has none of them, keeps the total count.
pub proof fn lemma_move_keeps_count(src: u64, dst: u64, f: u64)
    requires
        f & !src == 0,
        f & dst == 0,
    ensures
        popcount(src & !f) + popcount(dst | f) == popcount(src) + popcount(dst),
{
    assert forall|j: u64| j < 64 implies bit(src, j) == (bit(src & !f, j) || bit(f, j)) && !(bit(
        src & !f,
        j,
    ) && bit(f, j)) by {
        lemma_bit_and(src, !f, j);
        lemma_bit_not(f, j);
        lemma_bit_and(f, !src, j);
        lemma_bit_not(src, j);
        lemma_bit_zero(j);
    }
    lemma_count_split(src & !f, f, src, 64);
    assert forall|j: u64| j < 64 implies bit(dst | f, j) == (bit(dst, j) || bit(f, j)) && !(bit(
        dst,
        j,
    ) && bit(f, j)) by {
        lemma_bit_or(dst, f, j);
        lemma_bit_and(f, dst, j);
        lemma_bit_zero(j);
    }
    lemma_count_split(dst, f, dst | f, 64);
}

/// Testing a height with a one-bit mask.
pub proof fn lemma_test_bit(w: u64, p: u64)
    requires
        p < 64,
    ensures
        (w & (1u64 << p) != 0) == bit(w, p),
{
    assert((w & (1u64 << p) != 0u64) == ((w >> p) & 1u64 == 1u64)) by (bit_vector)
        requires
            p < 64,
    ;
}

/// Counting below `k` and below `n` agree where no height in between is set.
pub proof fn lemma_count_high_clear(w: u64, k: nat, n: nat)
    requires
        k <= n <= 64,
        forall|j: u64| k <= j < n ==> !bit(w, j),
    ensures
        count_below(w, n) == count_below(w, k),
    decreases n,
{
    if n > k {
        lemma_count_high_clear(w, k, (n - 1) as nat);
    }
}

/// A one-bit column counts one.
pub proof fn lemma_count_single(p: u64, k: nat)
    requires
        p < 64,
        k <= 64,
    ensures
        count_below(1u64 << p, k) == if p < k {
            1nat
        } else {
            0nat
        },
    decreases k,
{
    if k > 0 {
        lemma_count_single(p, (k - 1) as nat);
        lemma_bit_single(p, (k - 1) as u64);
    }
}

/// Setting a height that was empty adds one to the count.
pub proof fn lemma_count_add_bit(a: u64, p: u64)
    requires
        p < 64,
        !bit(a, p),
    ensures
        popcount(a | (1u64 << p)) == popcount(a) + 1,
{
    assert forall|j: u64| j < 64 implies bit(a | (1u64 << p), j) == (bit(a, j) || bit(
        1u64 << p,
        j,
    )) && !(bit(a, j) && bit(1u64 << p, j)) by {
        lemma_bit_or(a, 1u64 << p, j);
        lemma_bit_single(p, j);
    }
    lemma_count_split(a, 1u64 << p, a | (1u64 << p), 64);
    lemma_count_single(p, 64);
}

} // verus!
