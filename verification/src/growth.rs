//! The growth policy of the buffer: a fresh buffer gets exactly one slot,
//! any other doubles, and a doubling is refused once the slot count passes
//! half the maximum signed address span.

use vstd::arithmetic::power2::lemma2_to64;
use vstd::arithmetic::power2::lemma_pow2_strictly_increases;
use vstd::arithmetic::power2::lemma_pow2_unfold;
use vstd::arithmetic::power2::pow2;
use vstd::prelude::*;

verus! {

/// Capacity a full buffer jumps to when it grows: one slot from empty,
/// otherwise exactly double.
pub open spec fn next_cap(cap: nat) -> nat {
    if cap == 0 {
        1
    } else {
        2 * cap
    }
}

/// Largest slot count a buffer may hold before another doubling would risk
/// overflowing the capacity computation: half the maximum signed address
/// span, checked before the doubling multiply.
pub open spec fn grow_limit() -> nat {
    (isize::MAX / 2) as nat
}

/// The capacity a container has after exactly `k` pushes into a fresh,
/// empty one, with no intervening pop: each push leaves the capacity alone
/// unless the container is full, in which case it takes one `next_cap`
/// step. This recurrence restates the capacity clause of `push`'s contract,
/// with the length after `j` pushes being exactly `j`.
pub open spec fn cap_after_pushes(k: nat) -> nat
    decreases k,
{
    if k == 0 {
        0
    } else {
        let prev = cap_after_pushes((k - 1) as nat);
        if k - 1 == prev {
            next_cap(prev)
        } else {
            prev
        }
    }
}

/// Growth-doubling law: no pushes leave the capacity at zero, and after
/// `k >= 1` pushes into a fresh container the capacity is a power of two
/// that is at least `k` and below `2 * k`.
pub proof fn lemma_growth_doubling(k: nat)
    ensures
        cap_after_pushes(0) == 0,
        k >= 1 ==> k <= cap_after_pushes(k) < 2 * k,
        k >= 1 ==> exists|e: nat| cap_after_pushes(k) == pow2(e),
    decreases k,
{
    if k == 1 {
        lemma2_to64();
        assert(cap_after_pushes(0) == 0);
        assert(cap_after_pushes(1) == next_cap(0));
        assert(cap_after_pushes(1) == pow2(0));
    } else if k >= 2 {
        lemma_growth_doubling((k - 1) as nat);
        let prev = cap_after_pushes((k - 1) as nat);
        let e = choose|e: nat| prev == pow2(e);
        if k - 1 == prev {
            lemma_pow2_unfold(e + 1);
            assert(cap_after_pushes(k) == pow2(e + 1));
        } else {
            assert(cap_after_pushes(k) == pow2(e));
        }
    }
}

/// The capacity after `k >= 1` pushes is the smallest power of two that
/// reaches `k`: any power of two at least `k` is at least that capacity.
pub proof fn lemma_growth_doubling_minimal(k: nat, e: nat)
    requires
        k >= 1,
        pow2(e) >= k,
    ensures
        pow2(e) >= cap_after_pushes(k),
{
    lemma_growth_doubling(k);
    let n = choose|n: nat| cap_after_pushes(k) == pow2(n);
    if n > e {
        lemma_pow2_strictly_increases(e, n);
        lemma_pow2_unfold(n);
        lemma_pow2_strictly_increases((n - 1) as nat, n);
        if e < n - 1 {
            lemma_pow2_strictly_increases(e, (n - 1) as nat);
        }
        assert(pow2(n) >= 2 * pow2(e));
        assert(cap_after_pushes(k) >= 2 * k);
        assert(false);
    } else if n < e {
        lemma_pow2_strictly_increases(n, e);
    }
}

} // verus!
