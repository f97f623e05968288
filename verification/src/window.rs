use vstd::prelude::*;

verus! {

/// Two to the power `k`.
pub open spec fn two_to(k: nat) -> nat
    decreases k,
{
    if k == 0 {
        1
    } else {
        2 * two_to((k - 1) as nat)
    }
}

/// The least `k` with `n <= 2^k`.
pub open spec fn ceil_log2(n: nat) -> nat
    decreases n,
{
    if n <= 1 {
        0
    } else {
        1 + ceil_log2((n + 1) / 2)
    }
}

/// The window that fixed-base multiplication uses for `n` scalars: three
/// for fewer than 32, else 69 hundredths of the rounded-up binary logarithm
/// of their number, which stands for its natural logarithm.
pub open spec fn mul_window_size(n: nat) -> nat {
    if n < 32 {
        3
    } else {
        ceil_log2(n) * 69 / 100
    }
}

/// Powers of two are positive and grow with the exponent.
proof fn lemma_two_to(j: nat, k: nat)
    requires
        j <= k,
    ensures
        1 <= two_to(j) <= two_to(k),
    decreases k,
{
    if j < k {
        lemma_two_to(j, (k - 1) as nat);
    } else if k > 0 {
        lemma_two_to((j - 1) as nat, (k - 1) as nat);
    }
}

/// The least exponent whose power of two reaches `n` is the rounded-up
/// binary logarithm of `n`.
proof fn lemma_ceil_log2(n: nat, k: nat)
    requires
        n <= two_to(k),
        k == 0 || two_to((k - 1) as nat) < n,
    ensures
        ceil_log2(n) == k,
    decreases k,
{
    lemma_two_to(0, k);
    if n <= 1 {
        if k > 0 {
            lemma_two_to(0, (k - 1) as nat);
        }
    } else {
        assert(k >= 1);
        if k >= 2 {
            lemma_two_to(0, (k - 2) as nat);
        }
        lemma_ceil_log2((n + 1) / 2, (k - 1) as nat);
    }
}

/// Two to the power 4, 32 and 64.
proof fn lemma_two_to_values()
    ensures
        two_to(4) == 16,
        two_to(32) == 0x1_0000_0000,
        two_to(64) == 0x1_0000_0000_0000_0000,
{
    reveal_with_fuel(two_to, 9);
    assert(two_to(8) == 0x100);
    assert(two_to(16) == 0x1_0000);
    assert(two_to(24) == 0x100_0000);
    assert(two_to(32) == 0x1_0000_0000);
    assert(two_to(40) == 0x100_0000_0000);
    assert(two_to(48) == 0x1_0000_0000_0000);
    assert(two_to(56) == 0x100_0000_0000_0000);
    assert(two_to(64) == 0x1_0000_0000_0000_0000);
}

/// The rounded-up binary logarithm of `x`: zero for zero.
pub fn log2(x: usize) -> (r: u32)
    ensures
        r == ceil_log2(x as nat),
        r <= usize::BITS,
        x >= 32 ==> r >= 5,
{
    let mut k: u32 = 0;
    let mut p: u128 = 1;
    proof {
        lemma_two_to_values();
    }
    while p < x as u128
        invariant
            p == two_to(k as nat),
            k == 0 || two_to((k - 1) as nat) < x,
            k <= usize::BITS,
            two_to(32) == 0x1_0000_0000,
            two_to(64) == 0x1_0000_0000_0000_0000,
        decreases usize::BITS - k,
    {
        proof {
            if k >= usize::BITS {
                lemma_two_to(usize::BITS as nat, k as nat);
            }
            lemma_two_to(k as nat, 64);
        }
        p = p * 2;
        k = k + 1;
    }
    proof {
        lemma_ceil_log2(x as nat, k as nat);
        if x >= 32 && k < 5 {
            lemma_two_to_values();
            lemma_two_to(k as nat, 4);
        }
    }
    k
}

/// An estimate of the natural logarithm without floating point: 69
/// hundredths of the rounded-up binary logarithm.
fn ln_without_floats(a: usize) -> (r: usize)
    ensures
        r == ceil_log2(a as nat) * 69 / 100,
        r < usize::BITS,
        a >= 32 ==> r >= 3,
{
    let l: u32 = log2(a);
    (l * 69 / 100) as usize
}

/// The window that fixed-base multiplication uses for `num_scalars`
/// scalars.
pub fn get_mul_window_size(num_scalars: usize) -> (w: usize)
    ensures
        w == mul_window_size(num_scalars as nat),
        3 <= w < usize::BITS,
{
    if num_scalars < 32 {
        3
    } else {
        ln_without_floats(num_scalars)
    }
}

} // verus!
