use vstd::prelude::*;
use vstd::arithmetic::div_mod::{lemma_fundamental_div_mod, lemma_fundamental_div_mod_converse, lemma_mod_bound};
use vstd::arithmetic::power2::{pow2, lemma_pow2_unfold, lemma2_to64};

verus! {

/// The remainder of Rust's `%`: the sign follows the dividend.
pub open spec fn trunc_rem(a: int, b: int) -> int {
    if a == 0 {
        0
    } else if a > 0 && b > 0 {
        a % b
    } else if a < 0 && b < 0 {
        ((a * -1) % (b * -1)) * -1
    } else if a < 0 {
        ((a * -1) % b) * -1
    } else {
        a % (b * -1)
    }
}

/// Where `wrap` puts `value` for a positive modulus: the remainder in `0..modulus`;
/// for a negative one, the remainder in `modulus + 1..=0`.
pub open spec fn wrapped(value: int, modulus: int) -> int {
    if modulus > 0 {
        value % modulus
    } else {
        -((-value) % (-modulus))
    }
}

/// Taking the remainder twice, with the modulus added between, lands in the modulus'
/// range.
proof fn lemma_wrap(v: int, m: int)
    requires
        m != 0,
    ensures
        trunc_rem(trunc_rem(v, m) + m, m) == wrapped(v, m),
{
    let n = if m > 0 {
        m
    } else {
        -m
    };
    let a = if v >= 0 {
        v
    } else {
        -v
    };
    lemma_mod_bound(a, n);
    lemma_fundamental_div_mod(a, n);
    let q = a / n;
    let r0 = a % n;
    let t = trunc_rem(v, m);
    assert(t == if v >= 0 {
        r0
    } else {
        -r0
    }) by {
        assert(n * -1 == -n);
        if v == 0 {
            lemma_fundamental_div_mod_converse(0, n, 0, 0);
        }
    }
    if m > 0 {
        let s = t + m;
        if v >= 0 {
            lemma_fundamental_div_mod_converse(s, m, 1, r0);
            assert(s % m == r0);
            assert(trunc_rem(s, m) == r0);
        } else {
            if r0 == 0 {
                lemma_fundamental_div_mod_converse(s, m, 1, 0);
                assert(v == (-q) * m + 0) by (nonlinear_arith)
                    requires
                        -v == n * q,
                        n == m,
                ;
                lemma_fundamental_div_mod_converse(v, m, -q, 0);
            } else {
                lemma_fundamental_div_mod_converse(s, m, 0, m - r0);
                assert(v == (-q - 1) * m + (m - r0)) by (nonlinear_arith)
                    requires
                        -v == n * q + r0,
                        n == m,
                ;
                lemma_fundamental_div_mod_converse(v, m, -q - 1, m - r0);
            }
        }
    } else {
        let s = t + m;
        if v <= 0 {
            assert(-s == n + r0);
            lemma_fundamental_div_mod_converse(n + r0, n, 1, r0);
            assert(trunc_rem(s, m) == -r0);
            assert(-v == a);
        } else {
            if r0 == 0 {
                assert(-s == n);
                lemma_fundamental_div_mod_converse(n, n, 1, 0);
                assert(-v == (-q) * n + 0) by (nonlinear_arith)
                    requires
                        v == n * q,
                ;
                lemma_fundamental_div_mod_converse(-v, n, -q, 0);
            } else {
                assert(-s == n - r0);
                lemma_fundamental_div_mod_converse(n - r0, n, 0, n - r0);
                assert(-v == (-q - 1) * n + (n - r0)) by (nonlinear_arith)
                    requires
                        v == n * q + r0,
                ;
                lemma_fundamental_div_mod_converse(-v, n, -q - 1, n - r0);
            }
        }
    }
}

/// For a positive modulus, Rust's remainder lies strictly between `-n` and `n`, and
/// adding `n` to a negative one gives the Euclidean remainder.
pub proof fn lemma_trunc_rem_floor(v: int, n: int)
    requires
        n > 0,
    ensures
        -n < trunc_rem(v, n) < n,
        (if trunc_rem(v, n) < 0 {
            trunc_rem(v, n) + n
        } else {
            trunc_rem(v, n)
        }) == v % n,
{
    if v >= 0 {
        lemma_mod_bound(v, n);
        if v == 0 {
            lemma_fundamental_div_mod_converse(0, n, 0, 0);
        }
    } else {
        let a = -v;
        lemma_mod_bound(a, n);
        lemma_fundamental_div_mod(a, n);
        let q = a / n;
        let r0 = a % n;
        assert(a * -1 == -a);
        assert(trunc_rem(v, n) == -r0);
        if r0 == 0 {
            assert(v == (-q) * n + 0) by (nonlinear_arith)
                requires
                    a == n * q,
                    v == -a,
            ;
            lemma_fundamental_div_mod_converse(v, n, -q, 0);
        } else {
            assert(v == (-q - 1) * n + (n - r0)) by (nonlinear_arith)
                requires
                    a == n * q + r0,
                    v == -a,
            ;
            lemma_fundamental_div_mod_converse(v, n, -q - 1, n - r0);
        }
    }
}

/// Wraps a value into the range from 0 to `modulus`, correctly handling negative
/// numbers: `0..modulus` for a positive modulus, `modulus + 1..=0` for a negative one.
pub fn wrap(value: i32, modulus: i32) -> (r: i32)
    requires
        modulus != 0,
        !(value == i32::MIN && modulus == -1),
        i32::MIN <= trunc_rem(value as int, modulus as int) + modulus <= i32::MAX,
    ensures
        r == wrapped(value as int, modulus as int),
{
    proof {
        lemma_wrap(value as int, modulus as int);
    }
    let t = match value.checked_rem(modulus) {
        Some(t) => t,
        None => {
            proof {
                assert(false);
            }
            0
        },
    };
    let s = t + modulus;
    match s.checked_rem(modulus) {
        Some(r) => r,
        None => {
            proof {
                assert(false);
            }
            0
        },
    }
}

/// `p` is the smallest power of two that is at least `n`.
pub open spec fn is_next_power_of_two(n: int, p: int) -> bool {
    exists|k: nat|
        #![trigger pow2(k)]
        p == pow2(k) && n <= p && (k == 0 || pow2((k - 1) as nat) < n)
}

/// `p` is the largest power of two that is at most `n`.
pub open spec fn is_prev_power_of_two(n: int, p: int) -> bool {
    exists|k: nat| #![trigger pow2(k)] p == pow2(k) && p <= n < 2 * p
}

/// The smallest power of two that is at least `n` (1 for 0). Where that power does not
/// fit a `u32` (for `n` above 2^31) the result is `u32::MAX`, as the checked build of
/// the bit-smearing computation gives.
pub fn next_power_of_two(n: u32) -> (r: u32)
    ensures
        n == 0 ==> r == 1,
        0 < n <= 0x8000_0000 ==> is_next_power_of_two(n as int, r as int),
        n > 0x8000_0000 ==> r == u32::MAX,
{
    proof {
        lemma2_to64();
    }
    if n == 0 {
        return 1;
    }
    let mut p: u32 = 1;
    let ghost mut k: nat = 0;
    while p < n && p < 0x8000_0000
        invariant
            p == pow2(k),
            k <= 31,
            k == 0 || pow2((k - 1) as nat) < n,
            n > 0,
        decreases 32 - k,
    {
        proof {
            lemma2_to64();
            lemma_pow2_unfold(k + 1);
        }
        p = p * 2;
        proof {
            k = k + 1;
        }
    }
    if p < n {
        proof {
            assert(p == 0x8000_0000) by {
                if k < 31 {
                    assert(pow2(k) < 0x8000_0000);
                }
            }
        }
        u32::MAX
    } else {
        proof {
            assert(is_next_power_of_two(n as int, p as int));
        }
        p
    }
}

/// The largest power of two that is at most `n` (1 for 0 and 1).
pub fn prev_power_of_two(n: u32) -> (r: u32)
    ensures
        n <= 1 ==> r == 1,
        n >= 1 ==> is_prev_power_of_two(n as int, r as int),
{
    proof {
        lemma2_to64();
    }
    if n <= 1 {
        proof {
            if n == 1 {
                assert(pow2(0) == 1);
            }
        }
        return 1;
    }
    let mut p: u32 = 1;
    let ghost mut k: nat = 0;
    while p <= n / 2
        invariant
            p == pow2(k),
            p <= n,
            k <= 31,
        decreases 32 - k,
    {
        proof {
            lemma2_to64();
            lemma_pow2_unfold(k + 1);
        }
        p = p * 2;
        proof {
            k = k + 1;
        }
    }
    proof {
        assert(is_prev_power_of_two(n as int, p as int));
    }
    p
}

} // verus!
