use vstd::prelude::*;
use vstd::arithmetic::div_mod::{
    lemma_add_mod_noop, lemma_fundamental_div_mod, lemma_mod_multiples_basic, lemma_small_mod,
};
use vstd::arithmetic::power2::{lemma2_to64, lemma2_to64_rest, lemma_pow2_unfold, pow2};
use vstd::slice::slice_index_get;
use vstd::utf8::encode_utf8;

verus! {

// ---------------------------------------------------------------------------
// Addition
// ---------------------------------------------------------------------------

/// Signed 32-bit addition; callers guarantee the sum stays in range.
pub fn add(a: i32, b: i32) -> (r: i32)
    requires
        i32::MIN <= a + b <= i32::MAX,
    ensures
        r == a + b,
{
    a + b
}

// ---------------------------------------------------------------------------
// Factorial
// ---------------------------------------------------------------------------

/// `n!` as a mathematical function: the product of `1..=n`, with `0! == 1`.
pub open spec fn spec_factorial(n: nat) -> nat
    decreases n,
{
    if n == 0 {
        1
    } else {
        n * spec_factorial((n - 1) as nat)
    }
}

pub proof fn lemma_factorial_pos(n: nat)
    ensures
        spec_factorial(n) >= 1,
    decreases n,
{
    if n > 0 {
        lemma_factorial_pos((n - 1) as nat);
        assert(n * spec_factorial((n - 1) as nat) >= 1 * spec_factorial((n - 1) as nat))
            by (nonlinear_arith)
            requires n >= 1 && spec_factorial((n - 1) as nat) >= 1;
    }
}

pub proof fn lemma_factorial_mono(i: nat, j: nat)
    requires
        i <= j,
    ensures
        spec_factorial(i) <= spec_factorial(j),
    decreases j,
{
    if i < j {
        lemma_factorial_mono(i, (j - 1) as nat);
        lemma_factorial_pos((j - 1) as nat);
        assert(spec_factorial((j - 1) as nat) <= j * spec_factorial((j - 1) as nat))
            by (nonlinear_arith)
            requires j >= 1 && spec_factorial((j - 1) as nat) >= 1;
    }
}

/// The largest factorial the handlers ever compute, `20!`, fits a `u64`.
pub proof fn lemma_factorial_20()
    ensures
        spec_factorial(20) == 2432902008176640000,
{
    assert(spec_factorial(0) == 1);
    assert(spec_factorial(1) == 1);
    assert(spec_factorial(2) == 2);
    assert(spec_factorial(3) == 6);
    assert(spec_factorial(4) == 24);
    assert(spec_factorial(5) == 120);
    assert(spec_factorial(6) == 720);
    assert(spec_factorial(7) == 5040);
    assert(spec_factorial(8) == 40320);
    assert(spec_factorial(9) == 362880);
    assert(spec_factorial(10) == 3628800);
    assert(spec_factorial(11) == 39916800);
    assert(spec_factorial(12) == 479001600);
    assert(spec_factorial(13) == 6227020800);
    assert(spec_factorial(14) == 87178291200);
    assert(spec_factorial(15) == 1307674368000);
    assert(spec_factorial(16) == 20922789888000);
    assert(spec_factorial(17) == 355687428096000);
    assert(spec_factorial(18) == 6402373705728000);
    assert(spec_factorial(19) == 121645100408832000);
    assert(spec_factorial(20) == 2432902008176640000);
}

/// The factorial of zero is one: the empty product.
pub proof fn lemma_factorial_zero()
    ensures
        spec_factorial(0) == 1,
{
}

/// Factorial of `n`; the handler layer keeps `n` within `[0, 20]`, the largest
/// value whose factorial fits a `u64`.
pub fn factorial(n: u32) -> (r: u64)
    requires
        n <= 20,
    ensures
        r == spec_factorial(n as nat),
{
    let mut result: u64 = 1;
    let mut i: u32 = 0;
    while i < n
        invariant
            i <= n <= 20,
            result == spec_factorial(i as nat),
        decreases n - i,
    {
        let next = i + 1;
        proof {
            lemma_factorial_20();
            lemma_factorial_mono(next as nat, 20);
            assert(spec_factorial(next as nat) == next as nat * spec_factorial(i as nat));
            assert(result as int * next as int == spec_factorial(next as nat)) by (nonlinear_arith)
                requires
                    result == spec_factorial(i as nat),
                    spec_factorial(next as nat) == next as nat * spec_factorial(i as nat);
        }
        result = result * (next as u64);
        i = next;
    }
    result
}

// ---------------------------------------------------------------------------
// Fibonacci
// ---------------------------------------------------------------------------

/// The Fibonacci sequence: `F(0) == 0`, `F(1) == 1`, `F(n) == F(n-1) + F(n-2)`.
pub open spec fn spec_fibonacci(n: nat) -> nat
    decreases n,
{
    if n == 0 {
        0
    } else if n == 1 {
        1
    } else {
        spec_fibonacci((n - 1) as nat) + spec_fibonacci((n - 2) as nat)
    }
}

pub proof fn lemma_fibonacci_le_pow2(n: nat)
    ensures
        spec_fibonacci(n) <= pow2(n),
    decreases n,
{
    lemma2_to64();
    if n >= 2 {
        lemma_fibonacci_le_pow2((n - 1) as nat);
        lemma_fibonacci_le_pow2((n - 2) as nat);
        lemma_pow2_unfold(n);
        lemma_pow2_unfold((n - 1) as nat);
    }
}

/// The Fibonacci sequence starts at 0 and 1 and satisfies the two-term
/// recurrence everywhere above.
pub proof fn lemma_fibonacci_recurrence(n: nat)
    ensures
        spec_fibonacci(0) == 0,
        spec_fibonacci(1) == 1,
        n >= 2 ==> spec_fibonacci(n) == spec_fibonacci((n - 1) as nat) + spec_fibonacci(
            (n - 2) as nat,
        ),
{
}

/// The `n`-th Fibonacci number; the handler layer keeps `n` within `[0, 40]`.
pub fn fibonacci(n: u32) -> (r: u64)
    requires
        n <= 40,
    ensures
        r == spec_fibonacci(n as nat),
{
    if n == 0 {
        return 0;
    }
    let mut a: u64 = 0;
    let mut b: u64 = 1;
    let mut i: u32 = 1;
    while i < n
        invariant
            1 <= i <= n <= 40,
            a == spec_fibonacci((i - 1) as nat),
            b == spec_fibonacci(i as nat),
        decreases n - i,
    {
        proof {
            lemma_fibonacci_le_pow2((i + 1) as nat);
            lemma2_to64();
            lemma2_to64_rest();
            vstd::arithmetic::power2::lemma_pow2_strictly_increases(i as nat + 1, 41);
        }
        let temp = a + b;
        a = b;
        b = temp;
        i = i + 1;
    }
    b
}

// ---------------------------------------------------------------------------
// Primality
// ---------------------------------------------------------------------------

/// `n` is prime: at least 2, and no `d` in `[2, n)` divides it.
pub open spec fn spec_is_prime(n: nat) -> bool {
    n >= 2 && forall|d: nat| 2 <= d < n ==> #[trigger] (n % d) != 0
}

/// Nothing below two is prime.
pub proof fn lemma_small_not_prime(n: nat)
    requires
        n < 2,
    ensures
        !spec_is_prime(n),
{
}

/// An odd number has no even divisor.
proof fn lemma_even_divisor(n: nat, d: nat)
    requires
        d >= 2,
        d % 2 == 0,
        n % d == 0,
    ensures
        n % 2 == 0,
{
    lemma_fundamental_div_mod(n as int, d as int);
    let q = n as int / d as int;
    let h = d as int / 2;
    lemma_fundamental_div_mod(d as int, 2);
    assert(n == d * q);
    assert(d == 2 * h);
    assert(n == 2 * (h * q)) by (nonlinear_arith)
        requires n == d * q && d == 2 * h;
    lemma_mod_multiples_basic(h * q, 2);
}

/// If nothing up to the square root divides `n`, nothing below `n` does.
proof fn lemma_no_divisor_above_sqrt(n: nat, i: nat)
    requires
        n >= 2,
        i * i > n,
        forall|d: nat| 2 <= d < i ==> #[trigger] (n % d) != 0,
    ensures
        forall|d: nat| 2 <= d < n ==> #[trigger] (n % d) != 0,
{
    assert forall|d: nat| 2 <= d < n implies #[trigger] (n % d) != 0 by {
        if n % d == 0 && d >= i {
            assert(d * d > n) by (nonlinear_arith)
                requires d >= i && i * i > n;
            lemma_fundamental_div_mod(n as int, d as int);
            let e = n as int / d as int;
            assert(n == d * e);
            assert(e >= 1) by (nonlinear_arith)
                requires n >= 2 && d >= 2 && d < n && n == d * e;
            if e == 1 {
                assert(n == d) by (nonlinear_arith)
                    requires n == d * e && e == 1;
            } else {
                assert(e >= 2);
                assert(e < d) by (nonlinear_arith)
                    requires n == d * e && d * d > n && e >= 1 && d >= 2;
                assert(e * e < n) by (nonlinear_arith)
                    requires n == d * e && e < d && e >= 2;
                assert(e < i) by (nonlinear_arith)
                    requires e * e < n && i * i > n && e >= 2 && i >= 0;
                lemma_mod_multiples_basic(d as int, e);
                assert((d as int * e) % e == 0);
                assert(n as int % e == 0);
                assert(n % (e as nat) == 0);
            }
        }
    }
}

/// Primality test: returns 1 when `n` is prime, 0 otherwise.
pub fn is_prime(n: u32) -> (r: i32)
    ensures
        r == if spec_is_prime(n as nat) { 1int } else { 0int },
{
    if n < 2 {
        return 0;
    }
    if n == 2 {
        assert(spec_is_prime(2)) by {
            assert forall|d: nat| 2 <= d < 2 implies #[trigger] (2nat % d) != 0 by {}
        }
        return 1;
    }
    if n % 2 == 0 {
        assert(!spec_is_prime(n as nat)) by {
            assert(2 <= 2nat && 2nat < n as nat && n as nat % 2nat == 0);
        }
        return 0;
    }
    let mut i: u64 = 3;
    let nw = n as u64;
    while i <= nw / i
        invariant
            nw == n,
            n >= 3,
            n % 2 == 1,
            i >= 3,
            i % 2 == 1,
            forall|d: nat| 2 <= d < i ==> #[trigger] (n as nat % d) != 0,
        decreases nw - i,
    {
        proof {
            lemma_fundamental_div_mod(nw as int, i as int);
            assert(i * i <= nw) by (nonlinear_arith)
                requires
                    i <= nw / i,
                    nw == i * (nw / i) + (nw % i),
                    0 <= nw % i,
                    i >= 3;
            assert(i < nw) by (nonlinear_arith)
                requires i * i <= nw && i >= 3 && nw >= 3;
        }
        if nw % i == 0 {
            assert(!spec_is_prime(n as nat)) by {
                assert(2 <= i as nat && (i as nat) < n as nat && n as nat % (i as nat) == 0);
            }
            return 0;
        }
        proof {
            assert forall|d: nat| 2 <= d < i + 2 implies #[trigger] (n as nat % d) != 0 by {
                if d == i + 1 {
                    if n as nat % d == 0 {
                        lemma_even_divisor(n as nat, d);
                    }
                }
            }
        }
        i = i + 2;
    }
    proof {
        lemma_fundamental_div_mod(nw as int, i as int);
        assert(i * i > nw) by (nonlinear_arith)
            requires
                !(i <= nw / i),
                nw == i * (nw / i) + (nw % i),
                nw % i < i,
                0 <= nw % i,
                nw >= 3,
                i >= 3;
        lemma_no_divisor_above_sqrt(n as nat, i as nat);
    }
    1
}

// ---------------------------------------------------------------------------
// djb2 hash
// ---------------------------------------------------------------------------

/// The djb2 hash of a byte sequence: seed 5381, then
/// `hash := hash * 33 + byte` with wrapping 32-bit arithmetic.
pub open spec fn spec_djb2(s: Seq<u8>) -> u32
    decreases s.len(),
{
    if s.len() == 0 {
        5381
    } else {
        ((spec_djb2(s.drop_last()) * 33 + s.last()) % 0x1_0000_0000) as u32
    }
}

/// The djb2 hash of the UTF-8 encoding of a character sequence.
pub open spec fn spec_djb2_str(s: Seq<char>) -> u32 {
    spec_djb2(encode_utf8(s))
}

/// One wrapping djb2 step equals the mathematical step taken modulo `2^32`.
proof fn lemma_djb2_step(h: u32, b: u8)
    ensures
        vstd::wrapping::u32_specs::wrapping_add(
            vstd::wrapping::u32_specs::wrapping_mul(h, 33),
            b as u32,
        ) == ((h * 33 + b) % 0x1_0000_0000) as u32,
{
    let m: int = 0x1_0000_0000;
    let p = vstd::wrapping::u32_specs::wrapping_mul(h, 33);
    assert(p == (h as nat * 33) % (m as nat));
    lemma_add_mod_noop(h as int * 33, b as int, m);
    assert(b as int % m == b as int) by {
        lemma_small_mod(b as nat, m as nat);
    }
    let t = p as int + b as int;
    if t <= u32::MAX {
        lemma_small_mod(t as nat, m as nat);
    } else {
        lemma_small_mod((t - m) as nat, m as nat);
        assert((t - m) % m == t % m) by {
            vstd::arithmetic::div_mod::lemma_mod_sub_multiples_vanish(t, m);
        }
    }
}

/// The djb2 hash of a byte slice.
pub fn simple_hash_bytes(input: &[u8]) -> (r: u32)
    ensures
        r == spec_djb2(input@),
{
    let mut hash: u32 = 5381;
    let mut i: usize = 0;
    let len = input.len();
    while i < len
        invariant
            len == input@.len(),
            i <= len,
            hash == spec_djb2(input@.subrange(0, i as int)),
        decreases len - i,
    {
        let byte = *slice_index_get(input, i);
        proof {
            lemma_djb2_step(hash, byte);
            assert(input@.subrange(0, i + 1).drop_last() =~= input@.subrange(0, i as int));
            assert(input@.subrange(0, i + 1).last() == input@[i as int]);
        }
        hash = hash.wrapping_mul(33).wrapping_add(byte as u32);
        i = i + 1;
    }
    proof {
        assert(input@.subrange(0, len as int) =~= input@);
    }
    hash
}

/// The djb2 hash of the UTF-8 bytes of a string.
pub fn simple_hash_string(input: &str) -> (r: u32)
    ensures
        r == spec_djb2_str(input@),
{
    let bytes = input.as_bytes_vec();
    simple_hash_bytes(bytes.as_slice())
}

} // verus!
