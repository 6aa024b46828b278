use wasm_worker::{add, factorial, fibonacci, is_prime, simple_hash_bytes, simple_hash_string};

#[test]
fn add_matches_integer_addition() {
    assert_eq!(add(2, 3), 5);
    assert_eq!(add(-5, 3), -2);
    assert_eq!(add(i32::MAX, 0), i32::MAX);
    assert_eq!(add(i32::MIN, 0), i32::MIN);
    assert_eq!(add(i32::MAX, i32::MIN), -1);
    assert_eq!(add(1000000, 2000000), 3000000);
}

#[test]
fn factorial_of_zero_is_one() {
    assert_eq!(factorial(0), 1);
}

#[test]
fn factorial_matches_running_product() {
    let mut product: u64 = 1;
    assert_eq!(factorial(0), product);
    for n in 1..=20u32 {
        product *= n as u64;
        assert_eq!(factorial(n), product);
    }
    assert_eq!(factorial(20), 2432902008176640000);
}

#[test]
fn small_numbers_are_not_prime() {
    assert_eq!(is_prime(0), 0);
    assert_eq!(is_prime(1), 0);
}

#[test]
fn is_prime_agrees_with_sieve() {
    let limit: usize = 10_000;
    let mut sieve = vec![true; limit + 1];
    sieve[0] = false;
    sieve[1] = false;
    let mut i: usize = 2;
    while i * i <= limit {
        if sieve[i] {
            let mut j = i * i;
            while j <= limit {
                sieve[j] = false;
                j += i;
            }
        }
        i += 1;
    }
    for n in 0..=limit {
        let expected = if sieve[n] { 1 } else { 0 };
        assert_eq!(is_prime(n as u32), expected, "disagreement at {}", n);
    }
}

#[test]
fn fibonacci_base_cases() {
    assert_eq!(fibonacci(0), 0);
    assert_eq!(fibonacci(1), 1);
    assert_eq!(fibonacci(10), 55);
}

#[test]
fn fibonacci_satisfies_recurrence() {
    for n in 2..=40u32 {
        assert_eq!(fibonacci(n), fibonacci(n - 1) + fibonacci(n - 2));
    }
}

fn djb2_ref(bytes: &[u8]) -> u32 {
    let mut hash: u32 = 5381;
    for &b in bytes {
        hash = hash.wrapping_mul(33).wrapping_add(b as u32);
    }
    hash
}

#[test]
fn hash_matches_reference_djb2() {
    let cases: Vec<Vec<u8>> = vec![
        Vec::new(),
        b"a".to_vec(),
        b"cloudflare".to_vec(),
        b"hello world".to_vec(),
        vec![0u8, 255, 128, 7],
        b"The quick brown fox jumps over the lazy dog".to_vec(),
    ];
    for case in &cases {
        assert_eq!(simple_hash_bytes(case.as_slice()), djb2_ref(case.as_slice()));
    }
    assert_eq!(simple_hash_bytes(&[]), 5381);
    assert_eq!(simple_hash_bytes(b"cloudflare"), 2044937254);
}

#[test]
fn string_hash_uses_utf8_bytes() {
    assert_eq!(simple_hash_string("cloudflare"), 2044937254);
    let text = "caf\u{e9}";
    assert_eq!(simple_hash_string(text), djb2_ref(text.as_bytes()));
}
