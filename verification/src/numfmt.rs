use vstd::prelude::*;

verus! {

// ---------------------------------------------------------------------------
// Decimal formatting
// ---------------------------------------------------------------------------

/// The decimal digit character for `d` in `[0, 9]`.
pub open spec fn dec_digit(d: int) -> char {
    if d == 0 {
        '0'
    } else if d == 1 {
        '1'
    } else if d == 2 {
        '2'
    } else if d == 3 {
        '3'
    } else if d == 4 {
        '4'
    } else if d == 5 {
        '5'
    } else if d == 6 {
        '6'
    } else if d == 7 {
        '7'
    } else if d == 8 {
        '8'
    } else {
        '9'
    }
}

/// Decimal digits of `n`, most significant first; a single `'0'` for zero.
pub open spec fn spec_dec_u64(n: nat) -> Seq<char>
    decreases n,
{
    if n < 10 {
        seq![dec_digit(n as int)]
    } else {
        spec_dec_u64(n / 10).push(dec_digit((n % 10) as int))
    }
}

/// Decimal text of an integer: a leading `'-'` for negative values, then digits.
pub open spec fn spec_dec_int(n: int) -> Seq<char> {
    if n < 0 {
        seq!['-'] + spec_dec_u64((-n) as nat)
    } else {
        spec_dec_u64(n as nat)
    }
}

fn dec_digit_exec(d: u64) -> (c: char)
    requires
        d < 10,
    ensures
        c == dec_digit(d as int),
{
    if d == 0 {
        '0'
    } else if d == 1 {
        '1'
    } else if d == 2 {
        '2'
    } else if d == 3 {
        '3'
    } else if d == 4 {
        '4'
    } else if d == 5 {
        '5'
    } else if d == 6 {
        '6'
    } else if d == 7 {
        '7'
    } else if d == 8 {
        '8'
    } else {
        '9'
    }
}

/// Appends the decimal digits of `n` to `out`.
pub fn push_dec_u64(n: u64, out: &mut Vec<char>)
    ensures
        final(out)@ == old(out)@ + spec_dec_u64(n as nat),
    decreases n,
{
    if n < 10 {
        out.push(dec_digit_exec(n));
        proof {
            assert(out@ =~= old(out)@ + spec_dec_u64(n as nat));
        }
    } else {
        push_dec_u64(n / 10, out);
        out.push(dec_digit_exec(n % 10));
        proof {
            assert(out@ =~= old(out)@ + spec_dec_u64(n as nat));
        }
    }
}

/// Appends the decimal text of `n`, with a leading `'-'` when negative, to `out`.
pub fn push_dec_i64(n: i64, out: &mut Vec<char>)
    ensures
        final(out)@ == old(out)@ + spec_dec_int(n as int),
{
    if n < 0 {
        out.push('-');
        let mag: u64 = (-(n as i128)) as u64;
        push_dec_u64(mag, out);
        proof {
            assert(out@ =~= old(out)@ + spec_dec_int(n as int));
        }
    } else {
        push_dec_u64(n as u64, out);
    }
}

// ---------------------------------------------------------------------------
// Decimal parsing
// ---------------------------------------------------------------------------

/// `c` is an ASCII decimal digit.
pub open spec fn is_digit(c: char) -> bool {
    '0' as int <= c as int <= '9' as int
}

/// Numeric value of a digit character.
pub open spec fn digit_val(c: char) -> int {
    c as int - '0' as int
}

/// Every character of `s` is a decimal digit.
pub open spec fn all_digits(s: Seq<char>) -> bool {
    forall|i: int| 0 <= i < s.len() ==> is_digit(#[trigger] s[i])
}

/// Numeric value of a digit string, most significant digit first.
pub open spec fn dec_val(s: Seq<char>) -> int
    decreases s.len(),
{
    if s.len() == 0 {
        0
    } else {
        dec_val(s.drop_last()) * 10 + digit_val(s.last())
    }
}

/// The result of parsing `s` as a signed decimal `i32`, exactly as
/// `str::parse::<i32>` accepts it: an optional single `+` or `-`, then one
/// or more digits, with the value in `i32` range.
pub open spec fn spec_parse_i32(s: Seq<char>) -> Option<i32> {
    let signed = s.len() > 0 && (s[0] == '+' || s[0] == '-');
    let digits = if signed {
        s.subrange(1, s.len() as int)
    } else {
        s
    };
    let sign: int = if s.len() > 0 && s[0] == '-' {
        -1
    } else {
        1
    };
    if digits.len() == 0 || !all_digits(digits) {
        None
    } else {
        let v = sign * dec_val(digits);
        if i32::MIN <= v <= i32::MAX {
            Some(v as i32)
        } else {
            None
        }
    }
}

pub proof fn lemma_dec_val_nonneg(s: Seq<char>)
    requires
        all_digits(s),
    ensures
        dec_val(s) >= 0,
    decreases s.len(),
{
    if s.len() > 0 {
        assert(all_digits(s.drop_last())) by {
            assert forall|i: int| 0 <= i < s.drop_last().len() implies is_digit(
                #[trigger] s.drop_last()[i],
            ) by {
                assert(s.drop_last()[i] == s[i]);
            }
        }
        lemma_dec_val_nonneg(s.drop_last());
        assert(is_digit(s.last()));
    }
}

/// Extending a digit string by one digit multiplies its value by ten and
/// adds that digit.
pub proof fn lemma_dec_val_step(s: Seq<char>, i: int)
    requires
        0 <= i < s.len(),
    ensures
        dec_val(s.subrange(0, i + 1)) == dec_val(s.subrange(0, i)) * 10 + digit_val(s[i]),
{
    assert(s.subrange(0, i + 1).drop_last() =~= s.subrange(0, i));
    assert(s.subrange(0, i + 1).last() == s[i]);
}

/// A digit string is worth at least any of its prefixes.
pub proof fn lemma_dec_val_prefix_le(s: Seq<char>, i: int)
    requires
        all_digits(s),
        0 <= i <= s.len(),
    ensures
        dec_val(s.subrange(0, i)) <= dec_val(s),
    decreases s.len() - i,
{
    if i == s.len() {
        assert(s.subrange(0, i) =~= s);
    } else {
        lemma_dec_val_prefix_le(s, i + 1);
        lemma_dec_val_step(s, i);
        assert(all_digits(s.subrange(0, i))) by {
            assert forall|j: int| 0 <= j < i implies is_digit(#[trigger] s.subrange(0, i)[j]) by {
                assert(s.subrange(0, i)[j] == s[j]);
            }
        }
        lemma_dec_val_nonneg(s.subrange(0, i));
        assert(is_digit(s[i]));
    }
}

fn is_digit_exec(c: char) -> (r: bool)
    ensures
        r == is_digit(c),
{
    let u = c as u32;
    48 <= u && u <= 57
}

/// Parses `s` as a signed decimal `i32`, as `str::parse::<i32>` does.
pub fn parse_i32_str(s: &str) -> (r: Option<i32>)
    ensures
        r == spec_parse_i32(s@),
{
    let n = s.unicode_len();
    if n == 0 {
        return None;
    }
    let first = s.get_char(0);
    let neg = first == '-';
    let signed = neg || first == '+';
    let start: usize = if signed {
        1
    } else {
        0
    };
    let ghost digits = if signed {
        s@.subrange(1, n as int)
    } else {
        s@
    };
    if start == n {
        return None;
    }
    // First pass: every remaining character must be a digit.
    let mut i: usize = start;
    while i < n
        invariant
            n == s@.len(),
            n > 0,
            start <= i <= n,
            signed == (s@[0] == '+' || s@[0] == '-'),
            neg == (s@[0] == '-'),
            start == if signed { 1int } else { 0int },
            digits == if signed { s@.subrange(1, n as int) } else { s@ },
            forall|j: int| start <= j < i ==> is_digit(#[trigger] s@[j]),
        decreases n - i,
    {
        if !is_digit_exec(s.get_char(i)) {
            proof {
                assert(digits[i - start] == s@[i as int]);
                assert(!all_digits(digits));
            }
            return None;
        }
        i = i + 1;
    }
    proof {
        assert(all_digits(digits)) by {
            assert forall|j: int| 0 <= j < digits.len() implies is_digit(#[trigger] digits[j]) by {
                assert(digits[j] == s@[j + start]);
            }
        }
    }
    // Second pass: accumulate the magnitude, rejecting once it can no longer
    // fit an `i32` of either sign.
    let mut mag: u64 = 0;
    let mut k: usize = start;
    while k < n
        invariant
            n == s@.len(),
            n > 0,
            start <= k <= n,
            signed == (s@[0] == '+' || s@[0] == '-'),
            neg == (s@[0] == '-'),
            start == if signed { 1int } else { 0int },
            digits == if signed { s@.subrange(1, n as int) } else { s@ },
            all_digits(digits),
            mag <= 2147483648,
            mag == dec_val(digits.subrange(0, k - start)),
        decreases n - k,
    {
        let c = s.get_char(k);
        let d: u64 = (c as u32 as u64) - 48;
        proof {
            assert(digits[k - start] == s@[k as int]);
            lemma_dec_val_step(digits, k - start);
        }
        let next: u64 = mag * 10 + d;
        if next > 2147483648 {
            proof {
                lemma_dec_val_prefix_le(digits, k + 1 - start);
                assert(dec_val(digits) >= next);
                assert(1 * dec_val(digits) > i32::MAX);
                assert((-1) * dec_val(digits) < i32::MIN);
            }
            return None;
        }
        mag = next;
        k = k + 1;
    }
    proof {
        assert(digits.subrange(0, n - start) =~= digits);
    }
    if neg {
        proof {
            assert((-1) * dec_val(digits) == -(mag as int));
        }
        let v: i64 = -(mag as i64);
        Some(v as i32)
    } else {
        if mag > 2147483647 {
            proof {
                assert(1 * dec_val(digits) > i32::MAX);
            }
            return None;
        }
        proof {
            assert(1 * dec_val(digits) == mag as int);
        }
        Some(mag as i32)
    }
}

} // verus!
