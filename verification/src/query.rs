use vstd::prelude::*;
use crate::numfmt::{parse_i32_str, spec_parse_i32};
use crate::textutil::{find_char, find_idx, lemma_find_idx_props, str_eq, string_from_chars};

verus! {

// ---------------------------------------------------------------------------
// Raw query lookup
// ---------------------------------------------------------------------------

/// `part` begins with `key` followed by `=`.
pub open spec fn matches_key(part: Seq<char>, key: Seq<char>) -> bool {
    &&& part.len() > key.len()
    &&& part.subrange(0, key.len() as int) == key
    &&& part[key.len() as int] == '='
}

/// Everything after the first `=` of `part`; empty when `part` has no `=`.
pub open spec fn value_of(part: Seq<char>) -> Seq<char> {
    if find_idx(part, '=') < part.len() {
        part.subrange(find_idx(part, '=') + 1, part.len() as int)
    } else {
        Seq::empty()
    }
}

/// The raw value bound to `key` in an `&`-separated query: the first binding
/// whose text starts with `key=`, taken after its first `=`. Bindings without
/// `=` never match; the first matching binding wins.
pub open spec fn lookup_raw(q: Seq<char>, key: Seq<char>) -> Option<Seq<char>>
    decreases q.len(),
    via lookup_raw_decreases
{
    let amp = find_idx(q, '&');
    let part = q.subrange(0, amp);
    if matches_key(part, key) {
        Some(value_of(part))
    } else if amp == q.len() {
        None
    } else {
        lookup_raw(q.subrange(amp + 1, q.len() as int), key)
    }
}

#[via_fn]
proof fn lookup_raw_decreases(q: Seq<char>, key: Seq<char>) {
    lemma_find_idx_props(q, '&');
}

/// Looks `key` up in the query string, returning a borrowed slice of the
/// first matching binding's value.
pub fn lookup_query<'a>(q: &'a str, key: &str) -> (r: Option<&'a str>)
    ensures
        match r {
            Some(v) => lookup_raw(q@, key@) == Some(v@),
            None => lookup_raw(q@, key@) is None,
        },
{
    let qlen = q.unicode_len();
    let klen = key.unicode_len();
    let mut start: usize = 0;
    proof {
        assert(q@.subrange(0, qlen as int) =~= q@);
    }
    loop
        invariant
            qlen == q@.len(),
            klen == key@.len(),
            start <= qlen,
            lookup_raw(q@, key@) == lookup_raw(q@.subrange(start as int, qlen as int), key@),
        decreases qlen - start,
    {
        let ghost rem = q@.subrange(start as int, qlen as int);
        let amp = find_char_from(q, start, '&');
        proof {
            lemma_find_idx_props(rem, '&');
        }
        let part = q.substring_char(start, amp);
        proof {
            assert(part@ =~= rem.subrange(0, find_idx(rem, '&')));
        }
        let part_len = amp - start;
        let mut matched = false;
        if part_len > klen {
            let prefix = q.substring_char(start, start + klen);
            proof {
                assert(prefix@ =~= part@.subrange(0, klen as int));
            }
            if str_eq(prefix, key) {
                if q.get_char(start + klen) == '=' {
                    matched = true;
                }
            }
        }
        proof {
            assert(matched == matches_key(part@, key@));
        }
        if matched {
            let epos = find_char(part, '=');
            proof {
                lemma_find_idx_props(part@, '=');
                assert(part@[klen as int] == '=');
            }
            let value = part.substring_char(epos + 1, part_len);
            proof {
                assert(value@ =~= value_of(part@));
            }
            return Some(value);
        }
        if amp == qlen {
            return None;
        }
        proof {
            assert(q@.subrange(start + find_idx(rem, '&') + 1, qlen as int) =~= rem.subrange(
                find_idx(rem, '&') + 1,
                rem.len() as int,
            ));
        }
        start = amp + 1;
    }
}

/// First position of `c` in `s` at or after `from`, or the length of `s`;
/// the offset from `from` is the first occurrence in that suffix.
fn find_char_from(s: &str, from: usize, c: char) -> (r: usize)
    requires
        from <= s@.len(),
    ensures
        from <= r <= s@.len(),
        r - from == find_idx(s@.subrange(from as int, s@.len() as int), c),
{
    let n = s.unicode_len();
    let ghost suf = s@.subrange(from as int, n as int);
    let mut i: usize = from;
    while i < n
        invariant
            n == s@.len(),
            from <= i <= n,
            suf == s@.subrange(from as int, n as int),
            forall|j: int| 0 <= j < i - from ==> suf[j] != c,
        decreases n - i,
    {
        if s.get_char(i) == c {
            proof {
                crate::textutil::lemma_find_idx_unique(suf, c, i - from);
            }
            return i;
        }
        proof {
            assert(suf[i - from] == s@[i as int]);
        }
        i = i + 1;
    }
    proof {
        crate::textutil::lemma_find_idx_unique(suf, c, n - from);
    }
    n
}

// ---------------------------------------------------------------------------
// Numeric parameters
// ---------------------------------------------------------------------------

/// The value under `key`, parsed as a signed decimal `i32`.
pub open spec fn spec_parse_number(q: Seq<char>, key: Seq<char>) -> Option<i32> {
    match lookup_raw(q, key) {
        None => None,
        Some(v) => spec_parse_i32(v),
    }
}

/// The numeric parameter under `key`, or `default` when absent or unparsable.
pub open spec fn spec_num_param(q: Seq<char>, key: Seq<char>, default: int) -> int {
    match spec_parse_number(q, key) {
        None => default,
        Some(v) => v as int,
    }
}

/// Extracts the query parameter `param` as a signed decimal integer.
pub fn parse_number(query: &str, param: &str) -> (r: Option<i32>)
    ensures
        r == spec_parse_number(query@, param@),
{
    match lookup_query(query, param) {
        None => None,
        Some(v) => parse_i32_str(v),
    }
}

/// Extracts `param1` and `param2` as integers, each defaulting to zero.
pub fn parse_two_numbers(query: &str, param1: &str, param2: &str) -> (r: (i32, i32))
    ensures
        r.0 == spec_num_param(query@, param1@, 0),
        r.1 == spec_num_param(query@, param2@, 0),
{
    let a = match parse_number(query, param1) {
        Some(x) => x,
        None => 0,
    };
    let b = match parse_number(query, param2) {
        Some(x) => x,
        None => 0,
    };
    (a, b)
}

// ---------------------------------------------------------------------------
// String parameters
// ---------------------------------------------------------------------------

/// `+` characters replaced by spaces, as form-encoded queries spell them.
pub open spec fn spec_plus_to_space(s: Seq<char>) -> Seq<char> {
    Seq::new(s.len(), |i: int| if s[i] == '+' { ' ' } else { s[i] })
}

fn plus_to_space(s: &str) -> (r: Vec<char>)
    ensures
        r@ == spec_plus_to_space(s@),
{
    let n = s.unicode_len();
    let mut out: Vec<char> = Vec::new();
    let mut i: usize = 0;
    while i < n
        invariant
            n == s@.len(),
            i <= n,
            out@ =~= spec_plus_to_space(s@).subrange(0, i as int),
        decreases n - i,
    {
        let c = s.get_char(i);
        if c == '+' {
            out.push(' ');
        } else {
            out.push(c);
        }
        proof {
            assert(out@ =~= spec_plus_to_space(s@).subrange(0, i + 1));
        }
        i = i + 1;
    }
    proof {
        assert(spec_plus_to_space(s@).subrange(0, n as int) =~= spec_plus_to_space(s@));
    }
    out
}

/// What `urlencoding::decode` makes of a character sequence; a function of
/// the input alone.
pub uninterp spec fn url_decoded_of(s: Seq<char>) -> Seq<char>;

/// Relies on `urlencoding::decode`: the decoded text depends only on the
/// input characters, and an input without `%` comes back unchanged. A decode
/// failure (invalid UTF-8 after percent-decoding) yields the empty string.
#[verifier::external_body]
fn url_decode(s: &str) -> (r: String)
    ensures
        r@ == url_decoded_of(s@),
        (forall|i: int| 0 <= i < s@.len() ==> s@[i] != '%') ==> r@ == s@,
{
    match urlencoding::decode(s) {
        Ok(cow) => cow.into_owned(),
        Err(_) => String::new(),
    }
}

/// The value under `key` as text, with `+` as spaces and `%HH` sequences
/// percent-decoded.
pub open spec fn spec_parse_string(q: Seq<char>, key: Seq<char>) -> Option<Seq<char>> {
    match lookup_raw(q, key) {
        None => None,
        Some(v) => Some(url_decoded_of(spec_plus_to_space(v))),
    }
}

/// Extracts the query parameter `param` as a URL-decoded string.
pub fn parse_string(query: &str, param: &str) -> (r: Option<String>)
    ensures
        match r {
            Some(out) => spec_parse_string(query@, param@) == Some(out@),
            None => spec_parse_string(query@, param@) is None,
        },
{
    match lookup_query(query, param) {
        None => None,
        Some(v) => {
            let mapped = plus_to_space(v);
            let ms = string_from_chars(&mapped);
            Some(url_decode(ms.as_str()))
        },
    }
}

} // verus!
