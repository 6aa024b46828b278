use vstd::prelude::*;
use crate::kernels::{
    factorial, fibonacci, is_prime, simple_hash_string, spec_djb2_str, spec_factorial,
    spec_fibonacci, spec_is_prime,
};
use crate::numfmt::{push_dec_i64, push_dec_u64, spec_dec_int, spec_dec_u64};
use crate::query::{
    parse_number, parse_string, parse_two_numbers, spec_num_param, spec_parse_string,
};
use crate::response::{
    create_error_response, create_html_response, create_json_response, get_home_page,
    get_status_json, spec_error_response, spec_home_page, spec_html_response, spec_json_response,
    spec_status_json,
};
use crate::textutil::{find_char, find_idx, lemma_find_idx_props, str_eq, string_from_chars};

verus! {

// ---------------------------------------------------------------------------
// The add endpoint
// ---------------------------------------------------------------------------

/// The JSON body reported for an addition.
pub open spec fn spec_add_body(a: int, b: int) -> Seq<char> {
    "{\"operation\":\"add\",\"inputs\":{\"a\":"@ + spec_dec_int(a) + ",\"b\":"@ + spec_dec_int(b)
        + "},\"result\":"@ + spec_dec_int(a + b) + "}"@
}

/// The add endpoint: parameters `a` and `b` (default 0), summed exactly.
pub open spec fn spec_add_response(q: Seq<char>) -> Seq<char> {
    spec_json_response(spec_add_body(spec_num_param(q, "a"@, 0), spec_num_param(q, "b"@, 0)))
}

/// Serves `/add`.
pub fn handle_add_request(query: &str) -> (r: String)
    ensures
        r@ == spec_add_response(query@),
{
    let (a, b) = parse_two_numbers(query, "a", "b");
    let wide: i64 = a as i64 + b as i64;
    let sum: i64 = if -2147483648i64 <= wide && wide <= 2147483647i64 {
        crate::kernels::add(a, b) as i64
    } else {
        wide
    };
    let mut body = String::from_str("{\"operation\":\"add\",\"inputs\":{\"a\":");
    let mut da: Vec<char> = Vec::new();
    push_dec_i64(a as i64, &mut da);
    let sa = string_from_chars(&da);
    body.append(sa.as_str());
    body.append(",\"b\":");
    let mut db: Vec<char> = Vec::new();
    push_dec_i64(b as i64, &mut db);
    let sb = string_from_chars(&db);
    body.append(sb.as_str());
    body.append("},\"result\":");
    let mut ds: Vec<char> = Vec::new();
    push_dec_i64(sum, &mut ds);
    let ss = string_from_chars(&ds);
    body.append(ss.as_str());
    body.append("}");
    proof {
        assert(body@ =~= spec_add_body(a as int, b as int));
    }
    create_json_response(body.as_str())
}

// ---------------------------------------------------------------------------
// The factorial endpoint
// ---------------------------------------------------------------------------

/// The JSON body reported for a factorial; the result is quoted to keep
/// 64-bit precision in clients with 53-bit numbers.
pub open spec fn spec_factorial_body(n: int, r: nat) -> Seq<char> {
    "{\"operation\":\"factorial\",\"input\":"@ + spec_dec_int(n) + ",\"result\":\""@
        + spec_dec_u64(r) + "\"}"@
}

/// The factorial endpoint: parameter `n` (default 5); `n` outside `[0, 20]`
/// is rejected with status 400.
pub open spec fn spec_factorial_response(q: Seq<char>) -> Seq<char> {
    let n = spec_num_param(q, "n"@, 5);
    if 0 <= n <= 20 {
        spec_json_response(spec_factorial_body(n, spec_factorial(n as nat)))
    } else {
        spec_error_response(400, "Number must be between 0 and 20"@)
    }
}

/// Serves `/factorial`.
pub fn handle_factorial_request(query: &str) -> (r: String)
    ensures
        r@ == spec_factorial_response(query@),
{
    let n = match parse_number(query, "n") {
        Some(x) => x,
        None => 5,
    };
    if n < 0 || n > 20 {
        return create_error_response(400, "Number must be between 0 and 20");
    }
    let result = factorial(n as u32);
    let mut body = String::from_str("{\"operation\":\"factorial\",\"input\":");
    let mut dn: Vec<char> = Vec::new();
    push_dec_i64(n as i64, &mut dn);
    let sn = string_from_chars(&dn);
    body.append(sn.as_str());
    body.append(",\"result\":\"");
    let mut dr: Vec<char> = Vec::new();
    push_dec_u64(result, &mut dr);
    let sr = string_from_chars(&dr);
    body.append(sr.as_str());
    body.append("\"}");
    proof {
        assert(body@ =~= spec_factorial_body(n as int, spec_factorial(n as nat)));
    }
    create_json_response(body.as_str())
}

// ---------------------------------------------------------------------------
// The prime endpoint
// ---------------------------------------------------------------------------

/// An `i32` reinterpreted as the `u32` with the same 32-bit pattern.
pub open spec fn as_u32_wrap(n: int) -> nat {
    if n >= 0 {
        n as nat
    } else {
        (n + 0x1_0000_0000) as nat
    }
}

/// The JSON body reported for a primality test.
pub open spec fn spec_prime_body(n: int, p: bool) -> Seq<char> {
    "{\"operation\":\"is_prime\",\"input\":"@ + spec_dec_int(n) + ",\"result\":"@ + (if p {
        "true"@
    } else {
        "false"@
    }) + "}"@
}

/// The prime endpoint: parameter `n` (default 17), tested after the same
/// 32-bit reinterpretation the boundary signature forces.
pub open spec fn spec_prime_response(q: Seq<char>) -> Seq<char> {
    let n = spec_num_param(q, "n"@, 17);
    spec_json_response(spec_prime_body(n, spec_is_prime(as_u32_wrap(n))))
}

/// Serves `/prime`.
pub fn handle_prime_request(query: &str) -> (r: String)
    ensures
        r@ == spec_prime_response(query@),
{
    let n = match parse_number(query, "n") {
        Some(x) => x,
        None => 17,
    };
    let m: u32 = if n >= 0 {
        n as u32
    } else {
        ((n as i64) + 0x1_0000_0000i64) as u32
    };
    let p = is_prime(m) != 0;
    let mut body = String::from_str("{\"operation\":\"is_prime\",\"input\":");
    let mut dn: Vec<char> = Vec::new();
    push_dec_i64(n as i64, &mut dn);
    let sn = string_from_chars(&dn);
    body.append(sn.as_str());
    body.append(",\"result\":");
    if p {
        body.append("true");
    } else {
        body.append("false");
    }
    body.append("}");
    proof {
        assert(m as nat == as_u32_wrap(n as int));
        assert(body@ =~= spec_prime_body(n as int, spec_is_prime(as_u32_wrap(n as int))));
    }
    create_json_response(body.as_str())
}

// ---------------------------------------------------------------------------
// The fibonacci endpoint
// ---------------------------------------------------------------------------

/// The JSON body reported for a Fibonacci number; quoted like factorial.
pub open spec fn spec_fibonacci_body(n: int, r: nat) -> Seq<char> {
    "{\"operation\":\"fibonacci\",\"input\":"@ + spec_dec_int(n) + ",\"result\":\""@
        + spec_dec_u64(r) + "\"}"@
}

/// The fibonacci endpoint: parameter `n` (default 10); `n` outside `[0, 40]`
/// is rejected with status 400.
pub open spec fn spec_fibonacci_response(q: Seq<char>) -> Seq<char> {
    let n = spec_num_param(q, "n"@, 10);
    if 0 <= n <= 40 {
        spec_json_response(spec_fibonacci_body(n, spec_fibonacci(n as nat)))
    } else {
        spec_error_response(400, "Number must be between 0 and 40"@)
    }
}

/// Serves `/fibonacci`.
pub fn handle_fibonacci_request(query: &str) -> (r: String)
    ensures
        r@ == spec_fibonacci_response(query@),
{
    let n = match parse_number(query, "n") {
        Some(x) => x,
        None => 10,
    };
    if n < 0 || n > 40 {
        return create_error_response(400, "Number must be between 0 and 40");
    }
    let result = fibonacci(n as u32);
    let mut body = String::from_str("{\"operation\":\"fibonacci\",\"input\":");
    let mut dn: Vec<char> = Vec::new();
    push_dec_i64(n as i64, &mut dn);
    let sn = string_from_chars(&dn);
    body.append(sn.as_str());
    body.append(",\"result\":\"");
    let mut dr: Vec<char> = Vec::new();
    push_dec_u64(result, &mut dr);
    let sr = string_from_chars(&dr);
    body.append(sr.as_str());
    body.append("\"}");
    proof {
        assert(body@ =~= spec_fibonacci_body(n as int, spec_fibonacci(n as nat)));
    }
    create_json_response(body.as_str())
}

// ---------------------------------------------------------------------------
// The hash endpoint
// ---------------------------------------------------------------------------

/// The JSON body reported for a hash; the input text is echoed verbatim.
pub open spec fn spec_hash_body(input: Seq<char>, h: nat) -> Seq<char> {
    "{\"operation\":\"simple_hash\",\"input\":\""@ + input + "\",\"result\":"@ + spec_dec_u64(h)
        + "}"@
}

/// The hash endpoint: parameter `input` (default `cloudflare`), URL-decoded,
/// hashed with djb2 over its UTF-8 bytes.
pub open spec fn spec_hash_response(q: Seq<char>) -> Seq<char> {
    let input = match spec_parse_string(q, "input"@) {
        None => "cloudflare"@,
        Some(v) => v,
    };
    spec_json_response(spec_hash_body(input, spec_djb2_str(input) as nat))
}

/// Serves `/hash`.
pub fn handle_hash_request(query: &str) -> (r: String)
    ensures
        r@ == spec_hash_response(query@),
{
    let input: String = match parse_string(query, "input") {
        Some(s) => s,
        None => String::from_str("cloudflare"),
    };
    let h = simple_hash_string(input.as_str());
    let mut body = String::from_str("{\"operation\":\"simple_hash\",\"input\":\"");
    body.append(input.as_str());
    body.append("\",\"result\":");
    let mut dh: Vec<char> = Vec::new();
    push_dec_u64(h as u64, &mut dh);
    let sh = string_from_chars(&dh);
    body.append(sh.as_str());
    body.append("}");
    proof {
        assert(body@ =~= spec_hash_body(input@, spec_djb2_str(input@) as nat));
    }
    create_json_response(body.as_str())
}

// ---------------------------------------------------------------------------
// Dispatch
// ---------------------------------------------------------------------------

/// The request path: the URL up to its first `?`.
pub open spec fn spec_path_of(url: Seq<char>) -> Seq<char> {
    url.subrange(0, find_idx(url, '?'))
}

/// The response served for a GET request.
pub open spec fn spec_get_response(url: Seq<char>, q: Seq<char>) -> Seq<char> {
    let path = spec_path_of(url);
    if path == "/"@ {
        spec_html_response(spec_home_page())
    } else if path == "/status"@ {
        spec_json_response(spec_status_json())
    } else if path == "/add"@ {
        spec_add_response(q)
    } else if path == "/factorial"@ {
        spec_factorial_response(q)
    } else if path == "/prime"@ {
        spec_prime_response(q)
    } else if path == "/fibonacci"@ {
        spec_fibonacci_response(q)
    } else if path == "/hash"@ {
        spec_hash_response(q)
    } else {
        spec_error_response(404, "Not Found"@)
    }
}

/// Serves a GET request by path.
pub fn handle_get_request(url: &str, query: &str) -> (r: String)
    ensures
        r@ == spec_get_response(url@, query@),
{
    let qpos = find_char(url, '?');
    proof {
        lemma_find_idx_props(url@, '?');
    }
    let path = url.substring_char(0, qpos);
    if str_eq(path, "/") {
        create_html_response(get_home_page())
    } else if str_eq(path, "/status") {
        let body = get_status_json();
        create_json_response(body.as_str())
    } else if str_eq(path, "/add") {
        handle_add_request(query)
    } else if str_eq(path, "/factorial") {
        handle_factorial_request(query)
    } else if str_eq(path, "/prime") {
        handle_prime_request(query)
    } else if str_eq(path, "/fibonacci") {
        handle_fibonacci_request(query)
    } else if str_eq(path, "/hash") {
        handle_hash_request(query)
    } else {
        create_error_response(404, "Not Found")
    }
}

/// The full response for one request triple: only GET is served; every other
/// method is answered with status 405.
pub open spec fn spec_handle(method: Seq<char>, url: Seq<char>, q: Seq<char>) -> Seq<char> {
    if method == "GET"@ {
        spec_get_response(url, q)
    } else {
        spec_error_response(405, "Method Not Allowed"@)
    }
}

/// Dispatches one request. The response is a pure function of the three
/// inputs; no input makes this function fail.
pub fn handle_request(method: &str, url: &str, query: &str) -> (r: String)
    ensures
        r@ == spec_handle(method@, url@, query@),
{
    if str_eq(method, "GET") {
        handle_get_request(url, query)
    } else {
        create_error_response(405, "Method Not Allowed")
    }
}

/// Equal request triples are answered with byte-equal responses: the
/// response is a function of the request alone.
pub proof fn lemma_handle_idempotent(
    m1: Seq<char>,
    u1: Seq<char>,
    q1: Seq<char>,
    m2: Seq<char>,
    u2: Seq<char>,
    q2: Seq<char>,
)
    requires
        m1 == m2,
        u1 == u2,
        q1 == q2,
    ensures
        spec_handle(m1, u1, q1) == spec_handle(m2, u2, q2),
{
}

} // verus!
