use wasm_worker::{
    create_error_response, create_html_response, create_json_response, get_home_page,
    get_status_json, handle_request,
};

#[test]
fn add_endpoint_reports_the_sum() {
    assert_eq!(
        handle_request("GET", "/add?a=5&b=3", "a=5&b=3"),
        "200|application/json|{\"operation\":\"add\",\"inputs\":{\"a\":5,\"b\":3},\"result\":8}"
    );
}

#[test]
fn add_endpoint_defaults_to_zero() {
    assert_eq!(
        handle_request("GET", "/add", ""),
        "200|application/json|{\"operation\":\"add\",\"inputs\":{\"a\":0,\"b\":0},\"result\":0}"
    );
}

#[test]
fn factorial_of_zero_via_router() {
    assert_eq!(
        handle_request("GET", "/factorial", "n=0"),
        "200|application/json|{\"operation\":\"factorial\",\"input\":0,\"result\":\"1\"}"
    );
}

#[test]
fn factorial_default_is_five() {
    assert_eq!(
        handle_request("GET", "/factorial", ""),
        "200|application/json|{\"operation\":\"factorial\",\"input\":5,\"result\":\"120\"}"
    );
}

#[test]
fn factorial_above_twenty_is_rejected() {
    assert_eq!(
        handle_request("GET", "/factorial", "n=21"),
        "400|application/json|{\"error\":\"Number must be between 0 and 20\"}"
    );
}

#[test]
fn factorial_below_zero_is_rejected() {
    assert_eq!(
        handle_request("GET", "/factorial", "n=-1"),
        "400|application/json|{\"error\":\"Number must be between 0 and 20\"}"
    );
}

#[test]
fn prime_endpoint_confirms_seventeen() {
    assert_eq!(
        handle_request("GET", "/prime", "n=17"),
        "200|application/json|{\"operation\":\"is_prime\",\"input\":17,\"result\":true}"
    );
}

#[test]
fn prime_endpoint_rejects_composites() {
    assert_eq!(
        handle_request("GET", "/prime", "n=18"),
        "200|application/json|{\"operation\":\"is_prime\",\"input\":18,\"result\":false}"
    );
}

#[test]
fn fibonacci_of_ten_via_router() {
    assert_eq!(
        handle_request("GET", "/fibonacci", "n=10"),
        "200|application/json|{\"operation\":\"fibonacci\",\"input\":10,\"result\":\"55\"}"
    );
}

#[test]
fn fibonacci_above_forty_is_rejected() {
    assert_eq!(
        handle_request("GET", "/fibonacci", "n=41"),
        "400|application/json|{\"error\":\"Number must be between 0 and 40\"}"
    );
}

#[test]
fn hash_endpoint_hashes_the_input() {
    assert_eq!(
        handle_request("GET", "/hash", "input=cloudflare"),
        "200|application/json|{\"operation\":\"simple_hash\",\"input\":\"cloudflare\",\"result\":2044937254}"
    );
}

#[test]
fn hash_endpoint_decodes_before_hashing() {
    let response = handle_request("GET", "/hash", "input=hello+world");
    assert_eq!(
        response,
        format!(
            "200|application/json|{{\"operation\":\"simple_hash\",\"input\":\"hello world\",\"result\":{}}}",
            wasm_worker::simple_hash_bytes(b"hello world")
        )
    );
}

#[test]
fn non_get_methods_are_refused() {
    assert_eq!(
        handle_request("POST", "/add", "a=1&b=2"),
        "405|application/json|{\"error\":\"Method Not Allowed\"}"
    );
    assert_eq!(
        handle_request("PUT", "/status", ""),
        "405|application/json|{\"error\":\"Method Not Allowed\"}"
    );
}

#[test]
fn unknown_paths_are_not_found() {
    assert_eq!(
        handle_request("GET", "/missing", ""),
        "404|application/json|{\"error\":\"Not Found\"}"
    );
}

#[test]
fn status_endpoint_reports_the_fixed_document() {
    assert_eq!(
        handle_request("GET", "/status", ""),
        "200|application/json|{\"status\":\"ok\",\"implementation\":\"Pure WebAssembly\",\"timestamp\":\"2024-01-01T00:00:00.000Z\",\"message\":\"Handled by WASM\"}"
    );
}

#[test]
fn landing_page_is_html() {
    let response = handle_request("GET", "/", "");
    assert!(response.starts_with("200|text/html|<!DOCTYPE html>"));
    assert!(response.contains("/fibonacci?n=10"));
}

#[test]
fn equal_requests_get_byte_equal_responses() {
    let first = handle_request("GET", "/hash?input=abc", "input=abc");
    let second = handle_request("GET", "/hash?input=abc", "input=abc");
    assert_eq!(first, second);
    let third = handle_request("GET", "/prime", "n=7919");
    let fourth = handle_request("GET", "/prime", "n=7919");
    assert_eq!(third, fourth);
}

#[test]
fn arbitrary_input_always_yields_a_response_triple() {
    let cases: Vec<(&str, &str, &str)> = vec![
        ("", "", ""),
        ("GET", "", "==&&==%%"),
        ("GET", "???", "&&&"),
        ("get", "/add", "a=1"),
        ("GET", "/add?x", "a=%GG&b=\u{1f980}"),
        ("GET", "/hash", "input=%e2%82"),
        ("GET", "/factorial", "n=99999999999999999999"),
        ("\u{0}weird", "/\u{7f}", "a\u{0}=b"),
    ];
    for (method, url, query) in cases {
        let response = handle_request(method, url, query);
        let pipes = response.matches('|').count();
        assert!(pipes >= 2, "response lacks framing: {}", response);
        let status = response.split('|').next().unwrap();
        assert!(
            status == "200" || status == "400" || status == "404" || status == "405",
            "unexpected status in {}",
            response
        );
    }
}

#[test]
fn response_helpers_frame_with_pipes() {
    assert_eq!(create_json_response("{}"), "200|application/json|{}");
    assert_eq!(create_html_response("<p>x</p>".to_string()), "200|text/html|<p>x</p>");
    assert_eq!(
        create_error_response(500, "Null pointer received"),
        "500|application/json|{\"error\":\"Null pointer received\"}"
    );
    assert!(get_status_json().starts_with("{\"status\":\"ok\""));
    assert!(get_home_page().contains("<title>WASM-Handled Worker</title>"));
}

#[test]
fn query_argument_wins_over_url_query() {
    assert_eq!(
        handle_request("GET", "/add?a=9&b=9", "a=1&b=2"),
        "200|application/json|{\"operation\":\"add\",\"inputs\":{\"a\":1,\"b\":2},\"result\":3}"
    );
}

#[test]
fn add_endpoint_never_overflows() {
    assert_eq!(
        handle_request("GET", "/add", "a=2147483647&b=2147483647"),
        "200|application/json|{\"operation\":\"add\",\"inputs\":{\"a\":2147483647,\"b\":2147483647},\"result\":4294967294}"
    );
}
