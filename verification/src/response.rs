use vstd::prelude::*;
use crate::numfmt::{push_dec_u64, spec_dec_u64};
use crate::textutil::string_from_chars;

verus! {

// ---------------------------------------------------------------------------
// Response framing: `<status>|<content-type>|<body>`
// ---------------------------------------------------------------------------

/// A JSON response: status 200, pipe-delimited framing.
pub open spec fn spec_json_response(body: Seq<char>) -> Seq<char> {
    "200|application/json|"@ + body
}

/// An HTML response: status 200, pipe-delimited framing.
pub open spec fn spec_html_response(body: Seq<char>) -> Seq<char> {
    "200|text/html|"@ + body
}

/// An error response: the given status, a JSON body `{"error":"<message>"}`.
pub open spec fn spec_error_response(status: nat, message: Seq<char>) -> Seq<char> {
    spec_dec_u64(status) + "|application/json|{\"error\":\""@ + message + "\"}"@
}

/// Frames `body` as `200|application/json|<body>`.
pub fn create_json_response(body: &str) -> (r: String)
    ensures
        r@ == spec_json_response(body@),
{
    let mut r = String::from_str("200|application/json|");
    r.append(body);
    r
}

/// Frames `body` as `200|text/html|<body>`.
pub fn create_html_response(body: String) -> (r: String)
    ensures
        r@ == spec_html_response(body@),
{
    let mut r = String::from_str("200|text/html|");
    r.append(body.as_str());
    r
}

/// Frames `message` as `<status>|application/json|{"error":"<message>"}`.
pub fn create_error_response(status: u16, message: &str) -> (r: String)
    ensures
        r@ == spec_error_response(status as nat, message@),
{
    let mut digits: Vec<char> = Vec::new();
    push_dec_u64(status as u64, &mut digits);
    let mut r = string_from_chars(&digits);
    r.append("|application/json|{\"error\":\"");
    r.append(message);
    r.append("\"}");
    proof {
        assert(r@ =~= spec_error_response(status as nat, message@));
    }
    r
}

// ---------------------------------------------------------------------------
// Fixed documents
// ---------------------------------------------------------------------------

/// The status document; its timestamp is a fixed constant, since the core
/// has no clock — the host owns real time.
pub open spec fn spec_status_json() -> Seq<char> {
    "{\"status\":\"ok\",\"implementation\":\"Pure WebAssembly\",\"timestamp\":\"2024-01-01T00:00:00.000Z\",\"message\":\"Handled by WASM\"}"@
}

/// The JSON body served by the status endpoint.
pub fn get_status_json() -> (r: String)
    ensures
        r@ == spec_status_json(),
{
    String::from_str(
        "{\"status\":\"ok\",\"implementation\":\"Pure WebAssembly\",\"timestamp\":\"2024-01-01T00:00:00.000Z\",\"message\":\"Handled by WASM\"}",
    )
}

/// The HTML landing page, an opaque constant document.
pub open spec fn spec_home_page() -> Seq<char> {
    "<!DOCTYPE html>\n<html>\n<head>\n    <title>WASM-Handled Worker</title>\n    <style>\n        body { font-family: Arial, sans-serif; max-width: 800px; margin: 0 auto; padding: 20px; }\n        .endpoint { background: #f5f5f5; padding: 15px; margin: 10px 0; border-radius: 5px; }\n    </style>\n</head>\n<body>\n    <h1>WASM-Handled Worker</h1>\n    <p>This request was processed entirely in WebAssembly!</p>\n    <div class=\"endpoint\">\n        <h3>Available Endpoints:</h3>\n        <ul>\n            <li><code>/status</code> - Check WASM status</li>\n            <li><code>/add?a=5&b=3</code> - Add two numbers</li>\n            <li><code>/factorial?n=5</code> - Calculate factorial</li>\n            <li><code>/prime?n=17</code> - Check if number is prime</li>\n            <li><code>/fibonacci?n=10</code> - Get Fibonacci number</li>\n            <li><code>/hash?input=test</code> - Simple hash function</li>\n        </ul>\n    </div>\n</body>\n</html>"@
}

/// The landing page text.
pub fn get_home_page() -> (r: String)
    ensures
        r@ == spec_home_page(),
{
    String::from_str(
        "<!DOCTYPE html>\n<html>\n<head>\n    <title>WASM-Handled Worker</title>\n    <style>\n        body { font-family: Arial, sans-serif; max-width: 800px; margin: 0 auto; padding: 20px; }\n        .endpoint { background: #f5f5f5; padding: 15px; margin: 10px 0; border-radius: 5px; }\n    </style>\n</head>\n<body>\n    <h1>WASM-Handled Worker</h1>\n    <p>This request was processed entirely in WebAssembly!</p>\n    <div class=\"endpoint\">\n        <h3>Available Endpoints:</h3>\n        <ul>\n            <li><code>/status</code> - Check WASM status</li>\n            <li><code>/add?a=5&b=3</code> - Add two numbers</li>\n            <li><code>/factorial?n=5</code> - Calculate factorial</li>\n            <li><code>/prime?n=17</code> - Check if number is prime</li>\n            <li><code>/fibonacci?n=10</code> - Get Fibonacci number</li>\n            <li><code>/hash?input=test</code> - Simple hash function</li>\n        </ul>\n    </div>\n</body>\n</html>",
    )
}

} // verus!
