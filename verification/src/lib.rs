pub mod kernels;
pub mod numfmt;
pub mod query;
pub mod response;
pub mod router;
pub mod textutil;

pub use kernels::{add, factorial, fibonacci, is_prime, simple_hash_bytes, simple_hash_string};
pub use query::{parse_number, parse_string, parse_two_numbers};
pub use response::{
    create_error_response, create_html_response, create_json_response, get_home_page,
    get_status_json,
};
pub use router::{
    handle_add_request, handle_factorial_request, handle_fibonacci_request, handle_get_request,
    handle_hash_request, handle_prime_request, handle_request,
};
