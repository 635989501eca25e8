use json_rpc::limits::{
    exponents_within, is_within_limits, keys_within, MAX_BODY, MAX_EXPONENT_DIGITS, MAX_KEYS,
};
use json_rpc::server::Server;

const PARSE_ERROR: &str =
    r#"{"error":{"code":-32700,"data":null,"message":"Parse error"},"id":null,"jsonrpc":"2.0"}"#;

const NOT_AN_OBJECT: &str = r#"{"error":{"code":-32600,"data":"Not a JSON object","message":"Invalid Request"},"id":null,"jsonrpc":"2.0"}"#;

fn repeated(text: &str, times: usize) -> String {
    let mut out = String::new();
    for _ in 0..times {
        out.push_str(text);
    }
    out
}

#[test]
fn the_limits_are_those_of_the_parser() {
    assert_eq!(MAX_KEYS, 65535);
    assert_eq!(MAX_BODY, 4294967295);
    assert_eq!(MAX_EXPONENT_DIGITS, 9);
}

#[test]
fn the_bytes_of_a_key_are_counted() {
    assert!(keys_within(b"", 0));
    assert!(keys_within(b"{}", 0));
    assert!(keys_within(b"{\"\":1}", 0));
    assert!(keys_within(b"{\"ab\":1}", 2));
    assert!(!keys_within(b"{\"ab\":1}", 1));
    assert!(keys_within(b"{ \"ab\" : 1 }", 2));
    assert!(!keys_within(b"{ \"ab\" : 1 }", 1));
}

#[test]
fn the_keys_of_nested_objects_add_up() {
    assert!(keys_within(b"{\"ab\":{\"cde\":1}}", 5));
    assert!(!keys_within(b"{\"ab\":{\"cde\":1}}", 4));
    assert!(keys_within(b"{\"ab\":[{\"cde\":[{\"f\":1}]}]}", 6));
    assert!(!keys_within(b"{\"ab\":[{\"cde\":[{\"f\":1}]}]}", 5));
    assert!(!keys_within(b"{\"ab\":{\"cde", 4));
}

#[test]
fn the_keys_of_members_side_by_side_do_not_add_up() {
    assert!(keys_within(b"{\"ab\":1,\"cd\":2,\"ef\":3}", 2));
    assert!(keys_within(b"{\"ab\":{\"cd\":1},\"ef\":{\"gh\":2}}", 4));
    assert!(!keys_within(b"{\"ab\":{\"cd\":1},\"ef\":{\"ghi\":2}}", 4));
    assert!(keys_within(b"[{\"ab\":1},{\"cd\":2}]", 2));
}

#[test]
fn strings_that_are_no_keys_are_not_counted() {
    assert!(keys_within(b"\"abcdef\"", 0));
    assert!(keys_within(b"[\"abcdef\",\"ghijkl\"]", 0));
    assert!(keys_within(b"{\"a\":\"bcdefgh\"}", 1));
    assert!(keys_within(b"{\"a\":[\"bcdefgh\",\"ijklmno\"]}", 1));
    assert!(keys_within(b"{\"a\":\"bcd\",\"e\":\"fgh\"}", 1));
}

#[test]
fn a_key_is_counted_as_it_stands_in_the_text() {
    assert!(keys_within(b"{\"a\\\"b\":1}", 4));
    assert!(!keys_within(b"{\"a\\\"b\":1}", 3));
    assert!(keys_within(b"{\"\\u00e9\":1}", 6));
    assert!(!keys_within(b"{\"\\u00e9\":1}", 5));
    assert!(keys_within("{\"\u{e9}\":1}".as_bytes(), 2));
    assert!(!keys_within("{\"\u{e9}\":1}".as_bytes(), 1));
}

#[test]
fn a_comma_before_the_end_of_an_object_is_refused() {
    assert!(!keys_within(b"{\"a\":1,}", 100));
    assert!(!keys_within(b"{\"a\":1 , \n }", 100));
    assert!(!keys_within(b"[{\"a\":{\"b\":1,}}]", 100));
    assert!(keys_within(b"{\"a\":[1,]}", 100));
    assert!(keys_within(b"[1,]", 100));
    assert!(keys_within(b"{\"a\":\",}\"}", 100));
    assert!(keys_within(b"{\"a\":1,\"b\":{}}", 100));
}


#[test]
fn the_digits_of_an_exponent_are_counted() {
    assert!(exponents_within(b"", 0));
    assert!(exponents_within(b"12345678901234567890", 0));
    assert!(exponents_within(b"1.2345678901234567890", 0));
    assert!(exponents_within(b"1e5", 1));
    assert!(!exponents_within(b"1e5", 0));
    assert!(exponents_within(b"1E+55", 2));
    assert!(!exponents_within(b"1E+55", 1));
    assert!(exponents_within(b"1e-555", 3));
    assert!(!exponents_within(b"1e-555", 2));
    assert!(exponents_within(b"[1e1,2e22,3e333]", 3));
    assert!(!exponents_within(b"[1e1,2e22,3e333]", 2));
    assert!(!exponents_within(b"[3e333,2e22,1e1]", 2));
}

#[test]
fn leading_zeros_of_an_exponent_count_as_digits() {
    assert!(exponents_within(b"1e0001", 4));
    assert!(!exponents_within(b"1e0001", 3));
}

#[test]
fn only_one_sign_belongs_to_an_exponent() {
    assert!(exponents_within(b"1e+-5", 0));
    assert!(exponents_within(b"1e5+5", 1));
    assert!(exponents_within(b"1e5-55", 1));
    assert!(exponents_within(b"1e 55", 0));
}

#[test]
fn the_letter_of_a_literal_begins_no_exponent_with_digits() {
    assert!(exponents_within(b"[true,1,false,22]", 0));
    assert!(!exponents_within(b"true1", 0));
}

#[test]
fn digits_inside_strings_are_no_exponent() {
    assert!(exponents_within(b"\"1e12345678901234567890\"", 0));
    assert!(exponents_within(b"[\"e\",12345]", 0));
    assert!(exponents_within(b"[\"a\\\"e\",12345]", 0));
    assert!(!exponents_within(b"[\"a\\\\\"e12345]", 4));
    assert!(exponents_within(b"\"e\"12345", 0));
}

#[test]
fn a_text_is_within_the_limits_only_if_it_is_within_each() {
    assert!(is_within_limits(b"[1e5]"));
    assert!(is_within_limits(&vec![b' '; 65536]));
    assert!(is_within_limits(&vec![b'"'; 200000]));
    assert!(is_within_limits(format!("{{\"{}\":1}}", repeated("k", 65535)).as_bytes()));
    assert!(!is_within_limits(format!("{{\"{}\":1}}", repeated("k", 65536)).as_bytes()));
    assert!(!is_within_limits(b"{\"a\":1,}"));
    assert!(is_within_limits(b"1e123456789"));
    assert!(!is_within_limits(b"1e1234567890"));
    assert!(is_within_limits(&vec![b'['; 128]));
    assert!(!is_within_limits(&vec![b'['; 129]));
}

#[test]
fn a_long_exponent_is_a_parse_error() {
    let server = Server::new();
    assert_eq!(server.respond(b"1e12345678901234567890"), Ok(PARSE_ERROR.to_string()));
    assert_eq!(server.respond(b"1e99999999999999999999"), Ok(PARSE_ERROR.to_string()));
    assert_eq!(server.respond(b"[1.5E-00000000000000000001]"), Ok(PARSE_ERROR.to_string()));
    assert_eq!(server.respond(b"1e1234567890"), Ok(PARSE_ERROR.to_string()));
}

#[test]
fn an_exponent_within_the_limit_is_read() {
    let server = Server::new();
    assert_eq!(server.respond(b"1e5"), Ok(NOT_AN_OBJECT.to_string()));
    assert_eq!(server.respond(b"1E+000000002"), Ok(NOT_AN_OBJECT.to_string()));
    assert_eq!(server.respond(b"1e-123456789"), Ok(NOT_AN_OBJECT.to_string()));
    assert_eq!(server.respond(b"1e999999999"), Ok(NOT_AN_OBJECT.to_string()));
}

#[test]
fn two_nested_long_keys_are_a_parse_error() {
    let key = repeated("k", 40000);
    let body = format!(r#"{{"{}":{{"{}":1}}}}"#, key, key);
    assert_eq!(Server::new().respond(body.as_bytes()), Ok(PARSE_ERROR.to_string()));
}

#[test]
fn a_long_key_beyond_ascii_before_another_member_is_a_parse_error() {
    let key = repeated("\u{e9}", 35000);
    let body = format!(r#"{{"{}":1,"b":2}}"#, key);
    assert_eq!(Server::new().respond(body.as_bytes()), Ok(PARSE_ERROR.to_string()));
}

#[test]
fn a_key_of_65536_bytes_is_a_parse_error() {
    let body = format!(r#"{{"{}":1}}"#, repeated("k", 65536));
    assert_eq!(Server::new().respond(body.as_bytes()), Ok(PARSE_ERROR.to_string()));
}

#[test]
fn long_keys_in_a_body_within_the_limit_are_read() {
    let key = repeated("\u{e9}", 16000);
    let body = format!(r#"{{"{}":{{"{}":1}},"b":2}}"#, key, key);
    assert!(body.len() <= MAX_BODY);
    let answer = Server::new().respond(body.as_bytes()).unwrap();
    assert!(answer.contains("\"data\":\"Invalid version specified\""));
}

#[test]
fn a_key_of_65535_bytes_is_read() {
    let body = format!(r#"{{"{}":1}}"#, repeated("k", 65535));
    let answer = Server::new().respond(body.as_bytes()).unwrap();
    assert!(answer.contains("\"data\":\"Invalid version specified\""));
}

#[test]
fn long_keys_side_by_side_are_read() {
    let body = format!(
        r#"{{"{}":1,"{}":{{"b":2}},"jsonrpc":"2.0"}}"#,
        repeated("\u{e9}", 30000),
        repeated("k", 60000)
    );
    let answer = Server::new().respond(body.as_bytes()).unwrap();
    assert!(answer.contains("\"data\":\"Invalid method specified\""));
}

#[test]
fn a_long_batch_with_short_keys_is_answered_with_an_array() {
    let call = r#"{"jsonrpc":"2.0","method":"m","id":1}"#;
    let body = format!("[{}]", vec![call; 2000].join(","));
    assert!(body.len() > 70000);
    let answer = Server::new().respond(body.as_bytes()).unwrap();
    let one = r#"{"error":{"code":-32600,"data":"Invalid params specified","message":"Invalid Request"},"id":null,"jsonrpc":"2.0"}"#;
    assert_eq!(answer, format!("[{}]", vec![one; 2000].join(",")));
}

#[test]
fn long_strings_that_are_no_keys_are_read() {
    let long = repeated("\u{e9}", 50000);
    let body = format!(r#"["{}",{{"a":"{}","b":["{}"]}}]"#, long, long, long);
    let answer = Server::new().respond(body.as_bytes()).unwrap();
    assert!(answer.starts_with("[{"));
    assert!(answer.contains("\"data\":\"Not a JSON object\""));
    assert!(answer.contains("\"data\":\"Invalid version specified\""));
}

#[test]
fn a_long_key_behind_a_comma_that_ends_an_object_is_a_parse_error() {
    let key = repeated("\u{e9}", 35000);
    let body = format!(r#"{{"k":[1,{{"a":1,}},"{}":{{"b":1}}]}}"#, key);
    assert_eq!(Server::new().respond(body.as_bytes()), Ok(PARSE_ERROR.to_string()));
    let body = format!(r#"[[{{"a":1,}},{{"{}":{{"{}":1}}}}]]"#, key, key);
    assert_eq!(Server::new().respond(body.as_bytes()), Ok(PARSE_ERROR.to_string()));
}

#[test]
fn a_comma_before_the_end_of_an_object_is_a_parse_error() {
    let server = Server::new();
    assert_eq!(server.respond(br#"{"a":1,}"#), Ok(PARSE_ERROR.to_string()));
    assert_eq!(server.respond(br#"[{"a":1,}]"#), Ok(PARSE_ERROR.to_string()));
    assert_eq!(server.respond(br#"{"a":{"b":1,}}"#), Ok(PARSE_ERROR.to_string()));
    assert_eq!(server.respond(br#"{"a":{"b":1,},"c":2}"#), Ok(PARSE_ERROR.to_string()));
}
