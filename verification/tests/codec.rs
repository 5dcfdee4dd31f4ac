//! Tests of the percent codec, the canonical parameter string, and the
//! small text utilities.

use xero::canonical::param_string;
use xero::percent;
use xero::text::{format_i64, lex_leq_exec, to_ascii_uppercase};

#[test]
fn percent_encoding_keeps_unreserved_bytes() {
    assert_eq!(percent::to_string("AZaz09-._~"), "AZaz09-._~");
}

#[test]
fn percent_encoding_escapes_reserved_bytes() {
    assert_eq!(percent::to_string("a b"), "a%20b");
    assert_eq!(percent::to_string("https://api.example.com/Contacts"),
        "https%3A%2F%2Fapi.example.com%2FContacts");
    assert_eq!(percent::to_string("k=v&x"), "k%3Dv%26x");
    assert_eq!(percent::to_string("+/="), "%2B%2F%3D");
}

#[test]
fn percent_encoding_works_on_utf8_bytes() {
    assert_eq!(percent::to_string("caf\u{e9}"), "caf%C3%A9");
    assert_eq!(percent::to_string("\u{2603}"), "%E2%98%83");
}

#[test]
fn percent_decoding_inverts_encoding() {
    for text in ["", "plain", "a b&c=d", "caf\u{e9} \u{2603}", "100% sure"] {
        let encoded = percent::to_string(text);
        assert_eq!(percent::percent_decode(&encoded).as_deref(), Some(text));
    }
    // lower-case escapes decode too
    assert_eq!(percent::percent_decode("a%2fb").as_deref(), Some("a/b"));
}

#[test]
fn percent_decoding_rejects_malformed_escapes() {
    assert!(percent::percent_decode("abc%2").is_none());
    assert!(percent::percent_decode("abc%zz").is_none());
    assert!(percent::percent_decode("%").is_none());
    // decoded bytes must be UTF-8
    assert!(percent::percent_decode("%FF%FE").is_none());
}

#[test]
fn canonical_string_sorts_by_encoded_name() {
    let pairs = vec![
        ("oauth_token".to_string(), "t".to_string()),
        ("oauth_nonce".to_string(), "n".to_string()),
        ("oauth_consumer_key".to_string(), "k".to_string()),
    ];
    assert_eq!(param_string(&pairs), "oauth_consumer_key=k&oauth_nonce=n&oauth_token=t");

    let scrambled = vec![
        ("oauth_nonce".to_string(), "n".to_string()),
        ("oauth_consumer_key".to_string(), "k".to_string()),
        ("oauth_token".to_string(), "t".to_string()),
    ];
    assert_eq!(param_string(&pairs), param_string(&scrambled));
}

#[test]
fn canonical_string_encodes_names_and_values() {
    let pairs = vec![
        ("key with space".to_string(), "v&1".to_string()),
        ("plain".to_string(), "x~y".to_string()),
    ];
    assert_eq!(param_string(&pairs), "key%20with%20space=v%261&plain=x~y");
}

#[test]
fn canonical_string_orders_equal_names_by_value() {
    let pairs = vec![
        ("a".to_string(), "2".to_string()),
        ("a".to_string(), "1".to_string()),
        ("b".to_string(), "0".to_string()),
    ];
    assert_eq!(param_string(&pairs), "a=1&a=2&b=0");
}

#[test]
fn canonical_string_of_nothing_is_empty() {
    let pairs: Vec<(String, String)> = Vec::new();
    assert_eq!(param_string(&pairs), "");
}

#[test]
fn signature_base_frames_method_url_and_params() {
    let params = xero::oauth::Params::new("k".to_string(), xero::oauth::SignatureMethod::RsaSha1)
        .unwrap();
    let base = params.get_signature_base("get", "https://x.example/y", "a=1&b=2").unwrap();
    assert_eq!(base, "GET&https%3A%2F%2Fx.example%2Fy&a%3D1%26b%3D2");
}

#[test]
fn signing_key_joins_encoded_secrets() {
    let mut params = xero::oauth::Params::new("k".to_string(), xero::oauth::SignatureMethod::HmacSha1)
        .unwrap();
    assert_eq!(params.get_signing_key().unwrap(), "&");
    params.oauth_consumer_secret = Some("c s&".to_string());
    params.oauth_token_secret = Some("t/s".to_string());
    assert_eq!(params.get_signing_key().unwrap(), "c%20s%26&t%2Fs");
}

#[test]
fn ascii_uppercase_leaves_non_letters() {
    assert_eq!(to_ascii_uppercase("get"), "GET");
    assert_eq!(to_ascii_uppercase("Put-7_z"), "PUT-7_Z");
    assert_eq!(to_ascii_uppercase("caf\u{e9}"), "CAF\u{e9}");
}

#[test]
fn decimal_formatting_matches_std() {
    for n in [0i64, 7, -7, 1489573123, i64::MAX, i64::MIN] {
        assert_eq!(format_i64(n), n.to_string());
    }
}

#[test]
fn lexicographic_order_on_strings() {
    assert!(lex_leq_exec("", "a"));
    assert!(lex_leq_exec("a", "a"));
    assert!(lex_leq_exec("a", "ab"));
    assert!(!lex_leq_exec("ab", "a"));
    assert!(lex_leq_exec("oauth_consumer_key", "oauth_nonce"));
    assert!(!lex_leq_exec("oauth_token", "oauth_nonce"));
}
