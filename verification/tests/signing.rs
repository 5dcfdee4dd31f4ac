//! End-to-end tests of the signing pipeline: determinism, secret
//! exclusion, canonical ordering, header round trips, and RSA signature
//! verification against openssl.

use openssl::hash::MessageDigest;
use openssl::pkey::PKey;
use openssl::rsa::Rsa;
use openssl::sign::Verifier;

use xero::application::Application;
use xero::header::{authorization_header, parse_header};
use xero::oauth::{Params, SignatureMethod};

fn rsa_params(consumer_key: &str) -> (Params, Vec<u8>, Vec<u8>) {
    let rsa = Rsa::generate(2048).unwrap();
    let pkey = PKey::from_rsa(rsa).unwrap();
    let private_pem = pkey.private_key_to_pem_pkcs8().unwrap();
    let public_pem = pkey.public_key_to_pem().unwrap();
    let params = Params::new(consumer_key.to_string(), SignatureMethod::RsaSha1).unwrap();
    (params, private_pem, public_pem)
}

fn field<'a>(fields: &'a [(String, String)], name: &str) -> &'a str {
    &fields
        .iter()
        .find(|(n, _)| n.as_str() == name)
        .unwrap_or_else(|| panic!("missing field {}", name))
        .1
}

#[test]
fn signing_is_deterministic_for_fixed_inputs() {
    let (params, pem, _) = rsa_params("abc123");
    let h1 = params
        .sign_request_with(&pem, "GET", "https://api.example.com/Contacts", "fixednonce", "1500000000")
        .unwrap();
    let h2 = params
        .sign_request_with(&pem, "GET", "https://api.example.com/Contacts", "fixednonce", "1500000000")
        .unwrap();
    assert_eq!(h1, h2);
}

#[test]
fn hmac_signing_is_deterministic_for_fixed_inputs() {
    let mut params = Params::new("abc123".to_string(), SignatureMethod::HmacSha1).unwrap();
    params.oauth_consumer_secret = Some("shhh".to_string());
    let h1 = params
        .sign_request_with(b"", "GET", "https://api.example.com/Items", "n0n0n0", "1500000000")
        .unwrap();
    let h2 = params
        .sign_request_with(b"", "GET", "https://api.example.com/Items", "n0n0n0", "1500000000")
        .unwrap();
    assert_eq!(h1, h2);
}

#[test]
fn secrets_never_appear_in_base_string_or_header() {
    let mut params = Params::new("consumer".to_string(), SignatureMethod::HmacSha1).unwrap();
    params.oauth_consumer_secret = Some("kVPxSecretValue9".to_string());
    params.oauth_token_secret = Some("tokensecretvalue".to_string());

    let pairs = params.get_oauth_params("nonce123", "1500000000");
    let canonical = xero::canonical::param_string(&pairs);
    let base = params
        .get_signature_base("GET", "https://api.example.com/Contacts", &canonical)
        .unwrap();
    assert!(!base.contains("kVPxSecretValue9"));
    assert!(!base.contains("tokensecretvalue"));

    let header = params
        .sign_request_with(b"", "GET", "https://api.example.com/Contacts", "nonce123", "1500000000")
        .unwrap();
    assert!(!header.contains("kVPxSecretValue9"));
    assert!(!header.contains("tokensecretvalue"));
}

#[test]
fn header_round_trips_field_by_field() {
    let mut params = Params::new("key one".to_string(), SignatureMethod::RsaSha1).unwrap();
    params.oauth_token = Some("tok/en=yes".to_string());
    let header = authorization_header(&params, "NONCEnonce42", "1489000000", "c2ln+bmF0/dXJl=");
    let fields = parse_header(&header).expect("header must parse");
    assert_eq!(field(&fields, "oauth_consumer_key"), "key one");
    assert_eq!(field(&fields, "oauth_nonce"), "NONCEnonce42");
    assert_eq!(field(&fields, "oauth_timestamp"), "1489000000");
    assert_eq!(field(&fields, "oauth_signature_method"), "RSA-SHA1");
    assert_eq!(field(&fields, "oauth_signature"), "c2ln+bmF0/dXJl=");
    assert_eq!(field(&fields, "oauth_token"), "tok/en=yes");
    assert_eq!(field(&fields, "oauth_version"), "1.0");
}

#[test]
fn parse_rejects_malformed_headers() {
    assert!(parse_header("Bearer abc").is_none());
    assert!(parse_header("OAuth ").is_none());
    assert!(parse_header("OAuth oauth_nonce=abc").is_none());
    assert!(parse_header("OAuth oauth_nonce=\"unterminated").is_none());
}

#[test]
fn rsa_signature_verifies_and_rejects_mutation() {
    let (params, pem, public_pem) = rsa_params("abc123");
    let header = params
        .sign_request_with(&pem, "GET", "https://api.example.com/Contacts", "NfQr81PqZVsvVcIsvBGw7nnAintLKKQp", "1500000000")
        .unwrap();
    let fields = parse_header(&header).unwrap();

    let pairs = params.get_oauth_params("NfQr81PqZVsvVcIsvBGw7nnAintLKKQp", "1500000000");
    let canonical = xero::canonical::param_string(&pairs);
    let base = params
        .get_signature_base("GET", "https://api.example.com/Contacts", &canonical)
        .unwrap();

    let sig_b64 = field(&fields, "oauth_signature");
    let sig = b64_decode(sig_b64);

    let public_key = PKey::public_key_from_pem(&public_pem).unwrap();
    let mut verifier = Verifier::new(MessageDigest::sha1(), &public_key).unwrap();
    verifier.update(base.as_bytes()).unwrap();
    assert!(verifier.verify(&sig).unwrap());

    // a single changed character anywhere must break verification
    let mutated = base.replacen("GET", "PUT", 1);
    let mut verifier = Verifier::new(MessageDigest::sha1(), &public_key).unwrap();
    verifier.update(mutated.as_bytes()).unwrap();
    assert!(!verifier.verify(&sig).unwrap());

    let mutated = base.replacen("Contacts", "Contactz", 1);
    let mut verifier = Verifier::new(MessageDigest::sha1(), &public_key).unwrap();
    verifier.update(mutated.as_bytes()).unwrap();
    assert!(!verifier.verify(&sig).unwrap());

    let mutated = base.replacen("1500000000", "1500000001", 1);
    let mut verifier = Verifier::new(MessageDigest::sha1(), &public_key).unwrap();
    verifier.update(mutated.as_bytes()).unwrap();
    assert!(!verifier.verify(&sig).unwrap());
}

fn b64_decode(text: &str) -> Vec<u8> {
    rustc_serialize::base64::FromBase64::from_base64(text).unwrap()
}

#[test]
fn hmac_signature_matches_openssl() {
    let mut params = Params::new("consumer".to_string(), SignatureMethod::HmacSha1).unwrap();
    params.oauth_consumer_secret = Some("cs".to_string());
    params.oauth_token_secret = Some("ts".to_string());
    let header = params
        .sign_request_with(b"", "get", "https://api.example.com/Payments", "abcdef", "1400000000")
        .unwrap();
    let fields = parse_header(&header).unwrap();
    let sig = b64_decode(field(&fields, "oauth_signature"));

    let pairs = params.get_oauth_params("abcdef", "1400000000");
    let canonical = xero::canonical::param_string(&pairs);
    let base = params
        .get_signature_base("get", "https://api.example.com/Payments", &canonical)
        .unwrap();
    let key = params.get_signing_key().unwrap();
    assert_eq!(key, "cs&ts");

    let hmac_key = PKey::hmac(key.as_bytes()).unwrap();
    let mut signer = openssl::sign::Signer::new(MessageDigest::sha1(), &hmac_key).unwrap();
    signer.update(base.as_bytes()).unwrap();
    let expected = signer.sign_to_vec().unwrap();
    assert_eq!(sig, expected);
}

#[test]
fn scenario_private_rsa_contact_request() {
    let (params, pem, public_pem) = rsa_params("abc123");
    let header = params
        .sign_request(&pem, "GET", "https://api.example.com/Contacts")
        .unwrap();

    assert!(header.starts_with("OAuth oauth_consumer_key=\"abc123\", oauth_nonce=\""));
    let fields = parse_header(&header).unwrap();
    let names: Vec<&str> = fields.iter().map(|(n, _)| n.as_str()).collect();
    assert_eq!(
        names,
        [
            "oauth_consumer_key",
            "oauth_nonce",
            "oauth_signature",
            "oauth_signature_method",
            "oauth_timestamp",
            "oauth_version",
        ]
    );

    let nonce = field(&fields, "oauth_nonce").to_string();
    assert_eq!(nonce.len(), 32);
    assert!(nonce.chars().all(|c| c.is_ascii_alphanumeric()));
    let timestamp = field(&fields, "oauth_timestamp").to_string();
    assert!(!timestamp.is_empty());
    assert!(timestamp.chars().all(|c| c.is_ascii_digit()));
    assert_eq!(field(&fields, "oauth_signature_method"), "RSA-SHA1");
    assert_eq!(field(&fields, "oauth_version"), "1.0");

    // the signature must verify against exactly the canonical base string
    let expected_base = format!(
        "GET&https%3A%2F%2Fapi.example.com%2FContacts&oauth_consumer_key%3Dabc123%26oauth_nonce%3D{}%26oauth_signature_method%3DRSA-SHA1%26oauth_timestamp%3D{}%26oauth_version%3D1.0",
        nonce, timestamp
    );
    let sig = b64_decode(field(&fields, "oauth_signature"));
    let public_key = PKey::public_key_from_pem(&public_pem).unwrap();
    let mut verifier = Verifier::new(MessageDigest::sha1(), &public_key).unwrap();
    verifier.update(expected_base.as_bytes()).unwrap();
    assert!(verifier.verify(&sig).unwrap());
}

#[test]
fn realm_stays_in_header_but_out_of_the_signed_text() {
    let mut params = Params::new("consumer".to_string(), SignatureMethod::HmacSha1).unwrap();
    params.realm = Some("https://photos.example.net/".to_string());
    params.oauth_consumer_secret = Some("cs".to_string());

    // realm is not a signable parameter and never reaches the base string
    let pairs = params.get_oauth_params("nonce123", "1500000000");
    assert!(pairs.iter().all(|(name, _)| name != "realm"));
    let canonical = xero::canonical::param_string(&pairs);
    let base = params
        .get_signature_base("GET", "https://api.example.com/Contacts", &canonical)
        .unwrap();
    assert!(!base.contains("realm"));
    assert!(!base.contains("photos.example.net"));

    // yet the assembled header carries it, and it parses back
    let header = params
        .sign_request_with(b"", "GET", "https://api.example.com/Contacts", "nonce123", "1500000000")
        .unwrap();
    let fields = parse_header(&header).unwrap();
    assert_eq!(field(&fields, "realm"), "https://photos.example.net/");
}

#[test]
fn query_on_the_url_is_signed_unmerged() {
    // A base URL carrying a query is signed as given: its pairs are not
    // folded into the signable parameter set, and the URL keeps its query,
    // percent-encoded in place.
    let params = Params::new("abc123".to_string(), SignatureMethod::HmacSha1).unwrap();
    let pairs = params.get_oauth_params("nonce123", "1500000000");
    assert!(pairs.iter().all(|(name, _)| name != "page"));
    let canonical = xero::canonical::param_string(&pairs);
    assert!(!canonical.contains("page"));
    let base = params
        .get_signature_base("GET", "https://api.example.com/Contacts?page=2", &canonical)
        .unwrap();
    assert!(base.starts_with("GET&https%3A%2F%2Fapi.example.com%2FContacts%3Fpage%3D2&"));
}

#[test]
fn non_rsa_key_is_rejected_as_invalid() {
    let params = Params::new("abc123".to_string(), SignatureMethod::RsaSha1).unwrap();
    let ec_group =
        openssl::ec::EcGroup::from_curve_name(openssl::nid::Nid::X9_62_PRIME256V1).unwrap();
    let ec_key = openssl::ec::EcKey::generate(&ec_group).unwrap();
    let ec_pem = PKey::from_ec_key(ec_key).unwrap().private_key_to_pem_pkcs8().unwrap();
    let err = params
        .sign_request_with(&ec_pem, "GET", "https://api.example.com/x", "n", "1")
        .unwrap_err();
    assert_eq!(err, xero::oauth::Error::InvalidKey);
}

#[test]
fn invalid_key_is_reported() {
    let params = Params::new("abc123".to_string(), SignatureMethod::RsaSha1).unwrap();
    let err = params
        .sign_request_with(b"not a pem", "GET", "https://api.example.com/x", "n", "1")
        .unwrap_err();
    assert_eq!(err, xero::oauth::Error::InvalidKey);
}

#[test]
fn facade_takes_the_verb_first() {
    let rsa = Rsa::generate(2048).unwrap();
    let pkey = PKey::from_rsa(rsa).unwrap();
    let private_pem = pkey.private_key_to_pem_pkcs8().unwrap();
    let public_pem = pkey.public_key_to_pem().unwrap();
    let app = xero::application::PrivateApplication::new("abc123".to_string(), private_pem)
        .unwrap();

    let header = app.get_signature("GET", "https://api.example.com/Contacts").unwrap();
    let fields = parse_header(&header).unwrap();
    assert_eq!(field(&fields, "oauth_signature_method"), "RSA-SHA1");
    assert_eq!(field(&fields, "oauth_token"), "abc123");

    // the signature verifies against a base string whose method slot holds
    // the verb and whose URL slot holds the URL — not the other way round
    let nonce = field(&fields, "oauth_nonce").to_string();
    let timestamp = field(&fields, "oauth_timestamp").to_string();
    let mut params = Params::new("abc123".to_string(), SignatureMethod::RsaSha1).unwrap();
    params.oauth_token = Some("abc123".to_string());
    let pairs = params.get_oauth_params(&nonce, &timestamp);
    let canonical = xero::canonical::param_string(&pairs);
    let base = params
        .get_signature_base("GET", "https://api.example.com/Contacts", &canonical)
        .unwrap();
    let sig = b64_decode(field(&fields, "oauth_signature"));
    let public_key = PKey::public_key_from_pem(&public_pem).unwrap();
    let mut verifier = Verifier::new(MessageDigest::sha1(), &public_key).unwrap();
    verifier.update(base.as_bytes()).unwrap();
    assert!(verifier.verify(&sig).unwrap());
}

#[test]
fn fresh_nonce_and_timestamp_each_call() {
    let n1 = xero::oauth::generate_nonce().unwrap();
    let n2 = xero::oauth::generate_nonce().unwrap();
    assert_eq!(n1.len(), 32);
    assert_eq!(n2.len(), 32);
    assert!(n1.chars().all(|c| c.is_ascii_alphanumeric()));
    assert_ne!(n1, n2);

    let (params, pem, _) = rsa_params("abc123");
    let h1 = params.sign_request(&pem, "GET", "https://api.example.com/Contacts").unwrap();
    let h2 = params.sign_request(&pem, "GET", "https://api.example.com/Contacts").unwrap();
    assert_ne!(h1, h2);

    let t = xero::oauth::generate_timestamp();
    assert!(!t.is_empty());
    assert!(t.chars().all(|c| c.is_ascii_digit()));
    // a current clock reading is ten digits for decades to come
    assert!(t.len() >= 10);
}
